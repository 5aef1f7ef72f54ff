//! How files get to where they belong: exports, staged files and what the builtin packages left
//! in older places.

use vstd::prelude::*;
use crate::catalog;
use crate::catalog::builtin_zlib_static_library_path;
use crate::exports::Export;
use crate::failure::{failure, outcome, Failure, Messages};
use crate::model::{
    PackageOrigin, PackageSpec, StageEntry, StageEntryView, StageKind,
    StageSourceRoot, Text,
};
use crate::paths;
use crate::paths::{is_absolute_on, join_path, parent_path, path_starts_with, HostPlatform};
use crate::source;
use crate::source::ensure_resolved_path_within_root;
use crate::text;
use crate::text::{cat3, cat4, cat6, cat7, chars_of, find_char, put, same, split, Dup};

verus! {

/// Why something is copied: to export it, or to stage it for an installation.
#[derive(Clone, Copy, Debug, PartialEq, Eq, Structural)]
pub enum CopyPurpose {
    Export,
    Install,
}

/// How something is copied.
#[derive(Clone, Copy, Debug, PartialEq, Eq, Structural)]
pub enum CopyAction {
    File,
    Tree,
    Link,
}

impl DeepView for CopyAction {
    type V = CopyAction;

    open spec fn deep_view(&self) -> CopyAction {
        *self
    }
}

/// Where a link leads, before other links are followed.
pub open spec fn link_path(platform: HostPlatform, link: Text, target: Text) -> Text {
    if paths::absolute_on(platform, target) {
        target
    } else {
        paths::joined_path(
            platform,
            match paths::parent_of(platform, link) {
                Some(parent) => parent,
                None => "."@,
            },
            target,
        )
    }
}

pub fn symlink_target_path(platform: HostPlatform, link: &str, target: &str) -> (path: String)
    ensures
        path@ == link_path(platform, link@, target@),
{
    if is_absolute_on(platform, target) {
        return target.to_owned();
    }
    let parent = match parent_path(platform, link) {
        Some(parent) => parent,
        None => ".".to_owned(),
    };
    join_path(platform, &parent, target)
}

/// What is wrong with a link: it leads out of its root.
pub open spec fn link_check(
    platform: HostPlatform,
    link: Text,
    root: Text,
    target: Text,
    resolved_target: Text,
    resolved_root: Text,
) -> Result<(), Messages> {
    if paths::below(platform, resolved_target, resolved_root) {
        Ok(())
    } else {
        Err(
            seq![
                "symlink '"@ + link + "' points outside its allowed root '"@ + root + "': '"@
                    + target + "'"@,
            ],
        )
    }
}

/// Checks that a link stays below its root. The target and the root come with what they are once
/// links are followed.
pub fn validate_confined_symlink_target(
    platform: HostPlatform,
    link: &str,
    source_root: &str,
    target: &str,
    resolved_target: &str,
    resolved_root: &str,
) -> (result: Result<(), Failure>)
    ensures
        outcome(result) == link_check(
            platform,
            link@,
            source_root@,
            target@,
            resolved_target@,
            resolved_root@,
        ),
{
    if path_starts_with(platform, resolved_target, resolved_root) {
        Ok(())
    } else {
        Err(
            failure(
                cat7(
                    "symlink '",
                    link,
                    "' points outside its allowed root '",
                    source_root,
                    "': '",
                    target,
                    "'",
                ),
            ),
        )
    }
}

/// A link that was found: what it says, and what that is once links are followed.
#[derive(Clone, Debug, PartialEq, Eq)]
pub struct FoundLink {
    pub target: String,
    pub resolved_target: String,
}

/// The model of [`FoundLink`].
pub struct FoundLinkView {
    pub target: Text,
    pub resolved_target: Text,
}

impl DeepView for FoundLink {
    type V = FoundLinkView;

    open spec fn deep_view(&self) -> FoundLinkView {
        FoundLinkView { target: self.target@, resolved_target: self.resolved_target@ }
    }
}

/// What stands where a copy comes from.
#[derive(Clone, Debug, PartialEq, Eq)]
pub enum SourceKind {
    Link(FoundLink),
    Directory,
    File,
    Other,
}

/// The model of [`SourceKind`].
pub enum SourceKindView {
    Link(FoundLinkView),
    Directory,
    File,
    Other,
}

impl DeepView for SourceKind {
    type V = SourceKindView;

    open spec fn deep_view(&self) -> SourceKindView {
        match self {
            SourceKind::Link(link) => SourceKindView::Link(link.deep_view()),
            SourceKind::Directory => SourceKindView::Directory,
            SourceKind::File => SourceKindView::File,
            SourceKind::Other => SourceKindView::Other,
        }
    }
}

/// What is copied: what stands at a path below a root, and what the path and the root are once
/// links are followed.
#[derive(Clone, Debug, PartialEq, Eq)]
pub struct CopySource {
    pub root: String,
    pub relative_path: String,
    pub kind: SourceKind,
    pub resolved_path: String,
    pub resolved_root: String,
}

/// The model of [`CopySource`].
pub struct CopySourceView {
    pub root: Text,
    pub relative_path: Text,
    pub kind: SourceKindView,
    pub resolved_path: Text,
    pub resolved_root: Text,
}

impl DeepView for CopySource {
    type V = CopySourceView;

    open spec fn deep_view(&self) -> CopySourceView {
        CopySourceView {
            root: self.root@,
            relative_path: self.relative_path@,
            kind: self.kind.deep_view(),
            resolved_path: self.resolved_path@,
            resolved_root: self.resolved_root@,
        }
    }
}

/// What messages call the thing that is copied.
pub open spec fn copied_thing(purpose: CopyPurpose, relative: Text) -> Text {
    (if purpose == CopyPurpose::Export {
        "declared export '"@
    } else {
        "manual install source '"@
    }) + relative + "'"@
}

/// Says what messages call the thing that is copied.
pub fn describe_copied(purpose: CopyPurpose, relative_path: &str) -> (name: String)
    ensures
        name@ == copied_thing(purpose, relative_path@),
{
    if purpose == CopyPurpose::Export {
        cat3("declared export '", relative_path, "'")
    } else {
        cat3("manual install source '", relative_path, "'")
    }
}

/// How a link is copied: as a link, where it stays below its root.
pub open spec fn link_copy(
    platform: HostPlatform,
    link: Text,
    root: Text,
    found: FoundLinkView,
    resolved_root: Text,
) -> Result<CopyAction, Messages> {
    match link_check(platform, link, root, found.target, found.resolved_target, resolved_root) {
        Ok(_) => Ok(CopyAction::Link),
        Err(messages) => Err(messages),
    }
}

fn plan_link_copy(
    platform: HostPlatform,
    link: &str,
    root: &str,
    found: &FoundLink,
    resolved_root: &str,
) -> (result: Result<CopyAction, Failure>)
    ensures
        outcome(result) == link_copy(
            platform,
            link@,
            root@,
            found.deep_view(),
            resolved_root@,
        ),
{
    validate_confined_symlink_target(
        platform,
        link,
        root,
        &found.target,
        &found.resolved_target,
        resolved_root,
    )?;
    Ok(CopyAction::Link)
}

/// How what stands at a path is copied: only where it stays below its root, and a directory only
/// where that is allowed.
pub open spec fn copy_of(
    platform: HostPlatform,
    purpose: CopyPurpose,
    from: CopySourceView,
    allow_directory: bool,
) -> Result<CopyAction, Messages> {
    let path = paths::joined_path(platform, from.root, from.relative_path);
    let name = copied_thing(purpose, from.relative_path);
    match source::root_check(
        platform,
        path,
        from.root,
        name,
        from.resolved_path,
        from.resolved_root,
    ) {
        Err(messages) => Err(messages),
        Ok(_) => match from.kind {
            SourceKindView::Link(found) => link_copy(
                platform,
                path,
                from.root,
                found,
                from.resolved_root,
            ),
            SourceKindView::File => Ok(CopyAction::File),
            SourceKindView::Directory => if allow_directory {
                Ok(CopyAction::Tree)
            } else if purpose == CopyPurpose::Export {
                Err(seq!["declared file export '"@ + path + "' resolved to a directory"@])
            } else {
                Err(seq!["manual install file source '"@ + path + "' resolved to a directory"@])
            },
            SourceKindView::Other => Err(
                seq![
                    name + " is not a regular file, directory, or symlink under '"@ + from.root
                        + "'"@,
                ],
            ),
        },
    }
}

pub fn plan_copy(
    platform: HostPlatform,
    purpose: CopyPurpose,
    from: &CopySource,
    allow_directory: bool,
) -> (result: Result<CopyAction, Failure>)
    ensures
        outcome(result) == copy_of(platform, purpose, from.deep_view(), allow_directory),
{
    let path = join_path(platform, &from.root, &from.relative_path);
    let name = describe_copied(purpose, &from.relative_path);
    ensure_resolved_path_within_root(
        platform,
        &path,
        &from.root,
        &name,
        &from.resolved_path,
        &from.resolved_root,
    )?;
    match &from.kind {
        SourceKind::Link(found) => plan_link_copy(
            platform,
            &path,
            &from.root,
            found,
            &from.resolved_root,
        ),
        SourceKind::File => Ok(CopyAction::File),
        SourceKind::Directory => if allow_directory {
            Ok(CopyAction::Tree)
        } else if purpose == CopyPurpose::Export {
            Err(failure(cat3("declared file export '", &path, "' resolved to a directory")))
        } else {
            Err(
                failure(
                    cat3("manual install file source '", &path, "' resolved to a directory"),
                ),
            )
        },
        SourceKind::Other => Err(
            failure(
                cat4(
                    &name,
                    " is not a regular file, directory, or symlink under '",
                    &from.root,
                    "'",
                ),
            ),
        ),
    }
}

/// How what stands at a path inside a copied directory is copied: a link only where it stays
/// below the root that the directory belongs to. Anything but files, links and directories is
/// left out.
pub open spec fn inner_copy(
    platform: HostPlatform,
    root: Text,
    path: Text,
    kind: SourceKindView,
    resolved_root: Text,
) -> Result<Option<CopyAction>, Messages> {
    match kind {
        SourceKindView::Link(found) => match link_copy(platform, path, root, found, resolved_root) {
            Ok(action) => Ok(Some(action)),
            Err(messages) => Err(messages),
        },
        SourceKindView::Directory => Ok(Some(CopyAction::Tree)),
        SourceKindView::File => Ok(Some(CopyAction::File)),
        SourceKindView::Other => Ok(None),
    }
}

pub fn plan_inner_copy(
    platform: HostPlatform,
    source_root: &str,
    path: &str,
    kind: &SourceKind,
    resolved_root: &str,
) -> (result: Result<Option<CopyAction>, Failure>)
    ensures
        outcome(result) == inner_copy(
            platform,
            source_root@,
            path@,
            kind.deep_view(),
            resolved_root@,
        ),
{
    match kind {
        SourceKind::Link(found) => match plan_link_copy(
            platform,
            path,
            source_root,
            found,
            resolved_root,
        ) {
            Ok(action) => Ok(Some(action)),
            Err(error) => Err(error),
        },
        SourceKind::Directory => Ok(Some(CopyAction::Tree)),
        SourceKind::File => Ok(Some(CopyAction::File)),
        SourceKind::Other => Ok(None),
    }
}

/// What the log says of a copy. A link is copied in the same words whatever for.
pub open spec fn copy_note(
    purpose: CopyPurpose,
    action: CopyAction,
    source: Text,
    destination: Text,
    target: Text,
) -> Text {
    let verb = if purpose == CopyPurpose::Export {
        "copy "@
    } else {
        "install "@
    };
    match action {
        CopyAction::File => verb + "file "@ + source + " -> "@ + destination + "\n"@,
        CopyAction::Tree => verb + "dir "@ + source + " -> "@ + destination + "\n"@,
        CopyAction::Link => "copy symlink "@ + source + " -> "@ + destination + " ("@ + target
            + ")\n"@,
    }
}

pub fn describe_copy(
    purpose: CopyPurpose,
    action: CopyAction,
    source: &str,
    destination: &str,
    target: &str,
) -> (note: String)
    ensures
        note@ == copy_note(purpose, action, source@, destination@, target@),
{
    let verb = if purpose == CopyPurpose::Export {
        "copy "
    } else {
        "install "
    };
    match action {
        CopyAction::File => cat6(verb, "file ", source, " -> ", destination, "\n"),
        CopyAction::Tree => cat6(verb, "dir ", source, " -> ", destination, "\n"),
        CopyAction::Link => cat7("copy symlink ", source, " -> ", destination, " (", target, ")\n"),
    }
}

/// A copy that stages something for an installation.
#[derive(Clone, Debug, PartialEq, Eq)]
pub struct StageCopy {
    pub root: String,
    pub source: String,
    pub destination: String,
    pub allow_directory: bool,
}

/// The model of [`StageCopy`].
pub struct StageCopyView {
    pub root: Text,
    pub source: Text,
    pub destination: Text,
    pub allow_directory: bool,
}

impl DeepView for StageCopy {
    type V = StageCopyView;

    open spec fn deep_view(&self) -> StageCopyView {
        StageCopyView {
            root: self.root@,
            source: self.source@,
            destination: self.destination@,
            allow_directory: self.allow_directory,
        }
    }
}

/// The copy that a stage entry asks for.
pub open spec fn stage_copy(
    source_root: Text,
    build_root: Text,
    entry: StageEntryView,
) -> StageCopyView {
    StageCopyView {
        root: match entry.source_root {
            StageSourceRoot::Source => source_root,
            StageSourceRoot::Build => build_root,
        },
        source: entry.source,
        destination: entry.destination,
        allow_directory: entry.kind == StageKind::Tree,
    }
}

/// The copies that stage entries ask for, in order.
pub open spec fn stage_copies(
    source_root: Text,
    build_root: Text,
    entries: Seq<StageEntryView>,
) -> Seq<StageCopyView> {
    entries.map_values(|entry: StageEntryView| stage_copy(source_root, build_root, entry))
}

pub fn plan_stage_entries(
    source_root: &str,
    build_root: &str,
    entries: &Vec<StageEntry>,
) -> (copies:
    Vec<StageCopy>)
    ensures
        copies.deep_view() == stage_copies(source_root@, build_root@, entries.deep_view()),
{
    let ghost all = stage_copies(source_root@, build_root@, entries.deep_view());
    let mut copies: Vec<StageCopy> = Vec::new();
    let mut index: usize = 0;
    assert(copies.deep_view() == all.take(0));
    while index < entries.len()
        invariant
            index <= entries.len(),
            all == stage_copies(source_root@, build_root@, entries.deep_view()),
            copies.deep_view() == all.take(index as int),
        decreases entries.len() - index,
    {
        let entry = &entries[index];
        assert(entries.deep_view()[index as int] == entry.deep_view());
        let root: &str = match entry.source_root {
            StageSourceRoot::Source => source_root,
            StageSourceRoot::Build => build_root,
        };
        put(
            &mut copies,
            StageCopy {
                root: root.to_owned(),
                source: entry.source.dup(),
                destination: entry.destination.dup(),
                allow_directory: entry.kind == StageKind::Tree,
            },
        );
        index = index + 1;
        assert(copies.deep_view() == all.take(index as int));
    }
    assert(all.take(index as int) == all);
    copies
}

/// Whether a builtin package is to be filled from an older place: its files are missing where they
/// belong and complete there.
pub open spec fn wants_older_files(
    origin: PackageOrigin,
    present: bool,
    present_elsewhere: bool,
) -> bool {
    origin == PackageOrigin::Builtin && !present && present_elsewhere
}

pub fn fills_from_older_place(spec: &PackageSpec, present: bool, present_elsewhere: bool) -> (yes:
    bool)
    ensures
        yes == wants_older_files(spec.deep_view().origin, present, present_elsewhere),
{
    spec.origin == PackageOrigin::Builtin && !present && present_elsewhere
}

/// What is copied for a builtin package out of the flat store of older versions.
pub open spec fn flat_store_exports(platform: HostPlatform, name: Text) -> Result<
    Seq<(Text, bool)>,
    Messages,
> {
    if name == "bitsery"@ {
        Ok(seq![("include/bitsery"@, true)])
    } else if name == "itoa"@ {
        Ok(seq![("include/itoa"@, true)])
    } else if name == "zlib"@ {
        Ok(
            seq![
                ("include/zlib.h"@, false),
                ("include/zconf.h"@, false),
                (catalog::zlib_library(platform), false),
            ],
        )
    } else {
        Err(
            seq![
                "builtin package '"@ + name
                    + "' is present only in the legacy flat store, but no migration strategy is defined"@,
            ],
        )
    }
}

pub fn migrate_builtin_from_legacy(platform: HostPlatform, name: &str) -> (result: Result<
    Vec<Export>,
    Failure,
>)
    ensures
        outcome(result) == flat_store_exports(platform, name@),
{
    let mut exports: Vec<Export> = Vec::new();
    assert(exports.deep_view() == Seq::<(Text, bool)>::empty());
    if same(name, "bitsery") {
        put(&mut exports, ("include/bitsery".to_owned(), true));
    } else if same(name, "itoa") {
        put(&mut exports, ("include/itoa".to_owned(), true));
    } else if same(name, "zlib") {
        put(&mut exports, ("include/zlib.h".to_owned(), false));
        put(&mut exports, ("include/zconf.h".to_owned(), false));
        put(&mut exports, (builtin_zlib_static_library_path(platform).to_owned(), false));
    } else {
        return Err(
            failure(
                cat3(
                    "builtin package '",
                    name,
                    "' is present only in the legacy flat store, but no migration strategy is defined",
                ),
            ),
        );
    }
    assert(flat_store_exports(platform, name@) matches Ok(all) && exports.deep_view() == all);
    Ok(exports)
}

/// The directories of a search path. On Windows a quoted part may hold the separator; the quotes
/// do not belong to the directory.
pub open spec fn search_directories(
    platform: HostPlatform,
    value: Text,
    from: int,
    quoted: bool,
    current: Text,
    done: Seq<Text>,
) -> Seq<Text>
    decreases value.len() - from,
{
    if from >= value.len() {
        done.push(current)
    } else if platform == HostPlatform::Windows && value[from] == '"' {
        search_directories(platform, value, from + 1, !quoted, current, done)
    } else if value[from] == (if platform == HostPlatform::Windows {
        ';'
    } else {
        ':'
    }) && !quoted {
        search_directories(platform, value, from + 1, quoted, Seq::empty(), done.push(current))
    } else {
        search_directories(platform, value, from + 1, quoted, current.push(value[from]), done)
    }
}

/// Splits a search path into its directories.
pub fn split_search_path(platform: HostPlatform, value: &str) -> (directories: Vec<String>)
    ensures
        directories.deep_view() == search_directories(
            platform,
            value@,
            0,
            false,
            Seq::empty(),
            Seq::empty(),
        ),
{
    let chars = chars_of(value);
    let windows = platform == HostPlatform::Windows;
    let separator: char = if windows {
        ';'
    } else {
        ':'
    };
    let mut directories: Vec<String> = Vec::new();
    let mut current = String::new();
    let mut quoted = false;
    let mut from: usize = 0;
    assert(directories.deep_view() == Seq::<Text>::empty());
    assert(current@ == Seq::<char>::empty());
    while from < chars.len()
        invariant
            from <= chars.len(),
            chars@ == value@,
            windows == (platform == HostPlatform::Windows),
            separator == (if windows {
                ';'
            } else {
                ':'
            }),
            search_directories(platform, value@, 0, false, Seq::empty(), Seq::empty())
                == search_directories(
                platform,
                value@,
                from as int,
                quoted,
                current@,
                directories.deep_view(),
            ),
        decreases chars.len() - from,
    {
        let c: char = chars[from];
        if windows && c == '"' {
            quoted = !quoted;
        } else if c == separator && !quoted {
            put(&mut directories, current);
            current = String::new();
            assert(current@ == Seq::<char>::empty());
        } else {
            current.push(c);
        }
        from = from + 1;
    }
    put(&mut directories, current);
    directories
}

/// Whether the name of a program has an extension: a dot that is not its first character.
pub open spec fn has_extension(executable: Text) -> bool {
    executable != ".."@ && text::position_of(executable, '.', 1) < executable.len()
}

/// The non-empty pieces among the first `count`.
pub open spec fn non_empty(parts: Seq<Text>, count: int) -> Seq<Text>
    decreases count,
{
    if count <= 0 {
        Seq::empty()
    } else if parts[count - 1].len() == 0 {
        non_empty(parts, count - 1)
    } else {
        non_empty(parts, count - 1).push(parts[count - 1])
    }
}

/// The extensions that Windows tries for a program.
pub open spec fn program_extensions(value: Option<Text>) -> Seq<Text> {
    match value {
        Some(value) => {
            let parts = text::pieces(value, ';');
            non_empty(parts, parts.len() as int)
        },
        None => seq![".COM"@, ".EXE"@, ".BAT"@, ".CMD"@],
    }
}

fn list_program_extensions(value: &Option<String>) -> (extensions: Vec<String>)
    ensures
        extensions.deep_view() == program_extensions(value.deep_view()),
{
    match value {
        Some(value) => {
            let parts = split(value, ';');
            assert(parts.deep_view().len() == parts.len());
            let mut extensions: Vec<String> = Vec::new();
            assert(extensions.deep_view() == Seq::<Text>::empty());
            let mut count: usize = 0;
            while count < parts.len()
                invariant
                    count <= parts.len(),
                    extensions.deep_view() == non_empty(parts.deep_view(), count as int),
                decreases parts.len() - count,
            {
                assert(parts.deep_view()[count as int] == parts[count as int]@);
                if !parts[count].as_str().is_empty() {
                    put(&mut extensions, parts[count].dup());
                }
                count = count + 1;
            }
            extensions
        },
        None => text::words4(".COM", ".EXE", ".BAT", ".CMD"),
    }
}

/// The paths that a program may have in a directory, with the first `count` extensions.
pub open spec fn with_extensions(
    platform: HostPlatform,
    directory: Text,
    executable: Text,
    extensions: Seq<Text>,
    count: int,
) -> Seq<Text>
    decreases count,
{
    if count <= 0 {
        Seq::empty()
    } else {
        with_extensions(platform, directory, executable, extensions, count - 1).push(
            paths::joined_path(platform, directory, executable + extensions[count - 1]),
        )
    }
}

/// The paths that a program may have in the first `count` directories, the preferred ones first.
pub open spec fn program_paths(
    platform: HostPlatform,
    directories: Seq<Text>,
    executable: Text,
    extensions: Seq<Text>,
    count: int,
) -> Seq<Text>
    decreases count,
{
    if count <= 0 {
        Seq::empty()
    } else {
        let directory = directories[count - 1];
        program_paths(platform, directories, executable, extensions, count - 1) + with_extensions(
            platform,
            directory,
            executable,
            extensions,
            extensions.len() as int,
        ).push(paths::joined_path(platform, directory, executable))
    }
}

/// Where a program is looked for: nowhere, where it names a place or there is no search path. On
/// Windows a program without an extension is tried with those of programs first.
pub open spec fn program_candidates(
    platform: HostPlatform,
    executable: Text,
    path: Option<Text>,
    path_extensions: Option<Text>,
) -> Seq<Text> {
    let extensions = if platform == HostPlatform::Windows && !has_extension(executable) {
        program_extensions(path_extensions)
    } else {
        Seq::empty()
    };
    match path {
        None => Seq::empty(),
        Some(path) => {
            let directories = search_directories(
                platform,
                path,
                0,
                false,
                Seq::empty(),
                Seq::empty(),
            );
            if executable.contains('/') || executable.contains('\\') {
                Seq::empty()
            } else {
                program_paths(
                    platform,
                    directories,
                    executable,
                    extensions,
                    directories.len() as int,
                )
            }
        },
    }
}

fn holds_char(chars: &Vec<char>, c: char) -> (yes: bool)
    ensures
        yes == chars@.contains(c),
{
    let mut index: usize = 0;
    while index < chars.len()
        invariant
            index <= chars.len(),
            forall|i: int| 0 <= i < index ==> chars@[i] != c,
        decreases chars.len() - index,
    {
        if chars[index] == c {
            assert(chars@[index as int] == c);
            return true;
        }
        index = index + 1;
    }
    false
}

fn put_program_paths(
    platform: HostPlatform,
    candidates: &mut Vec<String>,
    directory: &str,
    executable: &str,
    extensions: &Vec<String>,
)
    ensures
        final(candidates).deep_view() == old(candidates).deep_view() + with_extensions(
            platform,
            directory@,
            executable@,
            extensions.deep_view(),
            extensions.len() as int,
        ).push(paths::joined_path(platform, directory@, executable@)),
{
    let ghost start = candidates.deep_view();
    let mut count: usize = 0;
    assert(candidates.deep_view() == start + with_extensions(
        platform,
        directory@,
        executable@,
        extensions.deep_view(),
        0,
    ));
    while count < extensions.len()
        invariant
            count <= extensions.len(),
            candidates.deep_view() == start + with_extensions(
                platform,
                directory@,
                executable@,
                extensions.deep_view(),
                count as int,
            ),
        decreases extensions.len() - count,
    {
        assert(extensions.deep_view()[count as int] == extensions[count as int]@);
        put(
            candidates,
            join_path(platform, directory, &text::cat2(executable, &extensions[count])),
        );
        count = count + 1;
        assert(candidates.deep_view() == start + with_extensions(
            platform,
            directory@,
            executable@,
            extensions.deep_view(),
            count as int,
        ));
    }
    put(candidates, join_path(platform, directory, executable));
}

/// Lists where a program is looked for. The first path that is a file is the program; where none
/// is, it goes by its name.
pub fn find_executable_in_path(
    platform: HostPlatform,
    executable: &str,
    path: &Option<String>,
    path_extensions: &Option<String>,
) -> (candidates: Vec<String>)
    ensures
        candidates.deep_view() == program_candidates(
            platform,
            executable@,
            path.deep_view(),
            path_extensions.deep_view(),
        ),
{
    let mut candidates: Vec<String> = Vec::new();
    assert(candidates.deep_view() == Seq::<Text>::empty());
    let chars = chars_of(executable);
    if holds_char(&chars, '/') || holds_char(&chars, '\\') {
        return candidates;
    }
    let directories = match path {
        Some(path) => split_search_path(platform, path),
        None => {
            return candidates;
        },
    };
    assert(directories.deep_view().len() == directories.len());
    let dotted = !same(executable, "..") && chars.len() > 1 && find_char(&chars, '.', 1)
        < chars.len();
    proof {
        if chars.len() <= 1 {
            assert(text::position_of(executable@, '.', 1) == executable@.len());
        }
    }
    let extensions = if platform == HostPlatform::Windows && !dotted {
        list_program_extensions(path_extensions)
    } else {
        let none: Vec<String> = Vec::new();
        assert(none.deep_view() == Seq::<Text>::empty());
        none
    };
    assert(extensions.deep_view().len() == extensions.len());
    let mut count: usize = 0;
    while count < directories.len()
        invariant
            count <= directories.len(),
            extensions.deep_view().len() == extensions.len(),
            candidates.deep_view() == program_paths(
                platform,
                directories.deep_view(),
                executable@,
                extensions.deep_view(),
                count as int,
            ),
        decreases directories.len() - count,
    {
        assert(directories.deep_view()[count as int] == directories[count as int]@);
        put_program_paths(platform, &mut candidates, &directories[count], executable, &extensions);
        count = count + 1;
    }
    candidates
}

} // verus!
