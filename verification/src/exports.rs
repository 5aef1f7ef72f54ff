//! The files that a package exports: where they are found and whom they belong to.

use vstd::prelude::*;
use crate::failure::{failure, outcome, Failure, Messages};
use crate::model::{
    PackageSpec, PackageSpecView, TargetKind, TargetSpec, TargetSpecView, Text,
};
use crate::paths;
use crate::paths::{dedup_paths, join_path, path_starts_with, paths_equal, HostPlatform};
use crate::records::{ExportManifest, ExportManifestView};
use crate::source;
use crate::source::ensure_resolved_path_within_root;
use crate::text;
use crate::text::{cat3, cat5, cat6, cat7, join, put, same, Dup};

verus! {

/// A path that is exported, and whether it may be a directory.
pub type Export = (String, bool);

/// The exported paths of the first `count` targets.
pub open spec fn target_exports(targets: Seq<TargetSpecView>, count: int) -> Seq<(Text, bool)>
    decreases count,
{
    if count <= 0 {
        Seq::empty()
    } else {
        let target = targets[count - 1];
        target_exports(targets, count - 1) + target.include_dirs.map_values(
            |path: Text| (path, true),
        ) + target.artifacts().map_values(|artifact: (TargetKind, Text)| (artifact.1, false))
    }
}

/// The paths that a package declares: its artifacts and those of its targets, and the directories
/// of their headers.
pub open spec fn exports_of(spec: PackageSpecView) -> Seq<(Text, bool)> {
    spec.artifacts.map_values(|path: Text| (path, false)) + target_exports(
        spec.targets,
        spec.targets.len() as int,
    )
}

fn put_exports(exports: &mut Vec<Export>, paths: &Vec<String>, allow_directory: bool)
    ensures
        final(exports).deep_view() == old(exports).deep_view() + paths.deep_view().map_values(
            |path: Text| (path, allow_directory),
        ),
{
    let ghost start = exports.deep_view();
    let ghost all = paths.deep_view().map_values(|path: Text| (path, allow_directory));
    let mut index: usize = 0;
    assert(exports.deep_view() == start + all.take(0));
    while index < paths.len()
        invariant
            index <= paths.len(),
            all == paths.deep_view().map_values(|path: Text| (path, allow_directory)),
            exports.deep_view() == start + all.take(index as int),
        decreases paths.len() - index,
    {
        assert(paths.deep_view()[index as int] == paths[index as int]@);
        put(exports, (paths[index].dup(), allow_directory));
        index = index + 1;
        assert(exports.deep_view() == start + all.take(index as int));
    }
    assert(all.take(index as int) == all);
}

fn put_artifacts(exports: &mut Vec<Export>, target: &TargetSpec)
    ensures
        final(exports).deep_view() == old(exports).deep_view()
            + target.deep_view().artifacts().map_values(
            |artifact: (TargetKind, Text)| (artifact.1, false),
        ),
{
    let ghost start = exports.deep_view();
    let artifacts = target.artifact_paths();
    let ghost all = artifacts.deep_view().map_values(
        |artifact: (TargetKind, Text)| (artifact.1, false),
    );
    let mut index: usize = 0;
    assert(exports.deep_view() == start + all.take(0));
    while index < artifacts.len()
        invariant
            index <= artifacts.len(),
            all == artifacts.deep_view().map_values(
                |artifact: (TargetKind, Text)| (artifact.1, false),
            ),
            exports.deep_view() == start + all.take(index as int),
        decreases artifacts.len() - index,
    {
        assert(artifacts.deep_view()[index as int] == artifacts[index as int].deep_view());
        put(exports, (artifacts[index].1.dup(), false));
        index = index + 1;
        assert(exports.deep_view() == start + all.take(index as int));
    }
    assert(all.take(index as int) == all);
}

pub fn declared_exports(spec: &PackageSpec) -> (exports: Vec<Export>)
    ensures
        exports.deep_view() == exports_of(spec.deep_view()),
{
    let mut exports: Vec<Export> = Vec::new();
    assert(exports.deep_view() == Seq::<(Text, bool)>::empty());
    put_exports(&mut exports, &spec.artifacts, false);
    let ghost head = exports.deep_view();
    let ghost targets = spec.targets.deep_view();
    let mut count: usize = 0;
    assert(exports.deep_view() == head + target_exports(targets, 0));
    while count < spec.targets.len()
        invariant
            count <= spec.targets.len(),
            targets == spec.targets.deep_view(),
            exports.deep_view() == head + target_exports(targets, count as int),
        decreases spec.targets.len() - count,
    {
        let target = &spec.targets[count];
        assert(targets[count as int] == target.deep_view());
        put_exports(&mut exports, &target.include_dirs, true);
        put_artifacts(&mut exports, target);
        count = count + 1;
        assert(exports.deep_view() == head + target_exports(targets, count as int));
    }
    exports
}

/// What stands at a path.
#[derive(Clone, Copy, Debug, PartialEq, Eq, Structural)]
pub enum EntryKind {
    File,
    Directory,
    Symlink,
    Other,
}

impl DeepView for EntryKind {
    type V = EntryKind;

    open spec fn deep_view(&self) -> EntryKind {
        *self
    }
}

impl Dup for EntryKind {
    fn dup(&self) -> (copy: Self) {
        *self
    }
}

/// What stands at a path below a root, and what both are once links are followed.
#[derive(Clone, Debug, PartialEq, Eq)]
pub struct FoundEntry {
    pub kind: EntryKind,
    pub resolved_path: String,
    pub resolved_root: String,
}

/// The model of [`FoundEntry`].
pub struct FoundEntryView {
    pub kind: EntryKind,
    pub resolved_path: Text,
    pub resolved_root: Text,
}

impl DeepView for FoundEntry {
    type V = FoundEntryView;

    open spec fn deep_view(&self) -> FoundEntryView {
        FoundEntryView {
            kind: self.kind,
            resolved_path: self.resolved_path@,
            resolved_root: self.resolved_root@,
        }
    }
}

/// A directory that may hold exported files, and what it is called.
#[derive(Clone, Debug, PartialEq, Eq)]
pub struct ExportCandidateRoot {
    pub label: String,
    pub root: String,
}

/// The model of [`ExportCandidateRoot`].
pub struct ExportCandidateRootView {
    pub label: Text,
    pub root: Text,
}

impl DeepView for ExportCandidateRoot {
    type V = ExportCandidateRootView;

    open spec fn deep_view(&self) -> ExportCandidateRootView {
        ExportCandidateRootView { label: self.label@, root: self.root@ }
    }
}

impl Dup for ExportCandidateRoot {
    fn dup(&self) -> (copy: Self) {
        ExportCandidateRoot { label: self.label.dup(), root: self.root.dup() }
    }
}

/// An exported path and where it was found.
#[derive(Clone, Debug, PartialEq, Eq)]
pub struct ResolvedExportSource {
    pub root: String,
    pub relative_path: String,
    pub allow_directory: bool,
}

/// The model of [`ResolvedExportSource`].
pub struct ResolvedExportSourceView {
    pub root: Text,
    pub relative_path: Text,
    pub allow_directory: bool,
}

impl DeepView for ResolvedExportSource {
    type V = ResolvedExportSourceView;

    open spec fn deep_view(&self) -> ResolvedExportSourceView {
        ResolvedExportSourceView {
            root: self.root@,
            relative_path: self.relative_path@,
            allow_directory: self.allow_directory,
        }
    }
}

impl Dup for ResolvedExportSource {
    fn dup(&self) -> (copy: Self) {
        ResolvedExportSource {
            root: self.root.dup(),
            relative_path: self.relative_path.dup(),
            allow_directory: self.allow_directory,
        }
    }
}

/// Whether a directory holds an exported path. What is found there has to stay below the
/// directory and be a file, a link or, where that is allowed, a directory.
pub open spec fn candidate_check(
    platform: HostPlatform,
    candidate: ExportCandidateRootView,
    relative: Text,
    allow_directory: bool,
    entry: Option<FoundEntryView>,
) -> Result<bool, Messages> {
    let path = paths::joined_path(platform, candidate.root, relative);
    match entry {
        None => Ok(false),
        Some(entry) => match source::root_check(
            platform,
            path,
            candidate.root,
            "declared export '"@ + relative + "' in "@ + candidate.label + " output"@,
            entry.resolved_path,
            entry.resolved_root,
        ) {
            Err(messages) => Err(messages),
            Ok(_) => match entry.kind {
                EntryKind::File | EntryKind::Symlink => Ok(true),
                EntryKind::Directory => if allow_directory {
                    Ok(true)
                } else {
                    Err(
                        seq![
                            "declared file export '"@ + relative + "' resolved to directory '"@
                                + path + "' in "@ + candidate.label + " output"@,
                        ],
                    )
                },
                EntryKind::Other => Err(
                    seq![
                        "declared export '"@ + relative + "' resolved to unsupported file type '"@
                            + path + "' in "@ + candidate.label + " output"@,
                    ],
                ),
            },
        },
    }
}

fn check_candidate(
    platform: HostPlatform,
    candidate: &ExportCandidateRoot,
    relative: &str,
    allow_directory: bool,
    entry: &Option<FoundEntry>,
) -> (result: Result<bool, Failure>)
    ensures
        outcome(result) == candidate_check(
            platform,
            candidate.deep_view(),
            relative@,
            allow_directory,
            entry.deep_view(),
        ),
{
    let entry = match entry {
        None => {
            return Ok(false);
        },
        Some(entry) => entry,
    };
    let path = join_path(platform, &candidate.root, relative);
    ensure_resolved_path_within_root(
        platform,
        &path,
        &candidate.root,
        &cat5("declared export '", relative, "' in ", &candidate.label, " output"),
        &entry.resolved_path,
        &entry.resolved_root,
    )?;
    match entry.kind {
        EntryKind::File | EntryKind::Symlink => Ok(true),
        EntryKind::Directory => if allow_directory {
            Ok(true)
        } else {
            Err(
                failure(
                    cat7(
                        "declared file export '",
                        relative,
                        "' resolved to directory '",
                        &path,
                        "' in ",
                        &candidate.label,
                        " output",
                    ),
                ),
            )
        },
        EntryKind::Other => Err(
            failure(
                cat7(
                    "declared export '",
                    relative,
                    "' resolved to unsupported file type '",
                    &path,
                    "' in ",
                    &candidate.label,
                    " output",
                ),
            ),
        ),
    }
}

/// The directories from position `from` on that hold an exported path, put behind `done`.
pub open spec fn matches_from(
    platform: HostPlatform,
    candidates: Seq<ExportCandidateRootView>,
    relative: Text,
    allow_directory: bool,
    found: Seq<Option<FoundEntryView>>,
    from: int,
    done: Seq<ExportCandidateRootView>,
) -> Result<Seq<ExportCandidateRootView>, Messages>
    decreases candidates.len() - from,
{
    if from >= candidates.len() {
        Ok(done)
    } else {
        match candidate_check(platform, candidates[from], relative, allow_directory, found[from]) {
            Err(messages) => Err(messages),
            Ok(holds) => matches_from(
                platform,
                candidates,
                relative,
                allow_directory,
                found,
                from + 1,
                if holds {
                    done.push(candidates[from])
                } else {
                    done
                },
            ),
        }
    }
}

/// Directories as `<label>=<root>`, separated by commas.
pub open spec fn listed(candidates: Seq<ExportCandidateRootView>) -> Text {
    text::joined(
        candidates.map_values(
            |candidate: ExportCandidateRootView| candidate.label + "="@ + candidate.root,
        ),
        ", "@,
    )
}

fn list_candidates(candidates: &Vec<ExportCandidateRoot>) -> (list: String)
    ensures
        list@ == listed(candidates.deep_view()),
{
    let ghost all = candidates.deep_view().map_values(
        |candidate: ExportCandidateRootView| candidate.label + "="@ + candidate.root,
    );
    let mut parts: Vec<String> = Vec::new();
    let mut index: usize = 0;
    assert(parts.deep_view() == all.take(0));
    while index < candidates.len()
        invariant
            index <= candidates.len(),
            all == candidates.deep_view().map_values(
                |candidate: ExportCandidateRootView| candidate.label + "="@ + candidate.root,
            ),
            parts.deep_view() == all.take(index as int),
        decreases candidates.len() - index,
    {
        assert(candidates.deep_view()[index as int] == candidates[index as int].deep_view());
        put(&mut parts, cat3(&candidates[index].label, "=", &candidates[index].root));
        index = index + 1;
        assert(parts.deep_view() == all.take(index as int));
    }
    assert(all.take(index as int) == all);
    join(&parts, ", ")
}

/// Where an exported path is found: in exactly one of the directories.
pub open spec fn export_source(
    platform: HostPlatform,
    candidates: Seq<ExportCandidateRootView>,
    relative: Text,
    allow_directory: bool,
    found: Seq<Option<FoundEntryView>>,
) -> Result<ResolvedExportSourceView, Messages> {
    match matches_from(platform, candidates, relative, allow_directory, found, 0, Seq::empty()) {
        Err(messages) => Err(messages),
        Ok(matching) => if matching.len() == 0 {
            Err(
                seq![
                    "declared export '"@ + relative + "' is missing from all candidate outputs ("@
                        + listed(candidates) + ")"@,
                ],
            )
        } else if matching.len() == 1 {
            Ok(
                ResolvedExportSourceView {
                    root: matching[0].root,
                    relative_path: relative,
                    allow_directory,
                },
            )
        } else {
            Err(
                seq![
                    "declared export '"@ + relative + "' exists in multiple candidate outputs ("@
                        + listed(matching)
                        + "); add STAGE_FILE, STAGE_TREE, or an install phase to disambiguate"@,
                ],
            )
        },
    }
}

/// Finds an exported path. `found` tells of each directory what stands there.
pub fn resolve_declared_export_source(
    platform: HostPlatform,
    candidates: &Vec<ExportCandidateRoot>,
    relative_path: &str,
    allow_directory: bool,
    found: &Vec<Option<FoundEntry>>,
) -> (result: Result<ResolvedExportSource, Failure>)
    requires
        candidates.len() == found.len(),
    ensures
        outcome(result) == export_source(
            platform,
            candidates.deep_view(),
            relative_path@,
            allow_directory,
            found.deep_view(),
        ),
{
    let ghost all = candidates.deep_view();
    let ghost entries = found.deep_view();
    let mut matching: Vec<ExportCandidateRoot> = Vec::new();
    assert(matching.deep_view() == Seq::<ExportCandidateRootView>::empty());
    let mut from: usize = 0;
    while from < candidates.len()
        invariant
            candidates.len() == found.len(),
            from <= candidates.len(),
            all == candidates.deep_view(),
            entries == found.deep_view(),
            matches_from(platform, all, relative_path@, allow_directory, entries, 0, Seq::empty())
                == matches_from(
                platform,
                all,
                relative_path@,
                allow_directory,
                entries,
                from as int,
                matching.deep_view(),
            ),
        decreases candidates.len() - from,
    {
        assert(all[from as int] == candidates[from as int].deep_view());
        assert(entries[from as int] == found[from as int].deep_view());
        if check_candidate(
            platform,
            &candidates[from],
            relative_path,
            allow_directory,
            &found[from],
        )? {
            put(&mut matching, candidates[from].dup());
        }
        from = from + 1;
    }
    assert(matching.deep_view().len() == matching.len());
    if matching.len() == 0 {
        return Err(
            failure(
                cat5(
                    "declared export '",
                    relative_path,
                    "' is missing from all candidate outputs (",
                    &list_candidates(candidates),
                    ")",
                ),
            ),
        );
    }
    if matching.len() == 1 {
        assert(matching.deep_view()[0] == matching[0].deep_view());
        return Ok(
            ResolvedExportSource {
                root: matching[0].root.dup(),
                relative_path: relative_path.to_owned(),
                allow_directory,
            },
        );
    }
    Err(
        failure(
            cat5(
                "declared export '",
                relative_path,
                "' exists in multiple candidate outputs (",
                &list_candidates(&matching),
                "); add STAGE_FILE, STAGE_TREE, or an install phase to disambiguate",
            ),
        ),
    )
}

/// By what two found paths are told apart.
pub open spec fn export_key(export: ResolvedExportSourceView) -> Text {
    export.root + "|"@ + export.relative_path + "|"@ + if export.allow_directory {
        "true"@
    } else {
        "false"@
    }
}

/// Whether a list holds an export with a key.
pub open spec fn has_key(exports: Seq<ResolvedExportSourceView>, key: Text) -> bool {
    exists|i: int| 0 <= i < exports.len() && export_key(#[trigger] exports[i]) == key
}

/// Exports without those that came before.
pub open spec fn distinct_exports(exports: Seq<ResolvedExportSourceView>) -> Seq<
    ResolvedExportSourceView,
>
    decreases exports.len(),
{
    if exports.len() == 0 {
        Seq::empty()
    } else {
        let kept = distinct_exports(exports.drop_last());
        if has_key(kept, export_key(exports.last())) {
            kept
        } else {
            kept.push(exports.last())
        }
    }
}

fn key_of(export: &ResolvedExportSource) -> (key: String)
    ensures
        key@ == export_key(export.deep_view()),
{
    let flag = if export.allow_directory {
        "true"
    } else {
        "false"
    };
    cat5(&export.root, "|", &export.relative_path, "|", flag)
}

fn holds_key(exports: &Vec<ResolvedExportSource>, key: &str) -> (yes: bool)
    ensures
        yes == has_key(exports.deep_view(), key@),
{
    let mut index: usize = 0;
    while index < exports.len()
        invariant
            index <= exports.len(),
            forall|i: int|
                0 <= i < index ==> export_key(#[trigger] exports.deep_view()[i]) != key@,
        decreases exports.len() - index,
    {
        assert(exports.deep_view()[index as int] == exports[index as int].deep_view());
        if same(&key_of(&exports[index]), key) {
            return true;
        }
        index = index + 1;
    }
    false
}

pub fn dedup_resolved_export_sources(entries: &Vec<ResolvedExportSource>) -> (kept: Vec<
    ResolvedExportSource,
>)
    ensures
        kept.deep_view() == distinct_exports(entries.deep_view()),
{
    let ghost all = entries.deep_view();
    let mut kept: Vec<ResolvedExportSource> = Vec::new();
    let mut index: usize = 0;
    assert(all.take(0) == Seq::<ResolvedExportSourceView>::empty());
    assert(kept.deep_view() == distinct_exports(all.take(0)));
    while index < entries.len()
        invariant
            index <= entries.len(),
            all == entries.deep_view(),
            kept.deep_view() == distinct_exports(all.take(index as int)),
        decreases entries.len() - index,
    {
        assert(all[index as int] == entries[index as int].deep_view());
        assert(all.take(index as int + 1).drop_last() == all.take(index as int));
        assert(all.take(index as int + 1).last() == all[index as int]);
        if !holds_key(&kept, &key_of(&entries[index])) {
            put(&mut kept, entries[index].dup());
        }
        index = index + 1;
    }
    assert(all.take(index as int) == all);
    kept
}

/// Where the exported paths from position `from` on are found, put behind `done`.
pub open spec fn sources_from(
    platform: HostPlatform,
    candidates: Seq<ExportCandidateRootView>,
    exports: Seq<(Text, bool)>,
    found: Seq<Seq<Option<FoundEntryView>>>,
    from: int,
    done: Seq<ResolvedExportSourceView>,
) -> Result<Seq<ResolvedExportSourceView>, Messages>
    decreases exports.len() - from,
{
    if from >= exports.len() {
        Ok(distinct_exports(done))
    } else {
        match export_source(platform, candidates, exports[from].0, exports[from].1, found[from]) {
            Err(messages) => Err(messages),
            Ok(export) => sources_from(
                platform,
                candidates,
                exports,
                found,
                from + 1,
                done.push(export),
            ),
        }
    }
}

/// Finds all exported paths of a package. `found` tells of each of them what stands in each
/// directory.
pub fn resolve_declared_export_sources(
    platform: HostPlatform,
    candidates: &Vec<ExportCandidateRoot>,
    spec: &PackageSpec,
    found: &Vec<Vec<Option<FoundEntry>>>,
) -> (result: Result<Vec<ResolvedExportSource>, Failure>)
    requires
        exports_of(spec.deep_view()).len() == found.len(),
        forall|i: int| 0 <= i < found.len() ==> (#[trigger] found[i]).len() == candidates.len(),
    ensures
        outcome(result) == sources_from(
            platform,
            candidates.deep_view(),
            exports_of(spec.deep_view()),
            found.deep_view(),
            0,
            Seq::empty(),
        ),
{
    let exports = declared_exports(spec);
    let ghost all = candidates.deep_view();
    let ghost entries = found.deep_view();
    let mut done: Vec<ResolvedExportSource> = Vec::new();
    assert(done.deep_view() == Seq::<ResolvedExportSourceView>::empty());
    assert(exports.deep_view().len() == exports.len());
    let mut from: usize = 0;
    while from < exports.len()
        invariant
            from <= exports.len(),
            exports.len() == found.len(),
            exports.deep_view() == exports_of(spec.deep_view()),
            all == candidates.deep_view(),
            entries == found.deep_view(),
            forall|i: int|
                0 <= i < found.len() ==> (#[trigger] found[i]).len() == candidates.len(),
            sources_from(
                platform,
                all,
                exports.deep_view(),
                entries,
                0,
                Seq::empty(),
            ) == sources_from(
                platform,
                all,
                exports.deep_view(),
                entries,
                from as int,
                done.deep_view(),
            ),
        decreases exports.len() - from,
    {
        assert(exports.deep_view()[from as int] == exports[from as int].deep_view());
        assert(entries[from as int] == found[from as int].deep_view());
        let export = resolve_declared_export_source(
            platform,
            candidates,
            &exports[from].0,
            exports[from].1,
            &found[from],
        )?;
        put(&mut done, export);
        from = from + 1;
    }
    Ok(dedup_resolved_export_sources(&done))
}

/// The files and links among what stands below a directory, with the first `count` of them.
pub open spec fn files_below(
    platform: HostPlatform,
    relative: Text,
    listing: Seq<(Text, EntryKind)>,
    count: int,
) -> Seq<Text>
    decreases count,
{
    if count <= 0 {
        Seq::empty()
    } else {
        let before = files_below(platform, relative, listing, count - 1);
        match listing[count - 1].1 {
            EntryKind::File | EntryKind::Symlink => before.push(
                paths::joined_path(platform, relative, listing[count - 1].0),
            ),
            _ => before,
        }
    }
}

/// The files of a directory. `listing` holds everything below it, by its path from there.
pub fn collect_directory_export_paths(
    platform: HostPlatform,
    relative_path: &str,
    listing: &Vec<(String, EntryKind)>,
) -> (paths: Vec<String>)
    ensures
        paths.deep_view() == files_below(
            platform,
            relative_path@,
            listing.deep_view(),
            listing.len() as int,
        ),
{
    let mut paths: Vec<String> = Vec::new();
    assert(paths.deep_view() == Seq::<Text>::empty());
    let mut count: usize = 0;
    while count < listing.len()
        invariant
            count <= listing.len(),
            paths.deep_view() == files_below(
                platform,
                relative_path@,
                listing.deep_view(),
                count as int,
            ),
        decreases listing.len() - count,
    {
        assert(listing.deep_view()[count as int] == listing[count as int].deep_view());
        match listing[count].1 {
            EntryKind::File | EntryKind::Symlink => {
                put(&mut paths, join_path(platform, relative_path, &listing[count].0));
            },
            _ => {},
        }
        count = count + 1;
    }
    paths
}

/// The files that an exported path stands for.
pub open spec fn export_files(
    platform: HostPlatform,
    root: Text,
    relative: Text,
    allow_directory: bool,
    kind: EntryKind,
    listing: Seq<(Text, EntryKind)>,
) -> Result<Seq<Text>, Messages> {
    match kind {
        EntryKind::File | EntryKind::Symlink => Ok(seq![relative]),
        EntryKind::Directory => if allow_directory {
            Ok(files_below(platform, relative, listing, listing.len() as int))
        } else {
            Err(
                seq![
                    "declared file export '"@ + paths::joined_path(platform, root, relative)
                        + "' resolved to a directory"@,
                ],
            )
        },
        EntryKind::Other => Err(
            seq![
                "declared export '"@ + relative
                    + "' is not a regular file, directory, or symlink under '"@ + root + "'"@,
            ],
        ),
    }
}

pub fn collect_export_paths(
    platform: HostPlatform,
    source_root: &str,
    relative_path: &str,
    allow_directory: bool,
    kind: EntryKind,
    listing: &Vec<(String, EntryKind)>,
) -> (result: Result<Vec<String>, Failure>)
    ensures
        outcome(result) == export_files(
            platform,
            source_root@,
            relative_path@,
            allow_directory,
            kind,
            listing.deep_view(),
        ),
{
    assert(listing.deep_view().len() == listing.len());
    match kind {
        EntryKind::File | EntryKind::Symlink => {
            let paths = vec![relative_path.to_owned()];
            assert(paths.deep_view() == seq![relative_path@]);
            Ok(paths)
        },
        EntryKind::Directory => if allow_directory {
            Ok(collect_directory_export_paths(platform, relative_path, listing))
        } else {
            Err(
                failure(
                    cat3(
                        "declared file export '",
                        &join_path(platform, source_root, relative_path),
                        "' resolved to a directory",
                    ),
                ),
            )
        },
        EntryKind::Other => Err(
            failure(
                cat5(
                    "declared export '",
                    relative_path,
                    "' is not a regular file, directory, or symlink under '",
                    source_root,
                    "'",
                ),
            ),
        ),
    }
}

/// The first `count` lists, one behind the other.
pub open spec fn flattened(groups: Seq<Seq<Text>>, count: int) -> Seq<Text>
    decreases count,
{
    if count <= 0 {
        Seq::empty()
    } else {
        flattened(groups, count - 1) + groups[count - 1]
    }
}

/// All files of a package, none twice.
pub fn planned_export_paths(
    platform: HostPlatform,
    groups: &Vec<Vec<String>>,
) -> (paths: Vec<String>)
    ensures
        paths.deep_view() == paths::distinct_paths(
            platform,
            flattened(groups.deep_view(), groups.len() as int),
        ),
{
    let mut all: Vec<String> = Vec::new();
    assert(all.deep_view() == Seq::<Text>::empty());
    let mut count: usize = 0;
    while count < groups.len()
        invariant
            count <= groups.len(),
            all.deep_view() == flattened(groups.deep_view(), count as int),
        decreases groups.len() - count,
    {
        assert(groups.deep_view()[count as int] == groups[count as int].deep_view());
        text::put_all(&mut all, &groups[count]);
        count = count + 1;
    }
    dedup_paths(platform, &all)
}

/// Whether two paths are the same or one stands below the other.
pub open spec fn overlap(platform: HostPlatform, left: Text, right: Text) -> bool {
    paths::same_path(platform, left, right) || paths::below(platform, left, right) || paths::below(
        platform,
        right,
        left,
    )
}

pub fn export_paths_overlap(platform: HostPlatform, left: &str, right: &str) -> (yes: bool)
    ensures
        yes == overlap(platform, left@, right@),
{
    paths_equal(platform, left, right) || path_starts_with(platform, left, right) || path_starts_with(
        platform,
        right,
        left,
    )
}

/// Overlapping goes both ways.
pub proof fn lemma_overlap_is_symmetric(platform: HostPlatform, left: Text, right: Text)
    ensures
        overlap(platform, left, right) == overlap(platform, right, left),
{
}

/// The first of the owned paths from position `from` on that overlaps a planned one.
pub open spec fn owned_conflict(
    platform: HostPlatform,
    planned: Text,
    owned: Seq<Text>,
    from: int,
) -> Option<Text>
    decreases owned.len() - from,
{
    if from >= owned.len() {
        None
    } else if overlap(platform, planned, owned[from]) {
        Some(owned[from])
    } else {
        owned_conflict(platform, planned, owned, from + 1)
    }
}

/// The first planned path from position `from` on that overlaps an owned one, with that one.
pub open spec fn path_conflict(
    platform: HostPlatform,
    planned: Seq<Text>,
    owned: Seq<Text>,
    from: int,
) -> Option<
    (Text, Text),
>
    decreases planned.len() - from,
{
    if from >= planned.len() {
        None
    } else {
        match owned_conflict(platform, planned[from], owned, 0) {
            Some(path) => Some((planned[from], path)),
            None => path_conflict(platform, planned, owned, from + 1),
        }
    }
}

fn find_owned_conflict(
    platform: HostPlatform,
    planned: &str,
    owned: &Vec<String>,
) -> (conflict: Option<String>)
    ensures
        conflict.deep_view() == owned_conflict(platform, planned@, owned.deep_view(), 0),
{
    let mut from: usize = 0;
    while from < owned.len()
        invariant
            from <= owned.len(),
            owned_conflict(platform, planned@, owned.deep_view(), 0) == owned_conflict(
                platform,
                planned@,
                owned.deep_view(),
                from as int,
            ),
        decreases owned.len() - from,
    {
        assert(owned.deep_view()[from as int] == owned[from as int]@);
        if export_paths_overlap(platform, planned, &owned[from]) {
            return Some(owned[from].dup());
        }
        from = from + 1;
    }
    None
}

pub fn find_export_path_conflict(
    platform: HostPlatform,
    planned_paths: &Vec<String>,
    owned_paths: &Vec<String>,
) -> (conflict:
    Option<(String, String)>)
    ensures
        conflict.deep_view() == path_conflict(
            platform,
            planned_paths.deep_view(),
            owned_paths.deep_view(),
            0,
        ),
{
    let mut from: usize = 0;
    while from < planned_paths.len()
        invariant
            from <= planned_paths.len(),
            path_conflict(
                platform,
                planned_paths.deep_view(),
                owned_paths.deep_view(),
                0,
            ) == path_conflict(
                platform,
                planned_paths.deep_view(),
                owned_paths.deep_view(),
                from as int,
            ),
        decreases planned_paths.len() - from,
    {
        assert(planned_paths.deep_view()[from as int] == planned_paths[from as int]@);
        match find_owned_conflict(platform, &planned_paths[from], owned_paths) {
            Some(path) => {
                return Some((planned_paths[from].dup(), path));
            },
            None => {},
        }
        from = from + 1;
    }
    None
}

/// The files that a package owns.
#[derive(Clone, Debug, PartialEq, Eq)]
pub struct OwnedExports {
    pub name: String,
    pub namespace: String,
    pub version: String,
    pub manifest: ExportManifest,
}

/// The model of [`OwnedExports`].
pub struct OwnedExportsView {
    pub name: Text,
    pub namespace: Text,
    pub version: Text,
    pub manifest: ExportManifestView,
}

impl DeepView for OwnedExports {
    type V = OwnedExportsView;

    open spec fn deep_view(&self) -> OwnedExportsView {
        OwnedExportsView {
            name: self.name@,
            namespace: self.namespace@,
            version: self.version@,
            manifest: self.manifest.deep_view(),
        }
    }
}

/// Whether a package has to keep clear of what another owns: of everything in the same store that
/// is not its own.
pub open spec fn keeps_clear(
    platform: HostPlatform,
    spec: PackageSpecView,
    store_root: Text,
    owner: OwnedExportsView,
) -> bool {
    !(owner.name == spec.name && owner.namespace == spec.namespace && owner.version
        == spec.version) && paths::same_path(platform, owner.manifest.store_root, store_root)
}

/// What is wrong with the planned files of a package: the first conflict with an owner from
/// position `from` on.
pub open spec fn conflict_check(
    platform: HostPlatform,
    spec: PackageSpecView,
    store_root: Text,
    planned: Seq<Text>,
    owners: Seq<OwnedExportsView>,
    from: int,
) -> Result<(), Messages>
    decreases owners.len() - from,
{
    if from >= owners.len() {
        Ok(())
    } else {
        let owner = owners[from];
        let conflict = if keeps_clear(platform, spec, store_root, owner) {
            path_conflict(platform, planned, owner.manifest.paths, 0)
        } else {
            None
        };
        match conflict {
            None => conflict_check(platform, spec, store_root, planned, owners, from + 1),
            Some((current, owned)) => Err(
                seq![
                    "package '"@ + spec.id() + "' export '"@ + current + "' conflicts with '"@
                        + owner.name + "["@ + owner.namespace + "]@"@ + owner.version
                        + "' owning '"@ + owned + "' under "@ + owner.manifest.store_root,
                ],
            ),
        }
    }
}

/// Checks that a package overwrites no file of another one. `current_store_root` is the store root
/// once links are followed.
pub fn assert_no_export_conflicts(
    platform: HostPlatform,
    spec: &PackageSpec,
    current_store_root: &str,
    planned_paths: &Vec<String>,
    owners: &Vec<OwnedExports>,
) -> (result: Result<(), Failure>)
    ensures
        outcome(result) == conflict_check(
            platform,
            spec.deep_view(),
            current_store_root@,
            planned_paths.deep_view(),
            owners.deep_view(),
            0,
        ),
{
    let mut from: usize = 0;
    while from < owners.len()
        invariant
            from <= owners.len(),
            conflict_check(
                platform,
                spec.deep_view(),
                current_store_root@,
                planned_paths.deep_view(),
                owners.deep_view(),
                0,
            ) == conflict_check(
                platform,
                spec.deep_view(),
                current_store_root@,
                planned_paths.deep_view(),
                owners.deep_view(),
                from as int,
            ),
        decreases owners.len() - from,
    {
        let owner = &owners[from];
        assert(owners.deep_view()[from as int] == owner.deep_view());
        let own = same(&owner.name, &spec.name) && same(&owner.namespace, &spec.namespace) && same(
            &owner.version,
            &spec.version,
        );
        if !own && paths_equal(platform, &owner.manifest.store_root, current_store_root) {
            match find_export_path_conflict(platform, planned_paths, &owner.manifest.paths) {
                Some((current, owned)) => {
                    let head = cat6(
                        "package '",
                        &spec.package_id(),
                        "' export '",
                        &current,
                        "' conflicts with '",
                        &owner.name,
                    );
                    let body = cat5(&head, "[", &owner.namespace, "]@", &owner.version);
                    return Err(
                        failure(
                            cat5(
                                &body,
                                "' owning '",
                                &owned,
                                "' under ",
                                &owner.manifest.store_root,
                            ),
                        ),
                    );
                },
                None => {},
            }
        }
        from = from + 1;
    }
    Ok(())
}

proof fn lemma_owned_clear(
    platform: HostPlatform,
    planned: Text,
    owned: Seq<Text>,
    from: int,
    index: int,
)
    requires
        owned_conflict(platform, planned, owned, from) is None,
        0 <= from <= index < owned.len(),
    ensures
        !overlap(platform, planned, owned[index]),
    decreases owned.len() - from,
{
    if from < index {
        lemma_owned_clear(platform, planned, owned, from + 1, index);
    }
}

proof fn lemma_planned_clear(
    platform: HostPlatform,
    planned: Seq<Text>,
    owned: Seq<Text>,
    from: int,
    index: int,
    other: int,
)
    requires
        path_conflict(platform, planned, owned, from) is None,
        0 <= from <= index < planned.len(),
        0 <= other < owned.len(),
    ensures
        !overlap(platform, planned[index], owned[other]),
    decreases planned.len() - from,
{
    if from < index {
        lemma_planned_clear(platform, planned, owned, from + 1, index, other);
    } else {
        lemma_owned_clear(platform, planned[index], owned, 0, other);
    }
}

proof fn lemma_owner_clear(
    platform: HostPlatform,
    spec: PackageSpecView,
    store_root: Text,
    planned: Seq<Text>,
    owners: Seq<OwnedExportsView>,
    from: int,
    owner: int,
)
    requires
        conflict_check(platform, spec, store_root, planned, owners, from) is Ok,
        0 <= from <= owner < owners.len(),
        keeps_clear(platform, spec, store_root, owners[owner]),
    ensures
        path_conflict(platform, planned, owners[owner].manifest.paths, 0) is None,
    decreases owners.len() - from,
{
    if from < owner {
        lemma_owner_clear(platform, spec, store_root, planned, owners, from + 1, owner);
    }
}

/// Where the check of the planned files passes, no planned path overlaps a path that another
/// package owns in the same store.
pub proof fn lemma_passing_plans_are_clear(
    platform: HostPlatform,
    spec: PackageSpecView,
    store_root: Text,
    planned: Seq<Text>,
    owners: Seq<OwnedExportsView>,
    owner: int,
    index: int,
    other: int,
)
    requires
        conflict_check(platform, spec, store_root, planned, owners, 0) is Ok,
        0 <= owner < owners.len(),
        keeps_clear(platform, spec, store_root, owners[owner]),
        0 <= index < planned.len(),
        0 <= other < owners[owner].manifest.paths.len(),
    ensures
        !overlap(platform, planned[index], owners[owner].manifest.paths[other]),
{
    lemma_owner_clear(platform, spec, store_root, planned, owners, 0, owner);
    lemma_planned_clear(platform, planned, owners[owner].manifest.paths, 0, index, other);
}

} // verus!
