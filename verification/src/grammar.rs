//! The arguments of DepoFile directives.

use vstd::prelude::*;
use crate::failure;
use crate::failure::{at, failure, outcome, Failure, Messages};
use crate::model;
use crate::model::{
    find_target, BuildSystem, PackageRequest, PackageRequestView, RequestMode, RequestModeView,
    RequestSource, StageEntry, StageEntryView, StageKind, StageSourceRoot, TargetSpec,
    TargetSpecView, Text,
};
use crate::names;
use crate::names::{ensure_namespace_name, ensure_package_name};
use crate::text::{cat2, cat3, cat4, cat5, cat6, dup_range, put, put_all, same, Dup};
use crate::tokens;
use crate::tokens::tokenize_arguments;

verus! {

/// A message about a directive: the place, then what is wrong.
pub open spec fn complaint<T>(path: Text, line: nat, message: Text) -> Result<T, Messages> {
    Err(seq![failure::place(path, line) + message])
}

/// A failure about a directive.
pub fn complain(path: &str, line_number: usize, message: &str) -> (result: Failure)
    ensures
        result.deep_view() == seq![failure::place(path@, line_number as nat) + message@],
{
    failure(cat2(&at(path, line_number), message))
}

/// The outcome of demanding that a directive have no arguments.
pub open spec fn no_arguments(path: Text, line: nat, keyword: Text, remainder: Text) -> Result<
    (),
    Messages,
> {
    if remainder.len() > 0 {
        complaint(path, line, ": "@ + keyword + " does not accept arguments"@)
    } else {
        Ok(())
    }
}

pub fn ensure_empty(
    path: &str,
    line_number: usize,
    keyword: &str,
    remainder: &str,
) -> (result: Result<(), Failure>)
    ensures
        outcome(result) == no_arguments(path@, line_number as nat, keyword@, remainder@),
{
    if !remainder.is_empty() {
        return Err(
            complain(path, line_number, &cat3(": ", keyword, " does not accept arguments")),
        );
    }
    Ok(())
}

/// The only token of an argument list.
pub open spec fn single_token(path: Text, line: nat, keyword: Text, remainder: Text) -> Result<
    Text,
    Messages,
> {
    match tokens::tokens_of(remainder) {
        Err(messages) => Err(messages),
        Ok(tokens) => if tokens.len() == 1 {
            Ok(tokens[0])
        } else {
            complaint(path, line, ": "@ + keyword + " requires exactly one value"@)
        },
    }
}

pub fn expect_single_token(
    path: &str,
    line_number: usize,
    keyword: &str,
    remainder: &str,
) -> (result: Result<String, Failure>)
    ensures
        outcome(result) == single_token(path@, line_number as nat, keyword@, remainder@),
{
    let tokens = tokenize_arguments(remainder)?;
    if tokens.len() != 1 {
        return Err(
            complain(
                path,
                line_number,
                &cat3(": ", keyword, " requires exactly one value"),
            ),
        );
    }
    Ok(tokens[0].clone())
}

/// The block of a directive that must have one.
pub open spec fn required_block(
    path: Text,
    line: nat,
    keyword: Text,
    block: Option<Text>,
) -> Result<
    Text,
    Messages,
> {
    match block {
        Some(body) => Ok(body),
        None => complaint(path, line, ": "@ + keyword + " requires a heredoc block"@),
    }
}

pub fn block_body(
    path: &str,
    line_number: usize,
    keyword: &str,
    block: &Option<String>,
) -> (result: Result<String, Failure>)
    ensures
        outcome(result) == required_block(
            path@,
            line_number as nat,
            keyword@,
            block.deep_view(),
        ),
{
    match block {
        Some(body) => Ok(body.clone()),
        None => Err(
            complain(
                path,
                line_number,
                &cat3(": ", keyword, " requires a heredoc block"),
            ),
        ),
    }
}

/// The command that a directive gives.
pub open spec fn phase_command(path: Text, line: nat, keyword: Text, remainder: Text) -> Result<
    Seq<Text>,
    Messages,
> {
    match tokens::tokens_of(remainder) {
        Err(messages) => Err(messages),
        Ok(argv) => if argv.len() == 0 {
            complaint(path, line, ": "@ + keyword + " requires at least one command token"@)
        } else {
            Ok(argv)
        },
    }
}

pub fn parse_phase_command(
    path: &str,
    line_number: usize,
    keyword: &str,
    remainder: &str,
) -> (result: Result<Vec<String>, Failure>)
    ensures
        outcome(result) == phase_command(path@, line_number as nat, keyword@, remainder@),
{
    let argv = tokenize_arguments(remainder)?;
    if argv.len() == 0 {
        return Err(
            complain(
                path,
                line_number,
                &cat3(": ", keyword, " requires at least one command token"),
            ),
        );
    }
    Ok(argv)
}

/// The root that a word names.
pub open spec fn stage_root(path: Text, line: nat, value: Text) -> Result<
    StageSourceRoot,
    Messages,
> {
    if value == "SOURCE"@ {
        Ok(StageSourceRoot::Source)
    } else if value == "BUILD"@ {
        Ok(StageSourceRoot::Build)
    } else {
        complaint(path, line, ": stage root must be SOURCE or BUILD, got '"@ + value + "'"@)
    }
}

pub fn parse_stage_source_root(path: &str, line_number: usize, value: &str) -> (result: Result<
    StageSourceRoot,
    Failure,
>)
    ensures
        outcome(result) == stage_root(path@, line_number as nat, value@),
{
    if same(value, "SOURCE") {
        Ok(StageSourceRoot::Source)
    } else if same(value, "BUILD") {
        Ok(StageSourceRoot::Build)
    } else {
        Err(
            complain(
                path,
                line_number,
                &cat3(": stage root must be SOURCE or BUILD, got '", value, "'"),
            ),
        )
    }
}

/// The stage entry that a directive declares; the destination defaults to the source.
pub open spec fn stage_entry(path: Text, line: nat, remainder: Text, kind: StageKind) -> Result<
    StageEntryView,
    Messages,
> {
    match tokens::tokens_of(remainder) {
        Err(messages) => Err(messages),
        Ok(parts) => if parts.len() == 2 || parts.len() == 3 {
            match stage_root(path, line, parts[0]) {
                Err(messages) => Err(messages),
                Ok(source_root) => Ok(
                    StageEntryView {
                        kind,
                        source_root,
                        source: parts[1],
                        destination: parts[parts.len() - 1],
                    },
                ),
            }
        } else {
            complaint(
                path,
                line,
                ": "@ + kind.word() + " requires '<SOURCE|BUILD> <source> [destination]'"@,
            )
        },
    }
}

pub fn parse_stage_entry(
    path: &str,
    line_number: usize,
    remainder: &str,
    kind: StageKind,
) -> (result: Result<StageEntry, Failure>)
    ensures
        outcome(result) == stage_entry(path@, line_number as nat, remainder@, kind),
{
    let parts = tokenize_arguments(remainder)?;
    if parts.len() == 2 || parts.len() == 3 {
        let source_root = parse_stage_source_root(path, line_number, &parts[0])?;
        Ok(
            StageEntry {
                kind,
                source_root,
                source: parts[1].clone(),
                destination: parts[parts.len() - 1].clone(),
            },
        )
    } else {
        Err(
            complain(
                path,
                line_number,
                &cat3(
                    ": ",
                    kind.directive_name(),
                    " requires '<SOURCE|BUILD> <source> [destination]'",
                ),
            ),
        )
    }
}

/// The build system that a directive selects.
pub open spec fn selected_system(path: Text, line: nat, remainder: Text) -> Result<
    BuildSystem,
    Messages,
> {
    match single_token(path, line, "BUILD_SYSTEM"@, remainder) {
        Err(messages) => Err(messages),
        Ok(value) => if value == "CMAKE"@ {
            Ok(BuildSystem::Cmake)
        } else if value == "MESON"@ {
            Ok(BuildSystem::Meson)
        } else if value == "AUTOCONF"@ {
            Ok(BuildSystem::Autoconf)
        } else if value == "CARGO"@ {
            Ok(BuildSystem::Cargo)
        } else if value == "MANUAL"@ {
            Ok(BuildSystem::Manual)
        } else {
            complaint(
                path,
                line,
                ": BUILD_SYSTEM requires one of CMAKE, MESON, AUTOCONF, CARGO, or MANUAL"@,
            )
        },
    }
}

pub fn parse_build_system(path: &str, line_number: usize, remainder: &str) -> (result: Result<
    BuildSystem,
    Failure,
>)
    ensures
        outcome(result) == selected_system(path@, line_number as nat, remainder@),
{
    let value = expect_single_token(path, line_number, "BUILD_SYSTEM", remainder)?;
    if same(&value, "CMAKE") {
        Ok(BuildSystem::Cmake)
    } else if same(&value, "MESON") {
        Ok(BuildSystem::Meson)
    } else if same(&value, "AUTOCONF") {
        Ok(BuildSystem::Autoconf)
    } else if same(&value, "CARGO") {
        Ok(BuildSystem::Cargo)
    } else if same(&value, "MANUAL") {
        Ok(BuildSystem::Manual)
    } else {
        Err(
            complain(
                path,
                line_number,
                ": BUILD_SYSTEM requires one of CMAKE, MESON, AUTOCONF, CARGO, or MANUAL",
            ),
        )
    }
}

/// The outcome of demanding that the selected build system be `required`.
pub open spec fn system_check(
    path: Text,
    line: nat,
    keyword: Text,
    selected: Option<BuildSystem>,
    required: BuildSystem,
) -> Result<(), Messages> {
    match selected {
        Some(found) => if found == required {
            Ok(())
        } else {
            complaint(
                path,
                line,
                ": "@ + keyword + " requires BUILD_SYSTEM "@ + required.word()
                    + ", but DepoFile selects BUILD_SYSTEM "@ + found.word(),
            )
        },
        None => complaint(
            path,
            line,
            ": "@ + keyword + " requires BUILD_SYSTEM "@ + required.word()
                + " and BUILD_SYSTEM must appear before it"@,
        ),
    }
}

pub fn require_build_system(
    path: &str,
    line_number: usize,
    keyword: &str,
    selected_build_system: Option<BuildSystem>,
    required_build_system: BuildSystem,
) -> (result: Result<(), Failure>)
    ensures
        outcome(result) == system_check(
            path@,
            line_number as nat,
            keyword@,
            selected_build_system,
            required_build_system,
        ),
{
    match selected_build_system {
        Some(selected) => if selected == required_build_system {
            Ok(())
        } else {
            Err(
                complain(
                    path,
                    line_number,
                    &cat6(
                        ": ",
                        keyword,
                        " requires BUILD_SYSTEM ",
                        required_build_system.directive_name(),
                        ", but DepoFile selects BUILD_SYSTEM ",
                        selected.directive_name(),
                    ),
                ),
            )
        },
        None => Err(
            complain(
                path,
                line_number,
                &cat5(
                    ": ",
                    keyword,
                    " requires BUILD_SYSTEM ",
                    required_build_system.directive_name(),
                    " and BUILD_SYSTEM must appear before it",
                ),
            ),
        ),
    }
}

/// `request` with the options in `tokens` from position `from` on applied to it.
pub open spec fn dependency_options(
    path: Text,
    line: nat,
    tokens: Seq<Text>,
    from: int,
    request: PackageRequestView,
) -> Result<PackageRequestView, Messages>
    decreases tokens.len() - from,
{
    if from >= tokens.len() {
        Ok(request)
    } else if tokens[from] == "NAMESPACE"@ {
        if from + 1 >= tokens.len() {
            complaint(path, line, ": NAMESPACE requires a value"@)
        } else {
            match names::namespace_check(tokens[from + 1]) {
                Err(messages) => Err(messages),
                Ok(_) => dependency_options(
                    path,
                    line,
                    tokens,
                    from + 2,
                    PackageRequestView {
                        namespace: tokens[from + 1],
                        inherit_namespace: false,
                        ..request
                    },
                ),
            }
        }
    } else if tokens[from] == "VERSION"@ {
        if from + 1 >= tokens.len() {
            complaint(path, line, ": VERSION requires a value"@)
        } else {
            dependency_options(
                path,
                line,
                tokens,
                from + 2,
                PackageRequestView { mode: RequestModeView::Exact(tokens[from + 1]), ..request },
            )
        }
    } else if tokens[from] == "MIN_VERSION"@ {
        if from + 1 >= tokens.len() {
            complaint(path, line, ": MIN_VERSION requires a value"@)
        } else {
            dependency_options(
                path,
                line,
                tokens,
                from + 2,
                PackageRequestView { mode: RequestModeView::Minimum(tokens[from + 1]), ..request },
            )
        }
    } else if tokens[from] == "SOURCE"@ {
        if from + 1 >= tokens.len() {
            complaint(path, line, ": SOURCE requires a value"@)
        } else {
            match RequestSource::read(tokens[from + 1]) {
                Err(messages) => Err(messages),
                Ok(source) => dependency_options(
                    path,
                    line,
                    tokens,
                    from + 2,
                    PackageRequestView { source, ..request },
                ),
            }
        }
    } else {
        complaint(path, line, ": unsupported DEPENDS token '"@ + tokens[from] + "'"@)
    }
}

/// A request that says nothing but the name.
pub open spec fn plain_request(
    name: Text,
    namespace: Text,
    inherit_namespace: bool,
) -> PackageRequestView {
    PackageRequestView {
        name,
        namespace,
        inherit_namespace,
        mode: RequestModeView::Latest,
        source: RequestSource::Auto,
        alias: None,
    }
}

/// The request that a DEPENDS directive makes. Without NAMESPACE the dependency lives in the
/// namespace of the package that asks for it.
pub open spec fn dependency_request(
    path: Text,
    line: nat,
    remainder: Text,
    default_namespace: Text,
) -> Result<PackageRequestView, Messages> {
    match tokens::tokens_of(remainder) {
        Err(messages) => Err(messages),
        Ok(tokens) => if tokens.len() == 0 {
            complaint(path, line, ": DEPENDS requires at least a package name"@)
        } else {
            match names::package_name_check(tokens[0]) {
                Err(messages) => Err(messages),
                Ok(_) => dependency_options(
                    path,
                    line,
                    tokens,
                    1,
                    plain_request(tokens[0], default_namespace, true),
                ),
            }
        },
    }
}

pub fn parse_dependency_request(
    path: &str,
    line_number: usize,
    remainder: &str,
    default_namespace: &str,
) -> (result: Result<PackageRequest, Failure>)
    ensures
        outcome(result) == dependency_request(
            path@,
            line_number as nat,
            remainder@,
            default_namespace@,
        ),
{
    let tokens = tokenize_arguments(remainder)?;
    if tokens.len() == 0 {
        return Err(complain(path, line_number, ": DEPENDS requires at least a package name"));
    }
    ensure_package_name(&tokens[0])?;
    let mut request = PackageRequest {
        name: tokens[0].clone(),
        namespace: default_namespace.to_owned(),
        inherit_namespace: true,
        mode: RequestMode::Latest,
        source: RequestSource::Auto,
        alias: None,
    };
    let mut index: usize = 1;
    while index < tokens.len()
        invariant
            1 <= index <= tokens.len(),
            dependency_options(
                path@,
                line_number as nat,
                tokens.deep_view(),
                1,
                plain_request(tokens[0]@, default_namespace@, true),
            ) == dependency_options(
                path@,
                line_number as nat,
                tokens.deep_view(),
                index as int,
                request.deep_view(),
            ),
            dependency_request(path@, line_number as nat, remainder@, default_namespace@)
                == dependency_options(
                path@,
                line_number as nat,
                tokens.deep_view(),
                1,
                plain_request(tokens[0]@, default_namespace@, true),
            ),
        decreases tokens.len() - index,
    {
        assert(tokens.deep_view()[index as int] == tokens[index as int]@);
        let key: &str = tokens[index].as_str();
        if same(key, "NAMESPACE") {
            if index + 1 >= tokens.len() {
                return Err(complain(path, line_number, ": NAMESPACE requires a value"));
            }
            ensure_namespace_name(&tokens[index + 1])?;
            request = PackageRequest {
                namespace: tokens[index + 1].clone(),
                inherit_namespace: false,
                ..request
            };
        } else if same(key, "VERSION") {
            if index + 1 >= tokens.len() {
                return Err(complain(path, line_number, ": VERSION requires a value"));
            }
            request = PackageRequest {
                mode: RequestMode::Exact(tokens[index + 1].clone()),
                ..request
            };
        } else if same(key, "MIN_VERSION") {
            if index + 1 >= tokens.len() {
                return Err(complain(path, line_number, ": MIN_VERSION requires a value"));
            }
            request = PackageRequest {
                mode: RequestMode::Minimum(tokens[index + 1].clone()),
                ..request
            };
        } else if same(key, "SOURCE") {
            if index + 1 >= tokens.len() {
                return Err(complain(path, line_number, ": SOURCE requires a value"));
            }
            let source = RequestSource::parse(&tokens[index + 1])?;
            request = PackageRequest { source, ..request };
        } else {
            return Err(
                complain(
                    path,
                    line_number,
                    &cat3(": unsupported DEPENDS token '", key, "'"),
                ),
            );
        }
        index = index + 2;
    }
    Ok(request)
}

/// A word that introduces a facet of a target.
pub open spec fn is_facet_word(value: Text) -> bool {
    value == "STATIC"@ || value == "SHARED"@ || value == "OBJECT"@ || value == "INTERFACE"@
}

/// Decides whether one of `parts` from position `from` on introduces a facet.
fn has_facet_word(parts: &Vec<String>, from: usize) -> (yes: bool)
    requires
        from <= parts.len(),
    ensures
        yes == exists|k: int| from <= k < parts.len() && is_facet_word(#[trigger] parts.deep_view()[k]),
{
    let mut index: usize = from;
    while index < parts.len()
        invariant
            from <= index <= parts.len(),
            forall|k: int| from <= k < index ==> !is_facet_word(#[trigger] parts.deep_view()[k]),
        decreases parts.len() - index,
    {
        let part: &str = parts[index].as_str();
        if same(part, "STATIC") || same(part, "SHARED") || same(part, "OBJECT") || same(
            part,
            "INTERFACE",
        ) {
            assert(is_facet_word(parts.deep_view()[index as int]));
            return true;
        }
        assert(!is_facet_word(parts.deep_view()[index as int]));
        index = index + 1;
    }
    false
}

/// What a TARGET directive must look like.
pub open spec fn target_usage<T>(path: Text, line: nat) -> Result<T, Messages> {
    complaint(
        path,
        line,
        ": TARGET requires '<name> INTERFACE [include-dir...]' or '<name> [STATIC <path>] [SHARED <path>] [OBJECT <path>] [INTERFACE [include-dir...]]'"@,
    )
}

fn target_usage_failure(path: &str, line_number: usize) -> (result: Failure)
    ensures
        Err::<(), Messages>(result.deep_view()) == target_usage::<()>(path@, line_number as nat),
        result.deep_view() == target_usage::<TargetSpecView>(
            path@,
            line_number as nat,
        )->Err_0,
{
    complain(
        path,
        line_number,
        ": TARGET requires '<name> INTERFACE [include-dir...]' or '<name> [STATIC <path>] [SHARED <path>] [OBJECT <path>] [INTERFACE [include-dir...]]'",
    )
}

/// The artifact path behind a facet word: one must follow, and the facet must be new.
pub open spec fn artifact_facet(
    path: Text,
    line: nat,
    parts: Seq<Text>,
    from: int,
    word: Text,
    known: Option<Text>,
) -> Result<Text, Messages> {
    if from + 1 >= parts.len() {
        complaint(
            path,
            line,
            ": TARGET "@ + parts[0] + " "@ + word + " requires an artifact path"@,
        )
    } else if known is Some {
        complaint(path, line, ": TARGET "@ + parts[0] + " repeats "@ + word)
    } else {
        Ok(parts[from + 1])
    }
}

fn parse_artifact_facet(
    path: &str,
    line_number: usize,
    parts: &Vec<String>,
    from: usize,
    word: &str,
    known: &Option<String>,
) -> (result: Result<String, Failure>)
    requires
        from < parts.len(),
    ensures
        outcome(result) == artifact_facet(
            path@,
            line_number as nat,
            parts.deep_view(),
            from as int,
            word@,
            known.deep_view(),
        ),
        result is Ok ==> from + 1 < parts.len(),
{
    if from + 1 >= parts.len() {
        return Err(
            complain(
                path,
                line_number,
                &cat5(": TARGET ", &parts[0], " ", word, " requires an artifact path"),
            ),
        );
    }
    if known.is_some() {
        return Err(
            complain(path, line_number, &cat4(": TARGET ", &parts[0], " repeats ", word)),
        );
    }
    Ok(parts[from + 1].clone())
}

/// `target` with the facets in `parts` from position `from` on added to it. INTERFACE comes
/// last and takes what follows as directories.
pub open spec fn target_facets(
    path: Text,
    line: nat,
    parts: Seq<Text>,
    from: int,
    target: TargetSpecView,
) -> Result<TargetSpecView, Messages>
    decreases parts.len() - from,
{
    if from >= parts.len() {
        Ok(target)
    } else if parts[from] == "STATIC"@ {
        match artifact_facet(path, line, parts, from, "STATIC"@, target.static_path) {
            Err(messages) => Err(messages),
            Ok(value) => target_facets(
                path,
                line,
                parts,
                from + 2,
                TargetSpecView { static_path: Some(value), ..target },
            ),
        }
    } else if parts[from] == "SHARED"@ {
        match artifact_facet(path, line, parts, from, "SHARED"@, target.shared_path) {
            Err(messages) => Err(messages),
            Ok(value) => target_facets(
                path,
                line,
                parts,
                from + 2,
                TargetSpecView { shared_path: Some(value), ..target },
            ),
        }
    } else if parts[from] == "OBJECT"@ {
        match artifact_facet(path, line, parts, from, "OBJECT"@, target.object_path) {
            Err(messages) => Err(messages),
            Ok(value) => target_facets(
                path,
                line,
                parts,
                from + 2,
                TargetSpecView { object_path: Some(value), ..target },
            ),
        }
    } else if parts[from] == "INTERFACE"@ {
        if exists|k: int| from + 1 <= k < parts.len() && is_facet_word(#[trigger] parts[k]) {
            complaint(
                path,
                line,
                ": TARGET "@ + parts[0] + " must place INTERFACE last on the line"@,
            )
        } else {
            Ok(
                TargetSpecView {
                    interface_declared: true,
                    include_dirs: target.include_dirs + parts.subrange(
                        from + 1,
                        parts.len() as int,
                    ),
                    ..target
                },
            )
        }
    } else {
        target_usage(path, line)
    }
}

fn parse_target_facets(
    path: &str,
    line_number: usize,
    parts: &Vec<String>,
    start: TargetSpec,
) -> (result: Result<TargetSpec, Failure>)
    requires
        parts.len() >= 1,
    ensures
        outcome(result) == target_facets(
            path@,
            line_number as nat,
            parts.deep_view(),
            1,
            start.deep_view(),
        ),
{
    let mut target = start;
    let mut index: usize = 1;
    while index < parts.len()
        invariant
            1 <= index <= parts.len(),
            target_facets(path@, line_number as nat, parts.deep_view(), 1, start.deep_view())
                == target_facets(
                path@,
                line_number as nat,
                parts.deep_view(),
                index as int,
                target.deep_view(),
            ),
        decreases parts.len() - index,
    {
        assert(parts.deep_view()[index as int] == parts[index as int]@);
        let word: &str = parts[index].as_str();
        if same(word, "STATIC") {
            let value = parse_artifact_facet(
                path,
                line_number,
                parts,
                index,
                "STATIC",
                &target.static_path,
            )?;
            target = TargetSpec { static_path: Some(value), ..target };
        } else if same(word, "SHARED") {
            let value = parse_artifact_facet(
                path,
                line_number,
                parts,
                index,
                "SHARED",
                &target.shared_path,
            )?;
            target = TargetSpec { shared_path: Some(value), ..target };
        } else if same(word, "OBJECT") {
            let value = parse_artifact_facet(
                path,
                line_number,
                parts,
                index,
                "OBJECT",
                &target.object_path,
            )?;
            target = TargetSpec { object_path: Some(value), ..target };
        } else if same(word, "INTERFACE") {
            if has_facet_word(parts, index + 1) {
                return Err(
                    complain(
                        path,
                        line_number,
                        &cat3(": TARGET ", &parts[0], " must place INTERFACE last on the line"),
                    ),
                );
            }
            let mut include_dirs = target.include_dirs;
            put_all(&mut include_dirs, &dup_range(parts, index + 1, parts.len()));
            return Ok(TargetSpec { interface_declared: true, include_dirs, ..target });
        } else {
            return Err(target_usage_failure(path, line_number));
        }
        index = index + 2;
    }
    Ok(target)
}

/// `targets` with one more TARGET directive taken in: facets of a known target are merged.
pub open spec fn target_line(
    path: Text,
    line: nat,
    remainder: Text,
    targets: Seq<TargetSpecView>,
) -> Result<Seq<TargetSpecView>, Messages> {
    match tokens::tokens_of(remainder) {
        Err(messages) => Err(messages),
        Ok(parts) => if parts.len() < 2 {
            target_usage(path, line)
        } else {
            match model::target_position(targets, parts[0], 0) {
                Some(index) => match target_facets(path, line, parts, 1, targets[index]) {
                    Err(messages) => Err(messages),
                    Ok(target) => Ok(targets.update(index, target)),
                },
                None => match target_facets(path, line, parts, 1, TargetSpecView::named(parts[0])) {
                    Err(messages) => Err(messages),
                    Ok(target) => Ok(targets.push(target)),
                },
            }
        },
    }
}

pub fn parse_target_line(
    path: &str,
    line_number: usize,
    remainder: &str,
    targets: Vec<TargetSpec>,
) -> (result: Result<Vec<TargetSpec>, Failure>)
    ensures
        outcome(result) == target_line(
            path@,
            line_number as nat,
            remainder@,
            targets.deep_view(),
        ),
{
    let mut targets = targets;
    let parts = tokenize_arguments(remainder)?;
    if parts.len() < 2 {
        return Err(target_usage_failure(path, line_number));
    }
    let ghost before = targets.deep_view();
    assert(parts.deep_view()[0] == parts[0]@);
    match find_target(&targets, &parts[0]) {
        Some(index) => {
            let target = parse_target_facets(path, line_number, &parts, targets[index].dup())?;
            targets.set(index, target);
            assert(targets.deep_view() == before.update(index as int, target.deep_view()));
        },
        None => {
            let target = parse_target_facets(
                path,
                line_number,
                &parts,
                TargetSpec::new(parts[0].clone()),
            )?;
            put(&mut targets, target);
        },
    }
    Ok(targets)
}

/// The target and the values that a directive lists for it.
pub open spec fn target_values(path: Text, line: nat, remainder: Text, usage: Text) -> Result<
    (Text, Seq<Text>),
    Messages,
> {
    match tokens::tokens_of(remainder) {
        Err(messages) => Err(messages),
        Ok(parts) => if parts.len() < 2 {
            complaint(path, line, usage)
        } else {
            Ok((parts[0], parts.subrange(1, parts.len() as int)))
        },
    }
}

pub fn parse_target_values_directive(
    path: &str,
    line_number: usize,
    remainder: &str,
    usage: &str,
) -> (result: Result<(String, Vec<String>), Failure>)
    ensures
        outcome(result) == target_values(path@, line_number as nat, remainder@, usage@),
{
    let parts = tokenize_arguments(remainder)?;
    if parts.len() < 2 {
        return Err(complain(path, line_number, usage));
    }
    Ok((parts[0].clone(), dup_range(&parts, 1, parts.len())))
}

} // verus!
