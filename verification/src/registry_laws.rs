//! What a registry demands of the store, and what its lock file records.

use vstd::prelude::*;
use crate::failure::Messages;
use crate::layout;
use crate::model;
use crate::model::{PackageSpecView, RequestModeView, RequestSource, TargetKind, TargetSpecView, Text};
use crate::paths;
use crate::paths::HostPlatform;
use crate::records::SourceProvenanceView;
use crate::registry;
use crate::registry::{RegistryFilesView, RegistryPlanView, RequiredPathView};
use crate::render;
use crate::render_laws;
use crate::resolve::ResolvedPackageView;
use crate::text;

verus! {

/// Whether a target declares a path: as a directory of headers or as a library.
pub open spec fn target_declares(target: TargetSpecView, path: Text) -> bool {
    ||| target.include_dirs.contains(path)
    ||| target.static_path == Some(path)
    ||| target.shared_path == Some(path)
    ||| target.object_path == Some(path)
}

/// Whether a package declares a path.
pub open spec fn package_declares(spec: PackageSpecView, path: Text) -> bool {
    ||| spec.artifacts.contains(path)
    ||| exists|i: int| 0 <= i < spec.targets.len()
        && target_declares(#[trigger] spec.targets[i], path)
}

/// A package by its name, its namespace and its version.
pub open spec fn identity(spec: PackageSpecView) -> Text {
    spec.name + "["@ + spec.namespace + "]@"@ + spec.version
}

proof fn lemma_declared_by_target(targets: Seq<TargetSpecView>, index: int, path: Text)
    requires
        0 <= index < targets.len(),
        target_declares(targets[index], path),
    ensures
        model::declared_paths(targets).contains(path),
    decreases targets.len(),
{
    let target = targets.last();
    let before = model::declared_paths(targets.drop_last());
    let files = target.artifacts().map_values(|artifact: (TargetKind, Text)| artifact.1);
    let all = before + target.include_dirs + files;
    assert(model::declared_paths(targets) == all);
    if index < targets.len() - 1 {
        lemma_declared_by_target(targets.drop_last(), index, path);
        let at = before.index_of(path);
        assert(all[at] == path);
    } else if target.include_dirs.contains(path) {
        let at = target.include_dirs.index_of(path);
        assert(all[before.len() + at] == path);
    } else {
        let start: int = (before.len() + target.include_dirs.len()) as int;
        let artifacts = target.artifacts();
        let shared_at: int = if target.static_path is Some {
            1
        } else {
            0
        };
        let last: int = artifacts.len() - 1;
        if target.static_path == Some(path) {
            assert(artifacts[0] == (TargetKind::Static, path));
            assert(files[0] == path);
            assert(all[start] == path);
        } else if target.shared_path == Some(path) {
            assert(artifacts[shared_at] == (TargetKind::Shared, path));
            assert(files[shared_at] == path);
            assert(all[start + shared_at] == path);
        } else {
            assert(artifacts[last] == (TargetKind::Object, path));
            assert(files[last] == path);
            assert(all[start + last] == path);
        }
    }
}

/// Whether a path is the same as one of a list, at a position.
pub open spec fn is_same_at(platform: HostPlatform, list: Seq<Text>, at: int, path: Text) -> bool {
    0 <= at < list.len() && paths::same_path(platform, list[at], path)
}

pub(crate) proof fn lemma_distinct_paths_name_all(platform: HostPlatform, list: Seq<Text>, index: int) -> (at:
    int)
    requires
        0 <= index < list.len(),
    ensures
        is_same_at(platform, paths::distinct_paths(platform, list), at, list[index]),
    decreases list.len(),
{
    let kept = paths::distinct_paths(platform, list.drop_last());
    let all = paths::distinct_paths(platform, list);
    if index < list.len() - 1 {
        let at = lemma_distinct_paths_name_all(platform, list.drop_last(), index);
        assert(all[at] == kept[at]);
        at
    } else if paths::names_path(platform, kept, list.last()) {
        let at = choose|i: int|
            0 <= i < kept.len() && paths::same_path(platform, #[trigger] kept[i], list.last());
        assert(all[at] == kept[at]);
        at
    } else {
        assert(all[kept.len() as int] == list.last());
        kept.len() as int
    }
}

/// The position of a declared path among the required ones.
proof fn lemma_declared_is_required(platform: HostPlatform, spec: PackageSpecView, path: Text) -> (at:
    int)
    requires
        package_declares(spec, path),
    ensures
        is_same_at(platform, spec.required(platform), at, path),
{
    let declared = model::declared_paths(spec.targets);
    let all = spec.artifacts + declared;
    if spec.artifacts.contains(path) {
        let at = spec.artifacts.index_of(path);
        assert(all[at] == path);
        lemma_distinct_paths_name_all(platform, all, at)
    } else {
        let i = choose|i: int|
            0 <= i < spec.targets.len() && target_declares(#[trigger] spec.targets[i], path);
        lemma_declared_by_target(spec.targets, i, path);
        let at = declared.index_of(path);
        assert(all[spec.artifacts.len() + at] == path);
        lemma_distinct_paths_name_all(platform, all, spec.artifacts.len() + at)
    }
}

proof fn lemma_required_of_package(
    platform: HostPlatform,
    depos_root: Text,
    variant: Text,
    selected: Seq<ResolvedPackageView>,
    count: int,
    place: int,
    at: int,
) -> (position: int)
    requires
        0 <= place < count <= selected.len(),
        0 <= at < selected[place].spec.required(platform).len(),
    ensures
        0 <= position < registry::required_among(
            platform,
            depos_root,
            variant,
            selected,
            count,
        ).len(),
        registry::required_among(platform, depos_root, variant, selected, count)[position]
            == (RequiredPathView {
            package_id: identity(selected[place].spec),
            relative_path: selected[place].spec.required(platform)[at],
            store_root: layout::store_root_of(platform, depos_root, variant, selected[place].spec),
        }),
    decreases count,
{
    let before = registry::required_among(platform, depos_root, variant, selected, count - 1);
    let own = registry::required_of(platform, depos_root, variant, selected[count - 1].spec);
    let all = before + own;
    assert(registry::required_among(platform, depos_root, variant, selected, count) == all);
    if place < count - 1 {
        let position = lemma_required_of_package(
            platform,
            depos_root,
            variant,
            selected,
            count - 1,
            place,
            at,
        );
        assert(all[position] == before[position]);
        position
    } else {
        assert(all[before.len() + at] == own[at]);
        before.len() + at
    }
}

proof fn lemma_presence_is_checked(
    required: Seq<RequiredPathView>,
    present: Seq<bool>,
    from: int,
    at: int,
)
    requires
        0 <= from <= at < required.len(),
        registry::presence_check(required, present, from) is Ok,
    ensures
        present[at],
    decreases required.len() - from,
{
    if from < at {
        lemma_presence_is_checked(required, present, from + 1, at);
    }
}

/// Whether the path of a package is among the required ones and is there.
pub open spec fn is_there(
    platform: HostPlatform,
    required: RequiredPathView,
    present: bool,
    package_id: Text,
    store_root: Text,
    path: Text,
) -> bool {
    &&& present
    &&& required.package_id == package_id
    &&& required.store_root == store_root
    &&& paths::same_path(platform, required.relative_path, path)
}

/// No registry is written unless every path that a selected package declares was found in the
/// store of that package.
pub proof fn lemma_registries_need_every_declared_path(
    platform: HostPlatform,
    depos_root: Text,
    manifest: Text,
    plan: RegistryPlanView,
    present: Seq<bool>,
    provenances: Seq<SourceProvenanceView>,
    place: int,
    path: Text,
)
    requires
        registry::synced(platform, depos_root, manifest, plan, present, provenances) is Ok,
        0 <= place < plan.selected.len(),
        package_declares(plan.selected[place].spec, path),
    ensures
        exists|i: int|
            0 <= i < registry::required_by(platform, depos_root, plan).len() && is_there(
                platform,
                #[trigger] registry::required_by(platform, depos_root, plan)[i],
                present[i],
                identity(plan.selected[place].spec),
                layout::store_root_of(
                    platform,
                    depos_root,
                    plan.variant,
                    plan.selected[place].spec,
                ),
                path,
            ),
{
    let required = registry::required_by(platform, depos_root, plan);
    let at = lemma_declared_is_required(platform, plan.selected[place].spec, path);
    let position = lemma_required_of_package(
        platform,
        depos_root,
        plan.variant,
        plan.selected,
        plan.selected.len() as int,
        place,
        at,
    );
    lemma_presence_is_checked(required, present, 0, position);
    assert(is_there(
        platform,
        required[position],
        present[position],
        identity(plan.selected[place].spec),
        layout::store_root_of(platform, depos_root, plan.variant, plan.selected[place].spec),
        path,
    ));
}

/// Where nothing that is required is missing, only two packages with one public name keep a
/// registry from being written.
pub proof fn lemma_complete_stores_give_registries(
    platform: HostPlatform,
    depos_root: Text,
    manifest: Text,
    plan: RegistryPlanView,
    present: Seq<bool>,
    provenances: Seq<SourceProvenanceView>,
)
    requires
        forall|i: int|
            0 <= i < registry::required_by(platform, depos_root, plan).len()
                ==> #[trigger] present[i],
    ensures
        registry::synced(platform, depos_root, manifest, plan, present, provenances) is Ok
            <==> render::targets_file(
            platform,
            depos_root,
            plan.variant,
            paths::joined_path(platform, plan.registry_dir, "validate.cmake"@),
            plan.selected,
        ) is Ok,
{
    lemma_all_present(registry::required_by(platform, depos_root, plan), present, 0);
}

proof fn lemma_all_present(required: Seq<RequiredPathView>, present: Seq<bool>, from: int)
    requires
        0 <= from,
        forall|i: int| 0 <= i < required.len() ==> #[trigger] present[i],
    ensures
        registry::presence_check(required, present, from) is Ok,
    decreases required.len() - from,
{
    if from < required.len() {
        assert(present[from]);
        lemma_all_present(required, present, from + 1);
    }
}

/// The command of a validation file that demands a path for a package.
pub open spec fn demand_said(package_id: Text, path: Text) -> Text {
    "_depos_validate_required_path(\""@ + render::escaped(package_id) + "\" \""@ + render::escaped(
        path,
    ) + "\")\n"@
}

/// Whether a validation file demands a path that is the same as a declared one.
pub open spec fn demands(
    validate: Text,
    platform: HostPlatform,
    package_id: Text,
    store_root: Text,
    path: Text,
    written: Text,
) -> bool {
    &&& paths::same_path(platform, written, path)
    &&& render_laws::holds(
        validate,
        demand_said(
            package_id,
            paths::shown_path(platform, paths::joined_path(platform, store_root, written)),
        ),
    )
}

proof fn lemma_required_line(
    platform: HostPlatform,
    root: Text,
    id: Text,
    required: Seq<Text>,
    count: int,
    at: int,
)
    requires
        0 <= at < count <= required.len(),
    ensures
        render_laws::holds(
            render::required_lines(platform, root, id, required, count),
            demand_said(
                id,
                paths::shown_path(platform, paths::joined_path(platform, root, required[at])),
            ),
        ),
    decreases count,
{
    let before = render::required_lines(platform, root, id, required, count - 1);
    let last = demand_said(
        id,
        paths::shown_path(platform, paths::joined_path(platform, root, required[count - 1])),
    );
    let wanted = demand_said(
        id,
        paths::shown_path(platform, paths::joined_path(platform, root, required[at])),
    );
    assert(render::required_lines(platform, root, id, required, count) =~= before + last);
    if at < count - 1 {
        lemma_required_line(platform, root, id, required, count - 1, at);
    }
    render_laws::lemma_holds_in_sum(before + last, before, last, wanted);
}

proof fn lemma_required_lines(
    platform: HostPlatform,
    depos_root: Text,
    variant: Text,
    selected: Seq<ResolvedPackageView>,
    count: int,
    place: int,
    line: Text,
)
    requires
        0 <= place < count <= selected.len(),
        render_laws::holds(
            render::required_lines(
                platform,
                layout::store_root_of(platform, depos_root, variant, selected[place].spec),
                selected[place].spec.id(),
                selected[place].spec.required(platform),
                selected[place].spec.required(platform).len() as int,
            ),
            line,
        ),
    ensures
        render_laws::holds(
            render::validate_lines(platform, depos_root, variant, selected, count),
            line,
        ),
    decreases count,
{
    let before = render::validate_lines(platform, depos_root, variant, selected, count - 1);
    let spec = selected[count - 1].spec;
    let last = render::required_lines(
        platform,
        layout::store_root_of(platform, depos_root, variant, spec),
        spec.id(),
        spec.required(platform),
        spec.required(platform).len() as int,
    );
    if place < count - 1 {
        lemma_required_lines(platform, depos_root, variant, selected, count - 1, place, line);
    }
    render_laws::lemma_holds_in_either(before, last, line);
}

proof fn lemma_seven_lines(
    set: Text,
    a: Text,
    b: Text,
    c: Text,
    d: Text,
    e: Text,
    f: Text,
    g: Text,
)
    ensures
        set + a + b + c + d + e + f + g == set + (a + b + c + d + e + f + g),
{
    assert(set + a + b =~= set + (a + b));
    assert(set + (a + b) + c =~= set + (a + b + c));
    assert(set + (a + b + c) + d =~= set + (a + b + c + d));
    assert(set + (a + b + c + d) + e =~= set + (a + b + c + d + e));
    assert(set + (a + b + c + d + e) + f =~= set + (a + b + c + d + e + f));
    assert(set + (a + b + c + d + e + f) + g =~= set + (a + b + c + d + e + f + g));
}

/// The validation file of a registry demands every path that a selected package declares, in the
/// store of that package, and stops CMake where one is missing.
pub proof fn lemma_registries_demand_every_declared_path(
    platform: HostPlatform,
    depos_root: Text,
    manifest: Text,
    plan: RegistryPlanView,
    provenances: Seq<SourceProvenanceView>,
    files: RegistryFilesView,
    place: int,
    path: Text,
)
    requires
        registry::registry_files(platform, depos_root, manifest, plan, provenances) == Ok::<
            RegistryFilesView,
            Messages,
        >(files),
        0 <= place < plan.selected.len(),
        package_declares(plan.selected[place].spec, path),
    ensures
        exists|written: Text|
            demands(
                files.validate,
                platform,
                identity(plan.selected[place].spec),
                layout::store_root_of(
                    platform,
                    depos_root,
                    plan.variant,
                    plan.selected[place].spec,
                ),
                path,
                written,
            ),
        render_laws::holds(
            files.validate,
            "function(_depos_validate_required_path package_id absolute_path)\n"@
                + "  set(_depos_abs_path \"${absolute_path}\")\n"@
                + "  if (EXISTS \"${_depos_abs_path}\" OR IS_SYMLINK \"${_depos_abs_path}\")\n"@
                + "    return()\n"@ + "  endif()\n\n"@
                + "  message(FATAL_ERROR \"Depo sync validation failed for '${package_id}': missing required path '${absolute_path}'.\")\n"@
                + "endfunction()\n"@,
        ),
{
    let spec = plan.selected[place].spec;
    let root = layout::store_root_of(platform, depos_root, plan.variant, spec);
    let required = spec.required(platform);
    let at = lemma_declared_is_required(platform, spec, path);
    let line = demand_said(
        identity(spec),
        paths::shown_path(platform, paths::joined_path(platform, root, required[at])),
    );
    lemma_required_line(platform, root, identity(spec), required, required.len() as int, at);
    lemma_required_lines(
        platform,
        depos_root,
        plan.variant,
        plan.selected,
        plan.selected.len() as int,
        place,
        line,
    );
    let head = render::validate_head(platform, depos_root, plan.variant);
    let lines = render::validate_lines(
        platform,
        depos_root,
        plan.variant,
        plan.selected,
        plan.selected.len() as int,
    );
    render_laws::lemma_holds_in_either(head, lines, line);
    assert(demands(files.validate, platform, identity(spec), root, path, required[at]));
    let function = "function(_depos_validate_required_path package_id absolute_path)\n"@
        + "  set(_depos_abs_path \"${absolute_path}\")\n"@
        + "  if (EXISTS \"${_depos_abs_path}\" OR IS_SYMLINK \"${_depos_abs_path}\")\n"@
        + "    return()\n"@ + "  endif()\n\n"@
        + "  message(FATAL_ERROR \"Depo sync validation failed for '${package_id}': missing required path '${absolute_path}'.\")\n"@
        + "endfunction()\n"@;
    let set = render::setting(
        "DEPOS_VALIDATE_VARIANT_ROOT"@,
        paths::shown_path(
            platform,
            layout::variant_root_of(platform, depos_root, plan.variant),
        ),
    );
    lemma_seven_lines(
        set,
        "function(_depos_validate_required_path package_id absolute_path)\n"@,
        "  set(_depos_abs_path \"${absolute_path}\")\n"@,
        "  if (EXISTS \"${_depos_abs_path}\" OR IS_SYMLINK \"${_depos_abs_path}\")\n"@,
        "    return()\n"@,
        "  endif()\n\n"@,
        "  message(FATAL_ERROR \"Depo sync validation failed for '${package_id}': missing required path '${absolute_path}'.\")\n"@,
        "endfunction()\n"@,
    );
    assert(head == set + function);
    render_laws::lemma_holds_in_sum(head, set, function, function);
    render_laws::lemma_holds_in_either(head, lines, function);
}

/// A command that sets a variable.
pub open spec fn setting_said(name: Text, value: Text) -> Text {
    "set("@ + name + " \""@ + render::escaped(value) + "\")\n"@
}

/// What stands for a value that may be missing.
pub open spec fn or_underscore(value: Option<Text>) -> Text {
    match value {
        Some(value) => value,
        None => "_"@,
    }
}

/// The entry of a lock file for a package, its parts between bars.
pub open spec fn is_entry(
    entry: Text,
    package: ResolvedPackageView,
    provenance: SourceProvenanceView,
    aliases: Text,
) -> bool {
    let source = match package.source {
        RequestSource::Auto => "AUTO"@,
        RequestSource::Depo => "DEPO"@,
        RequestSource::System => "SYSTEM"@,
    };
    let asked = match package.request {
        RequestModeView::Latest => "LATEST|_"@,
        RequestModeView::Exact(version) => if version == ""@ {
            "EXACT|_"@
        } else {
            "EXACT|"@ + version
        },
        RequestModeView::Minimum(version) => if version == ""@ {
            "MINIMUM|_"@
        } else {
            "MINIMUM|"@ + version
        },
    };
    &&& package.aliases.len() == 0 ==> aliases == "_"@
    &&& package.aliases.len() == 1 ==> aliases == package.aliases[0]
    &&& package.aliases.len() > 1 ==> aliases == text::joined(package.aliases.drop_last(), ","@)
        + ","@ + package.aliases.last()
    &&& entry == identity(package.spec) + "|"@ + source + "|"@ + asked + "|"@ + aliases + "|"@
        + or_underscore(provenance.source_ref) + "|"@ + or_underscore(provenance.source_commit)
}

/// The aliases of a package as a lock file lists them.
pub open spec fn alias_list(package: ResolvedPackageView) -> Text {
    if package.aliases.len() == 0 {
        "_"@
    } else {
        text::joined(package.aliases, ","@)
    }
}

proof fn lemma_entry_parts(
    head: Text,
    kind: Text,
    bar: Text,
    version: Text,
    aliases: Text,
    provenance: SourceProvenanceView,
)
    ensures
        head + kind + bar + version + bar + aliases + bar + or_underscore(provenance.source_ref)
            + bar + or_underscore(provenance.source_commit) == head + (kind + bar + version) + bar
            + aliases + bar + or_underscore(provenance.source_ref) + bar + or_underscore(
            provenance.source_commit,
        ),
{
    assert(head + kind + bar + version =~= head + (kind + bar + version));
}

proof fn lemma_entry_text(package: ResolvedPackageView, provenance: SourceProvenanceView)
    ensures
        is_entry(
            render::lock_entry(package, provenance),
            package,
            provenance,
            alias_list(package),
        ),
{
    reveal_strlit("");
    reveal_strlit("_");
    reveal_strlit("|");
    reveal_strlit("LATEST");
    reveal_strlit("LATEST|_");
    reveal_strlit("EXACT");
    reveal_strlit("EXACT|");
    reveal_strlit("EXACT|_");
    reveal_strlit("MINIMUM");
    reveal_strlit("MINIMUM|");
    reveal_strlit("MINIMUM|_");
    assert("LATEST"@ + "|"@ + "_"@ =~= "LATEST|_"@);
    assert("EXACT"@ + "|"@ + "_"@ =~= "EXACT|_"@);
    assert("MINIMUM"@ + "|"@ + "_"@ =~= "MINIMUM|_"@);
    assert("EXACT"@ + "|"@ =~= "EXACT|"@);
    assert("MINIMUM"@ + "|"@ =~= "MINIMUM|"@);
    let version = if package.request.version().len() == 0 {
        "_"@
    } else {
        package.request.version()
    };
    let head = identity(package.spec) + "|"@ + package.source.word() + "|"@;
    let kind = package.request.kind();
    let asked = kind + "|"@ + version;
    match package.request {
        RequestModeView::Latest => {
            assert(""@.len() == 0);
        },
        RequestModeView::Exact(named) => {
            assert(named.len() == 0 ==> named =~= ""@);
        },
        RequestModeView::Minimum(named) => {
            assert(named.len() == 0 ==> named =~= ""@);
        },
    }
    lemma_entry_parts(head, kind, "|"@, version, alias_list(package), provenance);
    assert(head + asked + "|"@ + alias_list(package) + "|"@ + or_underscore(
        provenance.source_ref,
    ) + "|"@ + or_underscore(provenance.source_commit) == render::lock_entry(package, provenance));
    match package.request {
        RequestModeView::Latest => {
            assert(asked == "LATEST|_"@);
        },
        RequestModeView::Exact(named) => {
            assert(named != ""@ ==> asked == "EXACT|"@ + named);
        },
        RequestModeView::Minimum(named) => {
            assert(named != ""@ ==> asked == "MINIMUM|"@ + named);
        },
    }
}

/// Whether a text is one of the items of a list between semicolons.
pub open spec fn is_item(list: Text, item: Text) -> bool {
    ||| list == item
    ||| exists|before: Text| list == #[trigger] (before + (";"@ + item))
    ||| exists|behind: Text| list == #[trigger] (item + (";"@ + behind))
    ||| exists|before: Text, behind: Text|
        list == #[trigger] (before + (";"@ + item) + (";"@ + behind))
}

proof fn lemma_joined_items(items: Seq<Text>, at: int)
    requires
        0 <= at < items.len(),
    ensures
        is_item(text::joined(items, ";"@), items[at]),
    decreases items.len(),
{
    let list = text::joined(items, ";"@);
    let item = items[at];
    if items.len() > 1 {
        let before = text::joined(items.drop_last(), ";"@);
        let last = items.last();
        assert(list =~= before + (";"@ + last));
        if at < items.len() - 1 {
            lemma_joined_items(items.drop_last(), at);
            assert(items.drop_last()[at] == item);
            if before == item {
                assert(list == item + (";"@ + last));
            } else if exists|front: Text| before == #[trigger] (front + (";"@ + item)) {
                let front = choose|front: Text| before == #[trigger] (front + (";"@ + item));
                assert(list == front + (";"@ + item) + (";"@ + last));
            } else if exists|behind: Text| before == #[trigger] (item + (";"@ + behind)) {
                let behind = choose|behind: Text| before == #[trigger] (item + (";"@ + behind));
                assert(list =~= item + (";"@ + (behind + (";"@ + last))));
            } else {
                let (front, behind) = choose|front: Text, behind: Text|
                    before == #[trigger] (front + (";"@ + item) + (";"@ + behind));
                assert(list =~= front + (";"@ + item) + (";"@ + (behind + (";"@ + last))));
            }
        }
    }
}

/// The lock file records the manifest, the profile, the variant and the other files of the
/// registry, and among the selected packages each one with where it came from, how it was asked
/// for, its aliases and its sources.
pub proof fn lemma_lock_files_record_the_selection(
    platform: HostPlatform,
    depos_root: Text,
    manifest: Text,
    plan: RegistryPlanView,
    provenances: Seq<SourceProvenanceView>,
    files: RegistryFilesView,
    place: int,
) -> (list: Text)
    requires
        registry::registry_files(platform, depos_root, manifest, plan, provenances) == Ok::<
            RegistryFilesView,
            Messages,
        >(files),
        0 <= place < plan.selected.len(),
    ensures
        render_laws::holds(
            files.lock,
            setting_said("DEPOS_REGISTRY_MANIFEST"@, paths::shown_path(platform, manifest)),
        ),
        render_laws::holds(files.lock, setting_said("DEPOS_REGISTRY_PROFILE"@, plan.profile)),
        render_laws::holds(files.lock, setting_said("DEPOS_REGISTRY_VARIANT"@, plan.variant)),
        render_laws::holds(
            files.lock,
            setting_said(
                "DEPOS_REGISTRY_STORE_ROOT"@,
                paths::shown_path(
                    platform,
                    layout::variant_root_of(platform, depos_root, plan.variant),
                ),
            ),
        ),
        render_laws::holds(
            files.lock,
            setting_said(
                "DEPOS_REGISTRY_TARGETS_FILE"@,
                paths::shown_path(platform, files.output.targets_file),
            ),
        ),
        render_laws::holds(
            files.lock,
            setting_said(
                "DEPOS_REGISTRY_VALIDATE_FILE"@,
                paths::shown_path(platform, files.output.validate_file),
            ),
        ),
        render_laws::holds(
            files.lock,
            setting_said("DEPOS_REGISTRY_SELECTED_PACKAGES"@, list),
        ),
        exists|entry: Text|
            #![trigger is_item(list, entry)]
            is_item(list, entry) && is_entry(
                entry,
                plan.selected[place],
                provenances[place],
                alias_list(plan.selected[place]),
            ),
        files.output.registry_dir == plan.registry_dir,
        files.output.lock_file == paths::joined_path(
            platform,
            plan.registry_dir,
            "lock.cmake"@,
        ),
        files.output.validate_file == paths::joined_path(
            platform,
            plan.registry_dir,
            "validate.cmake"@,
        ),
        files.output.targets_file == paths::joined_path(
            platform,
            plan.registry_dir,
            "targets.cmake"@,
        ),
        files.output.selected == plan.selected,
{
    let entries = Seq::new(
        plan.selected.len(),
        |i: int| render::lock_entry(plan.selected[i], provenances[i]),
    );
    let list = text::joined(entries, ";"@);
    let s1 = setting_said("DEPOS_REGISTRY_MANIFEST"@, paths::shown_path(platform, manifest));
    let s2 = setting_said("DEPOS_REGISTRY_PROFILE"@, plan.profile);
    let s3 = setting_said("DEPOS_REGISTRY_VARIANT"@, plan.variant);
    let s4 = setting_said(
        "DEPOS_REGISTRY_STORE_ROOT"@,
        paths::shown_path(platform, layout::variant_root_of(platform, depos_root, plan.variant)),
    );
    let s5 = setting_said(
        "DEPOS_REGISTRY_TARGETS_FILE"@,
        paths::shown_path(platform, files.output.targets_file),
    );
    let s6 = setting_said(
        "DEPOS_REGISTRY_VALIDATE_FILE"@,
        paths::shown_path(platform, files.output.validate_file),
    );
    let s7 = setting_said("DEPOS_REGISTRY_SELECTED_PACKAGES"@, list);
    assert(files.lock == s1 + s2 + s3 + s4 + s5 + s6 + s7);
    lemma_seven_parts(s1, s2, s3, s4, s5, s6, s7);
    lemma_joined_items(entries, place);
    lemma_entry_text(plan.selected[place], provenances[place]);
    assert(is_item(list, entries[place]));
    list
}

proof fn lemma_seven_parts(s1: Text, s2: Text, s3: Text, s4: Text, s5: Text, s6: Text, s7: Text)
    ensures
        ({
            let whole = s1 + s2 + s3 + s4 + s5 + s6 + s7;
            &&& render_laws::holds(whole, s1)
            &&& render_laws::holds(whole, s2)
            &&& render_laws::holds(whole, s3)
            &&& render_laws::holds(whole, s4)
            &&& render_laws::holds(whole, s5)
            &&& render_laws::holds(whole, s6)
            &&& render_laws::holds(whole, s7)
        }),
{
    let w2 = s1 + s2;
    let w3 = w2 + s3;
    let w4 = w3 + s4;
    let w5 = w4 + s5;
    let w6 = w5 + s6;
    let w7 = w6 + s7;
    render_laws::lemma_holds_itself(s1);
    render_laws::lemma_holds_in_sum(w2, s1, s2, s1);
    render_laws::lemma_holds_in_sum(w2, s1, s2, s2);
    render_laws::lemma_holds_in_sum(w3, w2, s3, s1);
    render_laws::lemma_holds_in_sum(w3, w2, s3, s2);
    render_laws::lemma_holds_in_sum(w3, w2, s3, s3);
    render_laws::lemma_holds_itself(w3);
    render_laws::lemma_holds_in_sum(w4, w3, s4, w3);
    render_laws::lemma_holds_in_sum(w4, w3, s4, s4);
    render_laws::lemma_holds_in_sum(w5, w4, s5, w3);
    render_laws::lemma_holds_in_sum(w5, w4, s5, s4);
    render_laws::lemma_holds_in_sum(w5, w4, s5, s5);
    render_laws::lemma_holds_itself(w5);
    render_laws::lemma_holds_in_sum(w6, w5, s6, w5);
    render_laws::lemma_holds_in_sum(w6, w5, s6, s6);
    render_laws::lemma_holds_in_sum(w7, w6, s7, w5);
    render_laws::lemma_holds_in_sum(w7, w6, s7, s6);
    render_laws::lemma_holds_in_sum(w7, w6, s7, s7);
    render_laws::lemma_holds_within(w7, w5, s5);
    render_laws::lemma_holds_within(w7, w5, s4);
    render_laws::lemma_holds_within(w7, w5, w3);
    render_laws::lemma_holds_within(w7, w3, s1);
    render_laws::lemma_holds_within(w7, w3, s2);
    render_laws::lemma_holds_within(w7, w3, s3);
}

} // verus!
