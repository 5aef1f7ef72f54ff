//! What is told of registered packages, and what the records about them hold.

use vstd::prelude::*;
use crate::arch;
use crate::failure::Messages;
use crate::layout;
use crate::manifest_laws;
use crate::model::{PackageSpecView, PackageState, PackageSystemLibs, Text};
use crate::paths;
use crate::paths::HostPlatform;
use crate::records;
use crate::records::{MaterializationStateView, PackageStatusView, SourceProvenanceView};
use crate::render_laws;
use crate::status;
use crate::status::{PackageIdentityView, PruneStep};
use crate::store_laws;

verus! {

/// A package is quarantined if and only if a dependency of it cannot be met, green if and only if
/// all can and all that it exports is there, and else registered only.
pub proof fn lemma_statuses_tell_what_is_there(
    platform: HostPlatform,
    depos_root: Text,
    depofile: Text,
    spec: PackageSpecView,
    catalog: Seq<PackageSpecView>,
    exports_present: bool,
    provenance: SourceProvenanceView,
)
    ensures
        ({
            let result = status::assessed(
                platform,
                depos_root,
                depofile,
                spec,
                catalog,
                exports_present,
                provenance,
            );
            let met = forall|d: int|
                0 <= d < spec.depends.len() ==> store_laws::can_be_met(
                    catalog,
                    #[trigger] spec.depends[d],
                );
            &&& result is Ok <==> arch::arch_named(spec.target_arch) is Ok
            &&& result matches Ok(status) ==> {
                &&& status.state == PackageState::Quarantined <==> !met
                &&& status.state == PackageState::Green <==> met && exports_present
                &&& status.state == PackageState::NeverRun <==> met && !exports_present
                &&& status.name == spec.name
                &&& status.namespace == spec.namespace
                &&& status.version == spec.version
                &&& status.lazy == spec.lazy
                &&& status.system_libs == spec.system_libs
                &&& status.depofile == depofile
                &&& status.source_ref == provenance.source_ref
                &&& status.source_commit == provenance.source_commit
            }
        }),
{
    store_laws::lemma_reasons_are_given_for_what_is_missing(
        catalog,
        spec.depends,
        spec.depends.len() as int,
    );
}

/// An architecture goes by its own name or by another that is in use for it.
pub proof fn lemma_architectures_go_by_their_names(name: Text)
    ensures
        arch::arch_named(name) is Ok <==> crate::depofile_laws::names_architecture(name),
        name == "x86_64"@ || name == "amd64"@ ==> arch::arch_named(name) == Ok::<Text, Messages>(
            "x86_64"@,
        ),
        name == "aarch64"@ || name == "arm64"@ ==> arch::arch_named(name) == Ok::<Text, Messages>(
            "aarch64"@,
        ),
        name == "riscv64"@ ==> arch::arch_named(name) == Ok::<Text, Messages>("riscv64"@),
        arch::target_variant(name) is Ok <==> arch::arch_named(name) is Ok,
        arch::arch_named(name) matches Ok(known) ==> arch::target_variant(name) == Ok::<
            Text,
            Messages,
        >(known + "-"@ + known + "_v1"@),
{
    reveal_strlit("x86_64");
    reveal_strlit("amd64");
    reveal_strlit("aarch64");
    reveal_strlit("arm64");
    reveal_strlit("riscv64");
    assert("x86_64"@.len() == 6 && "amd64"@.len() == 5 && "amd64"@[1] == 'm');
    assert("aarch64"@.len() == 7 && "aarch64"@[0] == 'a');
    assert("arm64"@.len() == 5 && "arm64"@[1] == 'r');
    assert("riscv64"@.len() == 7 && "riscv64"@[0] == 'r');
}

/// The DepoFile that is registered by hand is read where it is there, else the one that was found
/// in fetched sources; where neither is, none.
pub proof fn lemma_hand_registered_depofiles_come_first(
    platform: HostPlatform,
    depos_root: Text,
    name: Text,
    namespace: Text,
    version: Text,
    local_exists: bool,
    embedded_exists: bool,
)
    ensures
        ({
            let result = status::depofile_place(
                platform,
                depos_root,
                name,
                namespace,
                version,
                local_exists,
                embedded_exists,
            );
            &&& result is Ok <==> local_exists || embedded_exists
            &&& local_exists ==> result == Ok::<Text, Messages>(
                layout::depofile_below(
                    platform,
                    layout::local_root_of(platform, depos_root),
                    name,
                    namespace,
                    version,
                ),
            )
            &&& !local_exists && embedded_exists ==> result == Ok::<Text, Messages>(
                layout::depofile_below(
                    platform,
                    layout::embedded_root_of(platform, depos_root),
                    name,
                    namespace,
                    version,
                ),
            )
        }),
{
}

/// A DepoFile is registered if and only if it describes a package and the namespace is one; it
/// is kept with those registered by hand, under its own name and version.
pub proof fn lemma_registering_keeps_the_depofile(
    platform: HostPlatform,
    depos_root: Text,
    file: Text,
    namespace: Text,
    source: Text,
    host: Text,
)
    ensures
        ({
            let said = crate::depofile::depofile_spec(platform, file, source, host);
            let result = status::registration(
                platform,
                depos_root,
                file,
                namespace,
                source,
                host,
            );
            &&& result is Ok <==> manifest_laws::is_namespace(namespace) && said is Ok
            &&& result matches Ok(registration) ==> {
                &&& registration.spec == said->Ok_0
                &&& registration.registered_path == layout::depofile_below(
                    platform,
                    layout::local_root_of(platform, depos_root),
                    said->Ok_0.name,
                    namespace,
                    said->Ok_0.version,
                )
            }
        }),
{
    manifest_laws::lemma_names_checked(namespace);
}

/// The status is asked of one package that is named with its version, in the namespace that is
/// named or `release`, or of all; any other question is refused.
pub proof fn lemma_questions_name_a_package_or_none(
    name: Option<Text>,
    namespace: Option<Text>,
    version: Option<Text>,
    registered: Seq<PackageIdentityView>,
)
    ensures
        ({
            let result = status::queried(name, namespace, version, registered);
            &&& result is Ok <==> (name is Some && version is Some) || (name is None
                && namespace is None && version is None)
            &&& name is None ==> (result matches Ok(asked) ==> asked == registered)
            &&& name is Some ==> (result matches Ok(asked) ==> {
                &&& asked.len() == 1
                &&& asked[0].name == name->Some_0
                &&& asked[0].version == version->Some_0
                &&& namespace is Some ==> asked[0].namespace == namespace->Some_0
                &&& namespace is None ==> asked[0].namespace == "release"@
            })
        }),
{
}

/// An empty directory is removed and the one above it looked at next, up to where to stop, which
/// stays; nothing is removed that is not empty.
pub proof fn lemma_only_empty_directories_are_removed(
    platform: HostPlatform,
    current: Text,
    stop_at: Text,
    exists_there: bool,
    empty: bool,
)
    ensures
        ({
            let step = status::prune_decision(platform, current, stop_at, exists_there, empty);
            &&& step == PruneStep::RemoveAndAscend <==> exists_there && empty && !paths::same_path(
                platform,
                current,
                stop_at,
            )
            &&& step == PruneStep::Ascend <==> !exists_there && !paths::same_path(
                platform,
                current,
                stop_at,
            )
            &&& step == PruneStep::Stop <==> paths::same_path(platform, current, stop_at) || (
            exists_there && !empty)
        }),
{
}

/// A line of a record: a key and its value.
pub open spec fn line_said(key: Text, value: Text) -> Text {
    key + "="@ + value + "\n"@
}

/// Whether a record holds a line for a key if and only if there is a value for it.
pub open spec fn holds_optional(record: Text, key: Text, value: Option<Text>) -> bool {
    value matches Some(value) ==> render_laws::holds(record, line_said(key, value))
}

proof fn lemma_part_of_sum(whole: Text, before: Text, last: Text, part: Text)
    requires
        whole == before + last,
        render_laws::holds(before, part) || last == part,
    ensures
        render_laws::holds(whole, part),
{
    render_laws::lemma_holds_in_sum(whole, before, last, part);
}

/// The record about the sources of a package holds what is known of them, each under its key.
pub proof fn lemma_provenance_records_hold_what_is_known(provenance: SourceProvenanceView)
    ensures
        holds_optional(
            records::provenance_text(provenance),
            "source_ref"@,
            provenance.source_ref,
        ),
        holds_optional(
            records::provenance_text(provenance),
            "source_commit"@,
            provenance.source_commit,
        ),
        holds_optional(
            records::provenance_text(provenance),
            "source_digest"@,
            provenance.source_digest,
        ),
{
    let a = records::optional_field("source_ref"@, provenance.source_ref);
    let b = records::optional_field("source_commit"@, provenance.source_commit);
    let c = records::optional_field("source_digest"@, provenance.source_digest);
    let whole = a + b + c;
    render_laws::lemma_holds_itself(a);
    lemma_part_of_sum(a + b, a, b, a);
    lemma_part_of_sum(a + b, a, b, b);
    lemma_part_of_sum(whole, a + b, c, a);
    lemma_part_of_sum(whole, a + b, c, b);
    lemma_part_of_sum(whole, a + b, c, c);
}

/// The record about a materialization holds its store, the digest of its DepoFile and the key of
/// what it was built from.
pub proof fn lemma_materialization_records_hold_the_inputs(state: MaterializationStateView)
    ensures
        render_laws::holds(
            records::state_text(state),
            line_said("store_root"@, state.store_root),
        ),
        render_laws::holds(
            records::state_text(state),
            line_said("depofile_hash"@, state.depofile_hash),
        ),
        render_laws::holds(
            records::state_text(state),
            line_said("build_key"@, state.build_key),
        ),
{
    let a = line_said("store_root"@, state.store_root);
    let b = line_said("depofile_hash"@, state.depofile_hash);
    let c = line_said("build_key"@, state.build_key);
    let whole = a + b + c;
    render_laws::lemma_holds_itself(a);
    lemma_part_of_sum(a + b, a, b, a);
    lemma_part_of_sum(a + b, a, b, b);
    lemma_part_of_sum(whole, a + b, c, a);
    lemma_part_of_sum(whole, a + b, c, b);
    lemma_part_of_sum(whole, a + b, c, c);
    assert(records::state_text(state) == whole);
}

/// The word for how a package stands.
pub open spec fn state_said(state: PackageState) -> Text {
    match state {
        PackageState::NeverRun => "never_run"@,
        PackageState::Green => "green"@,
        PackageState::Quarantined => "quarantined"@,
        PackageState::Failed => "failed"@,
    }
}

/// The word for what a package may use of the system.
pub open spec fn libraries_said(libraries: PackageSystemLibs) -> Text {
    match libraries {
        PackageSystemLibs::Inherit => "INHERIT"@,
        PackageSystemLibs::Never => "NEVER"@,
        PackageSystemLibs::Allow => "ALLOW"@,
    }
}

/// The record of a status holds all that is told of a package, each under its key, and so does
/// the line that is shown.
pub proof fn lemma_status_records_hold_all_that_is_told(status: PackageStatusView)
    ensures
        ({
            let record = records::status_text(status);
            &&& render_laws::holds(record, line_said("name"@, status.name))
            &&& render_laws::holds(record, line_said("namespace"@, status.namespace))
            &&& render_laws::holds(record, line_said("version"@, status.version))
            &&& render_laws::holds(
                record,
                line_said(
                    "lazy"@,
                    if status.lazy {
                        "true"@
                    } else {
                        "false"@
                    },
                ),
            )
            &&& render_laws::holds(
                record,
                line_said("system_libs"@, libraries_said(status.system_libs)),
            )
            &&& render_laws::holds(record, line_said("state"@, state_said(status.state)))
            &&& render_laws::holds(record, line_said("depofile"@, status.depofile))
            &&& render_laws::holds(record, line_said("message"@, status.message))
            &&& holds_optional(record, "source_ref"@, status.source_ref)
            &&& holds_optional(record, "source_commit"@, status.source_commit)
        }),
        status.line() == status.name + "["@ + status.namespace + "]@"@ + status.version + " ["@
            + state_said(status.state) + "] "@ + status.message,
{
    let p0 = line_said("name"@, status.name);
    let p1 = line_said("namespace"@, status.namespace);
    let p2 = line_said("version"@, status.version);
    let p3 = line_said(
        "lazy"@,
        if status.lazy {
            "true"@
        } else {
            "false"@
        },
    );
    let p4 = line_said("system_libs"@, libraries_said(status.system_libs));
    let p5 = line_said("state"@, state_said(status.state));
    let p6 = line_said("depofile"@, status.depofile);
    let p7 = line_said("message"@, status.message);
    let p8 = records::optional_field("source_ref"@, status.source_ref);
    let p9 = records::optional_field("source_commit"@, status.source_commit);
    let parts = seq![p0, p1, p2, p3, p4, p5, p6, p7, p8, p9];
    reveal_with_fuel(summed, 11);
    assert(parts[0] == p0 && parts[1] == p1 && parts[2] == p2 && parts[3] == p3 && parts[4] == p4);
    assert(parts[5] == p5 && parts[6] == p6 && parts[7] == p7 && parts[8] == p8 && parts[9] == p9);
    assert(records::status_text(status) == p0 + p1 + p2 + p3 + p4 + p5 + p6 + p7 + p8 + p9);
    assert(summed(parts, 1) =~= p0);
    assert(records::status_text(status) == summed(parts, 10));
    assert forall|i: int| 0 <= i < 10 implies render_laws::holds(
        summed(parts, 10),
        #[trigger] parts[i],
    ) by {
        lemma_sum_holds(parts, 10, i);
    }
}

/// The first texts of a list, one behind the other.
spec fn summed(parts: Seq<Text>, count: int) -> Text
    decreases count,
{
    if count <= 0 {
        Seq::empty()
    } else {
        summed(parts, count - 1) + parts[count - 1]
    }
}

proof fn lemma_sum_holds(parts: Seq<Text>, count: int, at: int)
    requires
        0 <= at < count <= parts.len(),
    ensures
        render_laws::holds(summed(parts, count), parts[at]),
    decreases count,
{
    if at < count - 1 {
        lemma_sum_holds(parts, count - 1, at);
    }
    lemma_part_of_sum(
        summed(parts, count),
        summed(parts, count - 1),
        parts[count - 1],
        parts[at],
    );
}

} // verus!
