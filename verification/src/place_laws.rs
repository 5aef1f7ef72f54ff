//! Where a build may take place, where its commands and exports are found, and what is copied.

use vstd::prelude::*;
use crate::copying;
use crate::copying::{CopyAction, CopyPurpose, CopySourceView, SourceKindView};
use crate::exports;
use crate::exports::{EntryKind, ExportCandidateRootView, FoundEntryView};
use crate::failure::Messages;
use crate::model::{BuildSystem, PackageSpecView, Text, ToolchainSource};
use crate::path_laws;
use crate::paths;
use crate::paths::HostPlatform;
use crate::pipeline;
use crate::pipeline::BuildRootsView;
use crate::portable;
use crate::text;
use crate::text_laws;

verus! {

/// A name that leads down by one step.
pub open spec fn is_step(part: Text) -> bool {
    path_laws::is_part(part) && part != ".."@
}

/// Whether all names lead down.
pub open spec fn are_steps(parts: Seq<Text>) -> bool {
    forall|k: int| 0 <= k < parts.len() ==> is_step(#[trigger] parts[k])
}

/// The path that steps from a directory on lead to.
pub open spec fn stepped(base: Text, parts: Seq<Text>) -> Text
    decreases parts.len(),
{
    if parts.len() == 0 {
        base
    } else {
        stepped(base, parts.drop_last()) + "/"@ + parts.last()
    }
}

proof fn lemma_steps_lead_on(base: Text, first: Text, rest: Seq<Text>)
    ensures
        stepped(base, seq![first] + rest) == stepped(base + "/"@ + first, rest),
    decreases rest.len(),
{
    let all = seq![first] + rest;
    if rest.len() == 0 {
        assert(all.drop_last() =~= Seq::<Text>::empty());
        assert(all.last() == first);
        assert(stepped(base, all.drop_last()) == base);
    } else {
        assert(all.drop_last() =~= seq![first] + rest.drop_last());
        lemma_steps_lead_on(base, first, rest.drop_last());
        assert(all.last() == rest.last());
    }
}

proof fn lemma_below_job(
    platform: HostPlatform,
    cell_path: Text,
    parts: Seq<Text>,
    from: int,
    output: Text,
)
    requires
        platform != HostPlatform::Windows,
        0 <= from <= parts.len(),
        path_laws::is_open(output),
        forall|k: int| from <= k < parts.len() ==> path_laws::is_part(#[trigger] parts[k]),
    ensures
        portable::below_job(platform, cell_path, parts, from, output) is Ok <==> forall|k: int|
            from <= k < parts.len() ==> #[trigger] parts[k] != ".."@,
        portable::below_job(platform, cell_path, parts, from, output) matches Ok(path) ==> path
            == stepped(output, parts.subrange(from, parts.len() as int)),
    decreases parts.len() - from,
{
    reveal_strlit("");
    if from < parts.len() {
        let part = parts[from];
        assert(path_laws::is_part(part));
        assert(""@.len() == 0);
        assert(part[0] != '/' && part[part.len() - 1] != '/');
        path_laws::lemma_paths_are_joined_with_a_slash(platform, output, part);
        let rest = parts.subrange(from + 1, parts.len() as int);
        if part != ".."@ {
            lemma_below_job(platform, cell_path, parts, from + 1, output + "/"@ + part);
            lemma_steps_lead_on(output, part, rest);
            assert(parts.subrange(from, parts.len() as int) =~= seq![part] + rest);
        }
    } else {
        assert(parts.subrange(from, parts.len() as int) =~= Seq::<Text>::empty());
    }
}

/// What a build knows as a path below the root stands below its own directory on the host, unless
/// it leads up, which is refused.
pub proof fn lemma_paths_of_builds_stand_below_their_job(
    platform: HostPlatform,
    job_root: Text,
    parts: Seq<Text>,
)
    requires
        platform != HostPlatform::Windows,
        path_laws::is_open(job_root),
        parts.len() > 0,
        path_laws::are_parts(parts),
    ensures
        ({
            let result = portable::cell_host_path(
                platform,
                job_root,
                path_laws::rooted_at_slash(parts),
            );
            &&& result is Ok <==> are_steps(parts)
            &&& result matches Ok(path) ==> path == stepped(job_root, parts)
        }),
{
    reveal_strlit("/");
    reveal_strlit("");
    let whole = path_laws::rooted_at_slash(parts);
    let pieces = seq![Seq::<char>::empty()] + parts;
    assert(whole.subrange(0, 1) =~= "/"@);
    path_laws::lemma_rooted_pieces(parts);
    assert(pieces[0] =~= ""@);
    assert forall|k: int| 1 <= k < pieces.len() implies path_laws::is_part(
        #[trigger] pieces[k],
    ) by {
        assert(pieces[k] == parts[k - 1]);
    }
    lemma_below_job(platform, whole, pieces, 1, job_root);
    assert(pieces.subrange(1, pieces.len() as int) =~= parts);
    if are_steps(parts) {
        assert forall|k: int| 1 <= k < pieces.len() implies #[trigger] pieces[k] != ".."@ by {
            assert(is_step(parts[k - 1]));
        }
    }
    if portable::cell_host_path(platform, job_root, whole) is Ok {
        assert forall|k: int| 0 <= k < parts.len() implies is_step(#[trigger] parts[k]) by {
            assert(pieces[k + 1] == parts[k]);
            assert(path_laws::is_part(parts[k]));
        }
    }
}

proof fn lemma_below_cwd(
    platform: HostPlatform,
    executable: Text,
    parts: Seq<Text>,
    from: int,
    resolved: Text,
)
    requires
        platform != HostPlatform::Windows,
        0 <= from <= parts.len(),
        path_laws::is_open(resolved),
        path_laws::are_parts(parts),
    ensures
        pipeline::below_cwd(platform, executable, parts, from, resolved) is Ok <==> forall|k: int|
            from <= k < parts.len() ==> #[trigger] parts[k] != ".."@,
        pipeline::below_cwd(platform, executable, parts, from, resolved) matches Ok(path) ==> path
            == stepped(resolved, parts.subrange(from, parts.len() as int)),
    decreases parts.len() - from,
{
    if from < parts.len() {
        let part = parts[from];
        assert(path_laws::is_part(part));
        assert(part[0] != '/' && part[part.len() - 1] != '/');
        path_laws::lemma_paths_are_joined_with_a_slash(platform, resolved, part);
        let rest = parts.subrange(from + 1, parts.len() as int);
        if part != ".."@ {
            lemma_below_cwd(platform, executable, parts, from + 1, resolved + "/"@ + part);
            lemma_steps_lead_on(resolved, part, rest);
            assert(parts.subrange(from, parts.len() as int) =~= seq![part] + rest);
        }
    } else {
        assert(parts.subrange(from, parts.len() as int) =~= Seq::<Text>::empty());
    }
}

/// A command that is named by a relative path with several components is run from below the
/// directory that the phase runs in, unless the path leads up, which is refused.
pub proof fn lemma_relative_commands_stand_below_the_phase(
    platform: HostPlatform,
    spec: PackageSpecView,
    cwd: Text,
    parts: Seq<Text>,
    in_usr_bin: bool,
    in_bin: bool,
)
    requires
        platform != HostPlatform::Windows,
        path_laws::is_open(cwd),
        cwd[0] == '/',
        parts.len() > 1,
        path_laws::are_parts(parts),
    ensures
        ({
            let result = pipeline::phase_executable(
                platform,
                spec,
                cwd,
                text_laws::with_between(parts, '/'),
                in_usr_bin,
                in_bin,
            );
            &&& result is Ok <==> are_steps(parts)
            &&& result matches Ok(path) ==> path == stepped(cwd, parts)
        }),
{
    reveal_strlit("/");
    assert("/"@.len() == 1 && "/"@[0] == '/');
    let executable = text_laws::with_between(parts, '/');
    path_laws::lemma_components_are_what_stands_between_slashes(platform, parts);
    path_laws::lemma_between_starts(parts);
    assert(path_laws::is_part(parts[0]));
    assert(parts[0][0] != '/');
    assert(executable.subrange(0, 1)[0] == executable[0]);
    assert(cwd.subrange(0, 1) =~= "/"@);
    text_laws::lemma_first_position(executable, '/', 0);
    let front = text_laws::with_between(parts.drop_last(), '/');
    assert(executable == front.push('/') + parts.last());
    assert(executable[front.len() as int] == '/');
    assert(text::position_of(executable, '/', 0) < executable.len());
    lemma_below_cwd(platform, executable, parts, 0, cwd);
    assert(parts.subrange(0, parts.len() as int) =~= parts);
    if are_steps(parts) {
        assert forall|k: int| 0 <= k < parts.len() implies #[trigger] parts[k] != ".."@ by {
            assert(is_step(parts[k]));
        }
    }
    if pipeline::phase_executable(platform, spec, cwd, executable, in_usr_bin, in_bin) is Ok {
        assert forall|k: int| 0 <= k < parts.len() implies is_step(#[trigger] parts[k]) by {
            assert(path_laws::is_part(parts[k]));
        }
    }
}

/// A command without a directory is found in `/usr/bin` before `/bin` on the system, and where it
/// is in neither, it is refused; inside an image and on other hosts it is left to be searched for.
pub proof fn lemma_plain_commands_are_found_on_the_system(
    platform: HostPlatform,
    spec: PackageSpecView,
    cwd: Text,
    name: Text,
    in_usr_bin: bool,
    in_bin: bool,
)
    requires
        platform != HostPlatform::Windows,
        name.len() > 0,
        text_laws::lacks(name, '/'),
    ensures
        ({
            let result = pipeline::phase_executable(
                platform,
                spec,
                cwd,
                name,
                in_usr_bin,
                in_bin,
            );
            let inside = spec.build_root is Oci && spec.toolchain == ToolchainSource::Rootfs;
            &&& platform != HostPlatform::Linux || inside ==> result == Ok::<Text, Messages>(name)
            &&& platform == HostPlatform::Linux && !inside ==> {
                &&& result is Ok <==> in_usr_bin || in_bin
                &&& in_usr_bin ==> result == Ok::<Text, Messages>("/usr/bin"@ + "/"@ + name)
                &&& !in_usr_bin && in_bin ==> result == Ok::<Text, Messages>(
                    "/bin"@ + "/"@ + name,
                )
            }
        }),
{
    reveal_strlit("/");
    reveal_strlit("/usr/bin");
    reveal_strlit("/bin");
    assert("/"@.len() == 1 && "/"@[0] == '/');
    assert("/usr/bin"@.len() == 8 && "/usr/bin"@[7] == 'n');
    assert("/bin"@.len() == 4 && "/bin"@[3] == 'n');
    assert(name[0] != '/');
    assert(name.subrange(0, 1)[0] == name[0]);
    text_laws::lemma_first_position(name, '/', 0);
    path_laws::lemma_paths_are_joined_with_a_slash(HostPlatform::Linux, "/usr/bin"@, name);
    path_laws::lemma_paths_are_joined_with_a_slash(HostPlatform::Linux, "/bin"@, name);
}

/// Whether a root and tools go together: those of the system without declared tools, an empty
/// root with some, and an image with its own.
pub open spec fn go_together(spec: PackageSpecView) -> bool {
    ||| spec.build_root is System && spec.toolchain == ToolchainSource::System
        && spec.toolchain_inputs.len() == 0
    ||| spec.build_root is Scratch && spec.toolchain == ToolchainSource::System
        && spec.toolchain_inputs.len() > 0
    ||| spec.build_root is Oci && spec.toolchain == ToolchainSource::Rootfs
}

proof fn lemma_tools(tools: Seq<Text>, existing: Seq<bool>, from: int)
    requires
        0 <= from <= tools.len() == existing.len(),
    ensures
        pipeline::tools_check(tools, existing, from) is Ok <==> forall|i: int|
            from <= i < tools.len() ==> (#[trigger] tools[i]).len() > 0 && tools[i][0] == '/'
                && existing[i],
    decreases tools.len() - from,
{
    if from < tools.len() {
        reveal_strlit("/");
        assert("/"@.len() == 1 && "/"@[0] == '/');
        lemma_tools(tools, existing, from + 1);
        let tool = tools[from];
        if tool.len() > 0 {
            assert(tool.subrange(0, 1)[0] == tool[0]);
            if tool[0] == '/' {
                assert(tool.subrange(0, 1) =~= "/"@);
            }
        }
    }
}

/// A package can be built on Linux if and only if its root and its tools go together, the declared
/// tools are there under absolute paths, and it is for the host unless it is built in an image.
pub proof fn lemma_builds_are_possible_on_linux(
    spec: PackageSpecView,
    host: Text,
    existing: Seq<bool>,
)
    requires
        existing.len() == spec.toolchain_inputs.len(),
    ensures
        pipeline::pipeline_check(HostPlatform::Linux, spec, host, existing) is Ok <==> {
            &&& go_together(spec)
            &&& forall|i: int|
                0 <= i < spec.toolchain_inputs.len() ==> (
                #[trigger] spec.toolchain_inputs[i]).len() > 0 && spec.toolchain_inputs[i][0] == '/'
                    && existing[i]
            &&& spec.build_root is Oci || (spec.build_arch == host && spec.target_arch == host)
        },
{
    lemma_tools(spec.toolchain_inputs, existing, 0);
}

/// On other hosts a package can be built if and only if it declares no tools and is either built
/// for the host with the tools of the system or built in an image with those of the image.
pub proof fn lemma_builds_are_possible_on_other_hosts(
    platform: HostPlatform,
    spec: PackageSpecView,
    host: Text,
    existing: Seq<bool>,
)
    requires
        platform != HostPlatform::Linux,
    ensures
        pipeline::pipeline_check(platform, spec, host, existing) is Ok <==> {
            &&& spec.toolchain_inputs.len() == 0
            &&& ({
                ||| spec.build_root is System && spec.toolchain == ToolchainSource::System
                    && spec.build_arch == host && spec.target_arch == host
                ||| spec.build_root is Oci && spec.toolchain == ToolchainSource::Rootfs
            })
        },
{
}

/// The exports of a package are looked for in what it installed or staged, and in its build and
/// its sources only where it is built by hand and does neither.
pub proof fn lemma_exports_are_looked_for_where_they_are_put(
    spec: PackageSpecView,
    roots: BuildRootsView,
)
    ensures
        ({
            let places = pipeline::export_candidates(spec, roots);
            let loose = spec.build_system == BuildSystem::Manual && spec.install.len() == 0
                && spec.stage_entries.len() == 0;
            &&& loose ==> places.len() == 2 && places[0].root == roots.build && places[1].root
                == roots.source
            &&& !loose ==> places.len() == 1 && places[0].root == roots.prefix
        }),
{
}

/// Whether what is found at a path may be exported: it stays below the directory it is found in,
/// and is a file, a link or, where that is allowed, a directory.
pub open spec fn may_be_exported(
    platform: HostPlatform,
    allow_directory: bool,
    entry: FoundEntryView,
) -> bool {
    &&& paths::below(platform, entry.resolved_path, entry.resolved_root)
    &&& ({
        ||| entry.kind == EntryKind::File
        ||| entry.kind == EntryKind::Symlink
        ||| entry.kind == EntryKind::Directory && allow_directory
    })
}

/// The directories that hold something, in order.
pub open spec fn holders(
    candidates: Seq<ExportCandidateRootView>,
    found: Seq<Option<FoundEntryView>>,
    count: int,
) -> Seq<ExportCandidateRootView>
    decreases count,
{
    if count <= 0 {
        Seq::empty()
    } else if found[count - 1] is Some {
        holders(candidates, found, count - 1).push(candidates[count - 1])
    } else {
        holders(candidates, found, count - 1)
    }
}

proof fn lemma_matches(
    platform: HostPlatform,
    candidates: Seq<ExportCandidateRootView>,
    relative: Text,
    allow_directory: bool,
    found: Seq<Option<FoundEntryView>>,
    from: int,
    done: Seq<ExportCandidateRootView>,
)
    requires
        0 <= from <= candidates.len() == found.len(),
        done == holders(candidates, found, from),
    ensures
        ({
            let result = exports::matches_from(
                platform,
                candidates,
                relative,
                allow_directory,
                found,
                from,
                done,
            );
            &&& result is Ok <==> forall|i: int|
                from <= i < found.len() && #[trigger] found[i] is Some ==> may_be_exported(
                    platform,
                    allow_directory,
                    found[i]->Some_0,
                )
            &&& result matches Ok(matching) ==> matching == holders(
                candidates,
                found,
                found.len() as int,
            )
        }),
    decreases candidates.len() - from,
{
    if from < candidates.len() {
        let next = if found[from] is Some {
            done.push(candidates[from])
        } else {
            done
        };
        lemma_matches(
            platform,
            candidates,
            relative,
            allow_directory,
            found,
            from + 1,
            next,
        );
    }
}

/// An exported path is taken from the only directory that holds it: where none does, more than one
/// does or what stands there may not be exported, it is refused.
pub proof fn lemma_exports_are_found_in_exactly_one_place(
    platform: HostPlatform,
    candidates: Seq<ExportCandidateRootView>,
    relative: Text,
    allow_directory: bool,
    found: Seq<Option<FoundEntryView>>,
)
    requires
        candidates.len() == found.len(),
    ensures
        ({
            let result = exports::export_source(
                platform,
                candidates,
                relative,
                allow_directory,
                found,
            );
            let places = holders(candidates, found, found.len() as int);
            &&& result is Ok <==> places.len() == 1 && forall|i: int|
                0 <= i < found.len() && #[trigger] found[i] is Some ==> may_be_exported(
                    platform,
                    allow_directory,
                    found[i]->Some_0,
                )
            &&& result matches Ok(export) ==> export.root == places[0].root
                && export.relative_path == relative && export.allow_directory == allow_directory
        }),
{
    lemma_matches(platform, candidates, relative, allow_directory, found, 0, Seq::empty());
}

/// What stands at a path is copied if and only if it stays below its root and, a link, leads to
/// what does, and it is a file, a link or, where that is allowed, a directory; each is copied as
/// what it is.
pub proof fn lemma_what_may_be_copied_is_copied(
    platform: HostPlatform,
    purpose: CopyPurpose,
    from: CopySourceView,
    allow_directory: bool,
)
    ensures
        ({
            let result = copying::copy_of(platform, purpose, from, allow_directory);
            let stays = paths::below(platform, from.resolved_path, from.resolved_root);
            &&& from.kind is File ==> (result is Ok <==> stays)
            &&& from.kind is Directory ==> (result is Ok <==> stays && allow_directory)
            &&& from.kind is Other ==> result is Err
            &&& from.kind matches SourceKindView::Link(link) ==> (result is Ok <==> stays
                && paths::below(platform, link.resolved_target, from.resolved_root))
            &&& result matches Ok(action) ==> {
                &&& from.kind is File ==> action == CopyAction::File
                &&& from.kind is Directory ==> action == CopyAction::Tree
                &&& from.kind is Link ==> action == CopyAction::Link
            }
        }),
{
}

/// Whether an entry of a listing is a file or a link.
pub open spec fn is_kept(entry: (Text, EntryKind)) -> bool {
    entry.1 == EntryKind::File || entry.1 == EntryKind::Symlink
}

proof fn lemma_files_below(
    platform: HostPlatform,
    relative: Text,
    listing: Seq<(Text, EntryKind)>,
    count: int,
)
    requires
        0 <= count <= listing.len(),
    ensures
        ({
            let files = exports::files_below(platform, relative, listing, count);
            &&& forall|i: int|
                0 <= i < count && is_kept(#[trigger] listing[i]) ==> files.contains(
                    paths::joined_path(platform, relative, listing[i].0),
                )
            &&& forall|k: int|
                0 <= k < files.len() ==> exists|i: int|
                    0 <= i < count && is_kept(#[trigger] listing[i]) && #[trigger] files[k]
                        == paths::joined_path(platform, relative, listing[i].0)
        }),
    decreases count,
{
    if count > 0 {
        lemma_files_below(platform, relative, listing, count - 1);
        let before = exports::files_below(platform, relative, listing, count - 1);
        let files = exports::files_below(platform, relative, listing, count);
        let last = listing[count - 1];
        assert forall|i: int| 0 <= i < count
            && is_kept(#[trigger] listing[i]) implies files.contains(
            paths::joined_path(platform, relative, listing[i].0),
        ) by {
            let path = paths::joined_path(platform, relative, listing[i].0);
            if i < count - 1 {
                assert(before.contains(path));
                let at = before.index_of(path);
                assert(files[at] == path);
            } else {
                assert(files[before.len() as int] == path);
            }
        }
        assert forall|k: int| 0 <= k < files.len() implies exists|i: int|
            0 <= i < count && is_kept(#[trigger] listing[i]) && #[trigger] files[k]
                == paths::joined_path(platform, relative, listing[i].0) by {
            if k < before.len() {
                assert(files[k] == before[k]);
                let i = choose|i: int|
                    0 <= i < count - 1 && is_kept(#[trigger] listing[i]) && before[k]
                        == paths::joined_path(platform, relative, listing[i].0);
                assert(is_kept(listing[i]));
            } else {
                assert(is_kept(last));
            }
        }
    }
}

/// An exported file or link stands for itself, and an exported directory, where it is allowed, for
/// the files and links below it; anything else is refused.
pub proof fn lemma_exports_stand_for_their_files(
    platform: HostPlatform,
    root: Text,
    relative: Text,
    allow_directory: bool,
    kind: EntryKind,
    listing: Seq<(Text, EntryKind)>,
)
    ensures
        ({
            let result = exports::export_files(
                platform,
                root,
                relative,
                allow_directory,
                kind,
                listing,
            );
            &&& kind == EntryKind::File || kind == EntryKind::Symlink ==> result == Ok::<
                Seq<Text>,
                Messages,
            >(seq![relative])
            &&& kind == EntryKind::Other ==> result is Err
            &&& kind == EntryKind::Directory ==> (result is Ok <==> allow_directory)
            &&& kind == EntryKind::Directory ==> (result matches Ok(files) ==> {
                &&& forall|i: int|
                    0 <= i < listing.len() && is_kept(#[trigger] listing[i]) ==> files.contains(
                        paths::joined_path(platform, relative, listing[i].0),
                    )
                &&& forall|k: int|
                    0 <= k < files.len() ==> exists|i: int|
                        0 <= i < listing.len() && is_kept(#[trigger] listing[i])
                            && #[trigger] files[k] == paths::joined_path(
                            platform,
                            relative,
                            listing[i].0,
                        )
            })
        }),
{
    lemma_files_below(platform, relative, listing, listing.len() as int);
}

} // verus!
