//! What is made of what a host tells of itself: its directories, its tools and its providers.

use vstd::prelude::*;
use crate::arch;
use crate::arguments;
use crate::catalog;
use crate::catalog::{EmbeddedAction, EmbeddedSlot};
use crate::digest;
use crate::environment;
use crate::environment::MountView;
use crate::failure::Messages;
use crate::layout;
use crate::layout::HostHome;
use crate::model::{BuildRootView, PackageSpecView, Text, ToolchainSource};
use crate::path_laws;
use crate::paths;
use crate::paths::HostPlatform;
use crate::pipeline;
use crate::provider;
use crate::provider::{ProviderLayoutView, ProviderSelection};
use crate::records;
use crate::render_laws;
use crate::text;
use crate::text_laws;

verus! {

/// The home directory is the one that the host names first, `USERPROFILE` on Windows and `HOME`
/// elsewhere, else the other one.
pub proof fn lemma_homes_are_found(platform: HostPlatform, host: HostHome)
    ensures
        platform != HostPlatform::Windows && host.home is Some ==> layout::home_of(platform, host)
            == Some(host.home->Some_0@),
        platform == HostPlatform::Windows && host.user_profile is Some ==> layout::home_of(
            platform,
            host,
        ) == Some(host.user_profile->Some_0@),
        host.home is None && host.user_profile is Some ==> layout::home_of(platform, host) == Some(
            host.user_profile->Some_0@,
        ),
        host.home is Some && host.user_profile is None ==> layout::home_of(platform, host) == Some(
            host.home->Some_0@,
        ),
        host.home is None && host.user_profile is None ==> (layout::home_of(platform, host) is Some
            <==> host.home_drive is Some && host.home_path is Some),
{
}

/// A toolchain stands where the host says, else in its own directory below the home directory, and
/// counts only under an absolute path.
pub proof fn lemma_toolchains_are_found(
    platform: HostPlatform,
    named: Option<Text>,
    home: Option<Text>,
    suffix: Text,
)
    requires
        platform != HostPlatform::Windows,
        path_laws::is_name(suffix),
    ensures
        ({
            let found = environment::toolchain_directory(platform, named, home, suffix);
            &&& named matches Some(path) ==> found == if path.len() > 0 && path[0] == '/' {
                Some(path)
            } else {
                None
            }
            &&& named is None && home is None ==> found is None
            &&& named is None && home is Some && path_laws::is_open(home->Some_0) ==> found == if (
            home->Some_0)[0] == '/' {
                Some(home->Some_0 + "/"@ + suffix)
            } else {
                None
            }
        }),
{
    reveal_strlit("/");
    assert("/"@.len() == 1 && "/"@[0] == '/');
    if let Some(path) = named {
        lemma_absolute(path);
    } else if let Some(home) = home {
        path_laws::lemma_paths_are_joined_with_a_slash(platform, home, suffix);
        if path_laws::is_open(home) {
            let path = home + "/"@ + suffix;
            lemma_absolute(path);
            assert(path[0] == home[0]);
        }
    }
}

proof fn lemma_absolute(path: Text)
    ensures
        paths::absolute(path) <==> path.len() > 0 && path[0] == '/',
{
    reveal_strlit("/");
    assert("/"@.len() == 1 && "/"@[0] == '/');
    if path.len() > 0 {
        assert(path.subrange(0, 1)[0] == path[0]);
        if path[0] == '/' {
            assert(path.subrange(0, 1) =~= "/"@);
        }
    }
}

/// The directory of a declared tool is the tool where it is one, else the directory that holds
/// it.
pub proof fn lemma_tools_stand_in_their_directory(
    platform: HostPlatform,
    parts: Seq<Text>,
    is_dir: bool,
)
    requires
        platform != HostPlatform::Windows,
        parts.len() > 1,
        path_laws::are_parts(parts),
        text_laws::lacks(path_laws::rooted_at_slash(parts), '\\'),
        text_laws::lacks(path_laws::rooted_at_slash(parts.drop_last()), '\\'),
    ensures
        environment::tool_directory(platform, path_laws::rooted_at_slash(parts), is_dir) == if is_dir {
            path_laws::rooted_at_slash(parts)
        } else {
            path_laws::rooted_at_slash(parts.drop_last())
        },
{
    let whole = path_laws::rooted_at_slash(parts);
    let holder = path_laws::rooted_at_slash(parts.drop_last());
    path_laws::lemma_parents_lack_the_last_component(platform, parts);
    text_laws::lemma_replaced_everywhere(whole, Seq::empty(), '\\', "/"@);
    text_laws::lemma_replaced_everywhere(holder, Seq::empty(), '\\', "/"@);
}

/// The character that stands for another in the name of a variable.
pub open spec fn capital(c: char) -> char {
    if 'a' <= c <= 'z' {
        (c as u32 - 32) as char
    } else if ('A' <= c <= 'Z') || ('0' <= c <= '9') {
        c
    } else {
        '_'
    }
}

/// A name of ASCII characters becomes a part of the name of a variable letter by letter: letters
/// as capitals, digits as they are, and anything else as an underscore.
pub proof fn lemma_names_become_capitals(value: Text, index: int)
    requires
        vstd::utf8::is_ascii_chars(value),
        0 <= index < value.len(),
    ensures
        environment::env_fragment(value).len() == value.len(),
        environment::env_fragment(value)[index] == capital(value[index]),
{
    vstd::utf8::is_ascii_chars_encode_utf8(value);
    let bytes = vstd::utf8::encode_utf8(value);
    assert(bytes.len() == value.len());
    assert(value[index] as u8 == bytes[index]);
    let number = value[index] as u32;
    assert(number < 128);
    assert((number as u8) as u32 == number) by (bit_vector)
        requires
            number < 128,
    ;
}

/// An image is asked for by its reference, and for the architecture of the build where that is
/// not the one of the host; without an image nothing is asked for.
pub proof fn lemma_images_are_asked_for(spec: PackageSpecView, host: Text)
    ensures
        pipeline::image_request(spec, host) is Some <==> spec.build_root is Oci,
        spec.build_root matches BuildRootView::Oci(reference) ==> pipeline::image_request(
            spec,
            host,
        ) == Some(
            (
                reference,
                if spec.build_arch == host {
                    None
                } else {
                    Some(spec.build_arch)
                },
            ),
        ),
{
}

/// Inside an image the architecture of the build is emulated where it is foreign, else that of the
/// target where that is; no other build emulates any.
pub proof fn lemma_foreign_architectures_are_emulated(
    host: Text,
    spec: PackageSpecView,
    own: Text,
    build: Text,
    target: Text,
)
    requires
        arch::arch_named(host) == Ok::<Text, Messages>(own),
        arch::arch_named(spec.build_arch) == Ok::<Text, Messages>(build),
        arch::arch_named(spec.target_arch) == Ok::<Text, Messages>(target),
    ensures
        ({
            let inside = spec.build_root is Oci && spec.toolchain == ToolchainSource::Rootfs;
            let emulated = pipeline::emulated_arch(host, spec);
            &&& emulated is Ok
            &&& !inside ==> emulated->Ok_0 is None
            &&& inside && build != own ==> emulated->Ok_0 == Some(build)
            &&& inside && build == own && target != own ==> emulated->Ok_0 == Some(target)
            &&& inside && build == own && target == own ==> emulated->Ok_0 is None
        }),
{
}

/// What a command prints is kept behind what was kept before, and its last line is ended.
pub proof fn lemma_prints_are_kept(log: Text, printed: Text)
    ensures
        printed.len() == 0 ==> pipeline::noted(log, printed) == log,
        printed.len() > 0 ==> pipeline::noted(log, printed).last() == '\n'
            && pipeline::noted(log, printed).take((log.len() + printed.len()) as int) == log
            + printed && pipeline::noted(log, printed).len() <= log.len() + printed.len() + 1,
{
    reveal_strlit("\n");
    assert("\n"@.len() == 1 && "\n"@[0] == '\n');
    let all = log + printed;
    assert(all.take(all.len() as int) =~= all);
    assert((all + "\n"@).take(all.len() as int) =~= all);
}

/// A provider is chosen by its name, each on its own system only; without a name any will do.
pub proof fn lemma_providers_are_chosen_by_name(platform: HostPlatform, value: Text)
    ensures
        provider::selection_of(None) == Ok::<ProviderSelection, Messages>(ProviderSelection::Auto),
        text::trimmed(value) == "auto"@ || text::trimmed(value) == ""@ ==> provider::selection_of(
            Some(value),
        ) == Ok::<ProviderSelection, Messages>(ProviderSelection::Auto),
        text::trimmed(value) == "wsl2"@ ==> provider::selection_of(Some(value)) == Ok::<
            ProviderSelection,
            Messages,
        >(ProviderSelection::Wsl2),
        text::trimmed(value) == "mac-local"@ ==> provider::selection_of(Some(value)) == Ok::<
            ProviderSelection,
            Messages,
        >(ProviderSelection::MacLocal),
        provider::selection_of(Some(value)) is Ok ==> text::trimmed(value) == "auto"@
            || text::trimmed(value) == ""@ || text::trimmed(value) == "wsl2"@ || text::trimmed(
            value,
        ) == "mac-local"@,
        provider::selection_check(platform, ProviderSelection::Wsl2) is Ok <==> platform
            != HostPlatform::Macos,
        provider::selection_check(platform, ProviderSelection::MacLocal) is Ok <==> platform
            != HostPlatform::Windows,
        provider::selection_check(platform, ProviderSelection::Auto) is Ok,
{
    reveal_strlit("");
    reveal_strlit("auto");
    reveal_strlit("wsl2");
    reveal_strlit("mac-local");
    assert(""@.len() == 0 && "auto"@.len() == 4 && "auto"@[0] == 'a');
    assert("wsl2"@.len() == 4 && "wsl2"@[0] == 'w' && "mac-local"@.len() == 9);
}

/// What a provider keeps stands below its own root, under fixed names, and its copy of the sources
/// of this program under the name that they have.
pub proof fn lemma_providers_keep_what_they_need(
    platform: HostPlatform,
    root: Text,
    parts: Seq<Text>,
    layout: ProviderLayoutView,
)
    requires
        platform != HostPlatform::Windows,
        parts.len() > 0,
        path_laws::are_parts(parts),
        parts.last() != ".."@,
        root != "/"@,
        provider::layout_of(platform, root, path_laws::rooted_at_slash(parts)) == Ok::<
            ProviderLayoutView,
            Messages,
        >(layout),
    ensures
        layout.root == root,
        layout.cache_root == root + "/"@ + "toolchain-cache"@,
        layout.repo_parent == root + "/"@ + "repo-source"@,
        layout.repo_root == root + "/"@ + "repo-source"@ + "/"@ + parts.last(),
        layout.target_root == root + "/"@ + "cargo-target"@,
        layout.binary_path == root + "/"@ + "cargo-target"@ + "/release/depos"@,
{
    path_laws::lemma_components_are_what_stands_between_slashes(platform, parts);
    assert((seq!["/"@] + parts).last() == parts.last());
}

/// What a DepoFile that is found in the sources of a package is good for: one of the package
/// itself and one that is registered by hand are left aside, one that is new is copied, and one
/// that differs from an earlier one is refused.
pub proof fn lemma_found_depofiles_are_copied_once(
    owner: PackageSpecView,
    found: PackageSpecView,
    overridden: bool,
    slot: EmbeddedSlot,
    destination: Text,
    path: Text,
)
    ensures
        ({
            let decision = catalog::embedded_decision(
                owner,
                found,
                overridden,
                slot,
                destination,
                path,
            );
            let aside = overridden || (found.name == owner.name && found.version == owner.version);
            &&& aside ==> decision == Ok::<EmbeddedAction, Messages>(EmbeddedAction::Skip)
            &&& !aside && slot == EmbeddedSlot::Free ==> decision == Ok::<EmbeddedAction, Messages>(
                EmbeddedAction::Copy,
            )
            &&& !aside && slot == EmbeddedSlot::SameContents ==> decision == Ok::<
                EmbeddedAction,
                Messages,
            >(EmbeddedAction::Skip)
            &&& !aside && slot == EmbeddedSlot::OtherContents ==> decision is Err
        }),
{
}

/// A file is a DepoFile if and only if something stands before the extension of one in its name.
pub proof fn lemma_depofiles_are_told_by_their_extension(name: Text, front: Text)
    ensures
        name == front + ".DepoFile"@ && front.len() > 0 ==> catalog::is_depofile_name(name),
        catalog::is_depofile_name(name) ==> name.len() > 9 && name == name.take(name.len() - 9)
            + ".DepoFile"@,
{
    reveal_strlit(".DepoFile");
    assert(".DepoFile"@.len() == 9);
    if name == front + ".DepoFile"@ {
        assert(name.subrange(name.len() - 9, name.len() as int) =~= ".DepoFile"@);
    }
    if catalog::is_depofile_name(name) {
        assert(name =~= name.take(name.len() - 9) + name.subrange(
            name.len() - 9,
            name.len() as int,
        ));
    }
}

/// A registry profile is named after the digest of its manifest.
pub proof fn lemma_profiles_are_named_by_digest(digest: Text)
    requires
        digest.len() >= 16,
    ensures
        digest::profile_named(digest) == "manifest-"@ + digest.take(16),
{
    assert(digest.take(16) =~= digest.subrange(0, 16));
}

proof fn lemma_mounts(
    sources: Seq<Text>,
    destinations: Seq<Text>,
    modes: Seq<Text>,
    from: int,
    done: Seq<MountView>,
)
    requires
        0 <= from == done.len() <= sources.len() == destinations.len() == modes.len(),
        forall|i: int|
            0 <= i < from ==> is_mount(sources[i], destinations[i], modes[i], #[trigger] done[i]),
    ensures
        arguments::mounts_from(sources, destinations, modes, from, done) is Ok <==> forall|i: int|
            from <= i < modes.len() ==> #[trigger] modes[i] == "ro"@ || modes[i] == "rw"@,
        arguments::mounts_from(sources, destinations, modes, from, done) matches Ok(mounts)
            ==> mounts.len() == sources.len() && forall|i: int|
            0 <= i < mounts.len() ==> is_mount(
                sources[i],
                destinations[i],
                modes[i],
                #[trigger] mounts[i],
            ),
    decreases sources.len() - from,
{
    if from < sources.len() && (modes[from] == "ro"@ || modes[from] == "rw"@) {
        let next = done.push(
            MountView {
                source: sources[from],
                destination: destinations[from],
                read_only: modes[from] == "ro"@,
            },
        );
        assert forall|i: int| 0 <= i < next.len() implies is_mount(
            sources[i],
            destinations[i],
            modes[i],
            #[trigger] next[i],
        ) by {
            if i < done.len() {
                assert(next[i] == done[i]);
            }
        }
        lemma_mounts(sources, destinations, modes, from + 1, next);
    }
}

/// Whether a mount is what three words describe.
pub open spec fn is_mount(source: Text, destination: Text, mode: Text, mount: MountView) -> bool {
    &&& mount.source == source
    &&& mount.destination == destination
    &&& mount.read_only <==> mode == "ro"@
}

/// Mounts are described one by one by where they come from, where they go and whether they may be
/// changed, `ro` or `rw`; anything else is refused.
pub proof fn lemma_mounts_are_as_described(
    sources: Seq<Text>,
    destinations: Seq<Text>,
    modes: Seq<Text>,
)
    ensures
        arguments::mounts_named(sources, destinations, modes) is Ok <==> sources.len()
            == destinations.len() && sources.len() == modes.len() && forall|i: int|
            0 <= i < modes.len() ==> #[trigger] modes[i] == "ro"@ || modes[i] == "rw"@,
        arguments::mounts_named(sources, destinations, modes) matches Ok(mounts) ==> mounts.len()
            == sources.len() && forall|i: int|
            0 <= i < mounts.len() ==> is_mount(
                sources[i],
                destinations[i],
                modes[i],
                #[trigger] mounts[i],
            ),
{
    if sources.len() == destinations.len() && sources.len() == modes.len() {
        lemma_mounts(sources, destinations, modes, 0, Seq::empty());
    }
}

proof fn lemma_path_line(platform: HostPlatform, exported: Seq<Text>, count: int, at: int)
    requires
        0 <= at < count <= exported.len(),
    ensures
        render_laws::holds(
            records::path_lines(platform, exported, count),
            "PATH "@ + paths::shown_path(platform, exported[at]) + "\n"@,
        ),
    decreases count,
{
    let before = records::path_lines(platform, exported, count - 1);
    let last = "PATH "@ + paths::shown_path(platform, exported[count - 1]) + "\n"@;
    let whole = records::path_lines(platform, exported, count);
    assert(whole =~= before + last);
    if at < count - 1 {
        lemma_path_line(platform, exported, count - 1, at);
    }
    render_laws::lemma_holds_in_sum(
        whole,
        before,
        last,
        "PATH "@ + paths::shown_path(platform, exported[at]) + "\n"@,
    );
}

/// The record about exports starts with the store and holds a line for every exported path.
pub proof fn lemma_export_records_hold_every_path(
    platform: HostPlatform,
    store_root: Text,
    exported: Seq<Text>,
    index: int,
) -> (at: int)
    requires
        0 <= index < exported.len(),
    ensures
        ({
            let kept = paths::distinct_paths(platform, exported);
            let record = records::exports_text(platform, store_root, exported);
            &&& 0 <= at < kept.len()
            &&& paths::same_path(platform, kept[at], exported[index])
            &&& render_laws::holds(
                record,
                "PATH "@ + paths::shown_path(platform, kept[at]) + "\n"@,
            )
            &&& render_laws::holds(
                record,
                "STORE_ROOT "@ + paths::shown_path(platform, store_root) + "\n"@,
            )
        }),
{
    let kept = paths::distinct_paths(platform, exported);
    let at = crate::registry_laws::lemma_distinct_paths_name_all(platform, exported, index);
    let head = "STORE_ROOT "@ + paths::shown_path(platform, store_root) + "\n"@;
    let lines = records::path_lines(platform, kept, kept.len() as int);
    let line = "PATH "@ + paths::shown_path(platform, kept[at]) + "\n"@;
    lemma_path_line(platform, kept, kept.len() as int, at);
    render_laws::lemma_holds_in_either(head, lines, line);
    render_laws::lemma_holds_itself(head);
    render_laws::lemma_holds_in_either(head, lines, head);
    at
}

} // verus!
