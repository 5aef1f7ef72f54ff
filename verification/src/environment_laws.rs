//! What the commands of a build on Linux find in their environment.

use vstd::prelude::*;
use crate::arch;
use crate::environment;
use crate::environment::{HostFactsView, MountView};
use crate::failure::Messages;
use crate::model::{BuildSystem, PackageSpecView, Text, ToolchainSource};
use crate::path_laws;
use crate::paths::HostPlatform;
use crate::text;
use crate::text_laws;

verus! {

/// Of two lists of values the later one counts, as far as it has any.
pub proof fn lemma_later_values_count(
    before: Seq<(Text, Text)>,
    behind: Seq<(Text, Text)>,
    name: Text,
)
    ensures
        text::value_of(before + behind, name) == match text::value_of(behind, name) {
            Some(value) => Some(value),
            None => text::value_of(before, name),
        },
    decreases behind.len(),
{
    let all = before + behind;
    if behind.len() == 0 {
        assert(all =~= before);
    } else {
        let fewer = behind.drop_last();
        lemma_later_values_count(before, fewer, name);
        assert(all.drop_last() =~= before + fewer);
        lemma_last_pair_counts(all, name);
        lemma_last_pair_counts(behind, name);
    }
}

proof fn lemma_last_pair_counts(pairs: Seq<(Text, Text)>, name: Text)
    requires
        pairs.len() > 0,
    ensures
        text::value_of(pairs, name) == if pairs.last().0 == name {
            Some(pairs.last().1)
        } else {
            text::value_of(pairs.drop_last(), name)
        },
{
    lemma_shorter_list(pairs, name, pairs.len() - 1);
}

proof fn lemma_shorter_list(pairs: Seq<(Text, Text)>, name: Text, count: int)
    requires
        0 <= count < pairs.len(),
    ensures
        text::last_paired(pairs, name, count) == text::last_paired(pairs.drop_last(), name, count),
    decreases count,
{
    if count > 0 {
        lemma_shorter_list(pairs, name, count - 1);
    }
}

proof fn lemma_no_value(pairs: Seq<(Text, Text)>, name: Text, count: int)
    requires
        0 <= count <= pairs.len(),
        forall|i: int| 0 <= i < count ==> (#[trigger] pairs[i]).0 != name,
    ensures
        text::last_paired(pairs, name, count) is None,
    decreases count,
{
    if count > 0 {
        lemma_no_value(pairs, name, count - 1);
    }
}

proof fn lemma_variable_names()
    ensures
        "PATH"@.len() == 4 && "PATH"@[0] == 'P',
        "HOME"@.len() == 4 && "HOME"@[0] == 'H',
        "TMPDIR"@.len() == 6 && "TMPDIR"@[0] == 'T',
        "DEPO_SOURCE_DIR"@.len() == 15 && "DEPO_SOURCE_DIR"@[0] == 'D'
            && "DEPO_SOURCE_DIR"@[5] == 'S',
        "DEPO_BUILD_DIR"@.len() == 14 && "DEPO_BUILD_DIR"@[0] == 'D' && "DEPO_BUILD_DIR"@[5] == 'B',
        "DEPO_PREFIX"@.len() == 11 && "DEPO_PREFIX"@[0] == 'D' && "DEPO_PREFIX"@[5] == 'P',
        "DEPO_DEPS_DIR"@.len() == 13 && "DEPO_DEPS_DIR"@[0] == 'D' && "DEPO_DEPS_DIR"@[8] == 'S',
        "DEPO_BUILD_ARCH"@.len() == 15 && "DEPO_BUILD_ARCH"@[0] == 'D'
            && "DEPO_BUILD_ARCH"@[5] == 'B',
        "DEPO_TARGET_ARCH"@.len() == 16 && "DEPO_TARGET_ARCH"@[0] == 'D'
            && "DEPO_TARGET_ARCH"@[5] == 'T',
        "DEPO_BUILD_TRIPLE"@.len() == 17 && "DEPO_BUILD_TRIPLE"@[0] == 'D'
            && "DEPO_BUILD_TRIPLE"@[5] == 'B',
        "DEPO_TARGET_TRIPLE"@.len() == 18 && "DEPO_TARGET_TRIPLE"@[0] == 'D'
            && "DEPO_TARGET_TRIPLE"@[5] == 'T',
        "CC"@.len() == 2 && "CC"@[0] == 'C',
        "CXX"@.len() == 3 && "CXX"@[0] == 'C' && "CXX"@[1] == 'X',
        "AR"@.len() == 2 && "AR"@[0] == 'A',
        "RANLIB"@.len() == 6 && "RANLIB"@[0] == 'R',
        "STRIP"@.len() == 5 && "STRIP"@[0] == 'S',
        "CFLAGS"@.len() == 6 && "CFLAGS"@[0] == 'C' && "CFLAGS"@[1] == 'F',
        "CXXFLAGS"@.len() == 8 && "CXXFLAGS"@[0] == 'C' && "CXXFLAGS"@[1] == 'X'
            && "CXXFLAGS"@[3] == 'F',
        "LDFLAGS"@.len() == 7 && "LDFLAGS"@[0] == 'L',
        "QEMU_LD_PREFIX"@.len() == 14 && "QEMU_LD_PREFIX"@[0] == 'Q',
        "PKG_CONFIG_ALLOW_CROSS"@.len() == 22 && "PKG_CONFIG_ALLOW_CROSS"@[0] == 'P',
        "CARGO_HOME"@.len() == 10 && "CARGO_HOME"@[0] == 'C' && "CARGO_HOME"@[1] == 'A',
        "RUSTUP_HOME"@.len() == 11 && "RUSTUP_HOME"@[0] == 'R',
        "CARGO_BUILD_TARGET"@.len() == 18 && "CARGO_BUILD_TARGET"@[0] == 'C'
            && "CARGO_BUILD_TARGET"@[1] == 'A' && "CARGO_BUILD_TARGET"@[6] == 'B',
        "CMAKE_PREFIX_PATH"@.len() == 17 && "CMAKE_PREFIX_PATH"@[0] == 'C'
            && "CMAKE_PREFIX_PATH"@[1] == 'M',
        "PKG_CONFIG_LIBDIR"@.len() == 17 && "PKG_CONFIG_LIBDIR"@[0] == 'P',
        "PKG_CONFIG_DIR"@.len() == 14 && "PKG_CONFIG_DIR"@[0] == 'P',
        "PKG_CONFIG_PATH"@.len() == 15 && "PKG_CONFIG_PATH"@[0] == 'P',
        "CPATH"@.len() == 5 && "CPATH"@[0] == 'C' && "CPATH"@[1] == 'P',
        "LIBRARY_PATH"@.len() == 12 && "LIBRARY_PATH"@[0] == 'L',
        "C_INCLUDE_PATH"@.len() == 14 && "C_INCLUDE_PATH"@[0] == 'C' && "C_INCLUDE_PATH"@[1] == '_',
        "CPLUS_INCLUDE_PATH"@.len() == 18 && "CPLUS_INCLUDE_PATH"@[0] == 'C'
            && "CPLUS_INCLUDE_PATH"@[1] == 'P',
{
    reveal_strlit("PATH");
    reveal_strlit("HOME");
    reveal_strlit("TMPDIR");
    reveal_strlit("DEPO_SOURCE_DIR");
    reveal_strlit("DEPO_BUILD_DIR");
    reveal_strlit("DEPO_PREFIX");
    reveal_strlit("DEPO_DEPS_DIR");
    reveal_strlit("DEPO_BUILD_ARCH");
    reveal_strlit("DEPO_TARGET_ARCH");
    reveal_strlit("DEPO_BUILD_TRIPLE");
    reveal_strlit("DEPO_TARGET_TRIPLE");
    reveal_strlit("CC");
    reveal_strlit("CXX");
    reveal_strlit("AR");
    reveal_strlit("RANLIB");
    reveal_strlit("STRIP");
    reveal_strlit("CFLAGS");
    reveal_strlit("CXXFLAGS");
    reveal_strlit("LDFLAGS");
    reveal_strlit("QEMU_LD_PREFIX");
    reveal_strlit("PKG_CONFIG_ALLOW_CROSS");
    reveal_strlit("CARGO_HOME");
    reveal_strlit("RUSTUP_HOME");
    reveal_strlit("CARGO_BUILD_TARGET");
    reveal_strlit("CMAKE_PREFIX_PATH");
    reveal_strlit("PKG_CONFIG_LIBDIR");
    reveal_strlit("PKG_CONFIG_DIR");
    reveal_strlit("PKG_CONFIG_PATH");
    reveal_strlit("CPATH");
    reveal_strlit("LIBRARY_PATH");
    reveal_strlit("C_INCLUDE_PATH");
    reveal_strlit("CPLUS_INCLUDE_PATH");
}


/// A name of what tells a build where it takes place.
pub open spec fn is_place_name(name: Text) -> bool {
    ||| name == "PATH"@
    ||| name == "HOME"@
    ||| name == "TMPDIR"@
    ||| name == "DEPO_SOURCE_DIR"@
    ||| name == "DEPO_BUILD_DIR"@
    ||| name == "DEPO_PREFIX"@
    ||| name == "DEPO_DEPS_DIR"@
    ||| name == "DEPO_BUILD_ARCH"@
    ||| name == "DEPO_TARGET_ARCH"@
    ||| name == "DEPO_BUILD_TRIPLE"@
    ||| name == "DEPO_TARGET_TRIPLE"@
}

/// A name of what tells a build its tools.
pub open spec fn is_tool_name(name: Text) -> bool {
    ||| name == "CC"@
    ||| name == "CXX"@
    ||| name == "AR"@
    ||| name == "RANLIB"@
    ||| name == "STRIP"@
    ||| name == "CFLAGS"@
    ||| name == "CXXFLAGS"@
    ||| name == "LDFLAGS"@
    ||| name == "QEMU_LD_PREFIX"@
    ||| name == "PKG_CONFIG_ALLOW_CROSS"@
}

/// A name of what tells a build where Rust stands.
pub open spec fn is_rust_name(name: Text) -> bool {
    name == "CARGO_HOME"@ || name == "RUSTUP_HOME"@
}

/// A name of what tells a build where all its dependencies stand.
pub open spec fn is_search_name(name: Text) -> bool {
    name == "CMAKE_PREFIX_PATH"@ || name == "PKG_CONFIG_LIBDIR"@
}

/// One of these names.
spec fn is_fixed(name: Text) -> bool {
    is_place_name(name) || is_tool_name(name) || is_rust_name(name) || is_search_name(name) || name
        == "CARGO_BUILD_TARGET"@
}

proof fn lemma_guards_lack(spec: PackageSpecView, name: Text)
    requires
        is_fixed(name),
    ensures
        text::value_of(environment::library_guards(spec.system_libs), name) is None,
{
    lemma_variable_names();
    let pairs = environment::library_guards(spec.system_libs);
    assert forall|i: int| 0 <= i < pairs.len() implies (#[trigger] pairs[i]).0 != name by {
        assert(i == 0 || i == 1 || i == 2 || i == 3 || i == 4 || i == 5);
    }
    lemma_no_value(pairs, name, pairs.len() as int);
}

proof fn lemma_root_names(spec: PackageSpecView)
    ensures
        environment::root_variable(spec).len() > 9,
        environment::root_variable(spec)[0] == 'D',
        environment::root_variable(spec)[5] == 'D',
        environment::root_variable(spec)[8] == '_',
{
    reveal_strlit("DEPO_DEP_");
    reveal_strlit("_ROOT");
    let head = "DEPO_DEP_"@;
    assert(head.len() == 9 && head[0] == 'D' && head[5] == 'D' && head[8] == '_');
    let name = environment::root_variable(spec);
    assert(name[0] == head[0] && name[5] == head[5] && name[8] == head[8]);
}

proof fn lemma_dependencies_lack(
    dependencies: Seq<PackageSpecView>,
    roots: Seq<Text>,
    separator: Text,
    name: Text,
)
    requires
        is_fixed(name),
        !is_search_name(name),
    ensures
        text::value_of(
            environment::dependency_environment(dependencies, roots, separator),
            name,
        ) is None,
{
    lemma_variable_names();
    let pairs = environment::dependency_environment(dependencies, roots, separator);
    assert forall|i: int| 0 <= i < pairs.len() implies (#[trigger] pairs[i]).0 != name by {
        if i >= 2 {
            assert(pairs[i].0 == environment::root_variable(dependencies[i - 2]));
            lemma_root_names(dependencies[i - 2]);
        }
    }
    lemma_no_value(pairs, name, pairs.len() as int);
}

proof fn lemma_cross_lacks(spec: PackageSpecView, name: Text)
    requires
        is_fixed(name),
        name != "CARGO_BUILD_TARGET"@,
    ensures
        text::value_of(environment::cargo_cross(spec), name) is None,
{
    lemma_variable_names();
    reveal_strlit("CARGO_TARGET_");
    reveal_strlit("_LINKER");
    reveal_strlit("CC_");
    reveal_strlit("CXX_");
    reveal_strlit("AR_");
    let pairs = environment::cargo_cross(spec);
    if pairs.len() > 0 {
        assert(pairs[1].0[0] == 'C' && pairs[1].0[1] == 'A' && pairs[1].0[6] == 'T');
        assert(pairs[1].0.len() >= 20);
        assert(pairs[2].0[0] == 'C' && pairs[2].0[1] == 'C' && pairs[2].0[2] == '_');
        assert(pairs[3].0[0] == 'C' && pairs[3].0[1] == 'C' && pairs[3].0[2] == '_');
        assert(pairs[4].0[0] == 'C' && pairs[4].0[1] == 'X' && pairs[4].0[3] == '_');
        assert(pairs[5].0[0] == 'C' && pairs[5].0[1] == 'X' && pairs[5].0[3] == '_');
        assert(pairs[6].0[0] == 'A' && pairs[6].0[2] == '_');
        assert(pairs[7].0[0] == 'A' && pairs[7].0[2] == '_');
        assert(pairs[2].0.len() >= 3 && pairs[3].0.len() >= 3 && pairs[4].0.len() >= 4);
        assert(pairs[5].0.len() >= 4 && pairs[6].0.len() >= 3 && pairs[7].0.len() >= 3);
    }
    assert forall|i: int| 0 <= i < pairs.len() implies (#[trigger] pairs[i]).0 != name by {
        assert(i == 0 || i == 1 || i == 2 || i == 3 || i == 4 || i == 5 || i == 6 || i == 7);
    }
    lemma_no_value(pairs, name, pairs.len() as int);
}

proof fn lemma_rust_lacks(spec: PackageSpecView, facts: HostFactsView, name: Text)
    requires
        is_fixed(name),
        !is_rust_name(name),
    ensures
        text::value_of(environment::linux_rust(spec, facts), name) is None,
{
    lemma_variable_names();
    let pairs = environment::linux_rust(spec, facts);
    assert forall|i: int| 0 <= i < pairs.len() implies (#[trigger] pairs[i]).0 != name by {
        assert(i == 0 || i == 1);
    }
    lemma_no_value(pairs, name, pairs.len() as int);
}

proof fn lemma_tools_lack(spec: PackageSpecView, facts: HostFactsView, name: Text)
    requires
        is_fixed(name),
        !is_tool_name(name),
    ensures
        text::value_of(environment::linux_tools(spec, facts), name) is None,
{
    lemma_variable_names();
    let pairs = environment::linux_tools(spec, facts);
    assert forall|i: int| 0 <= i < pairs.len() implies (#[trigger] pairs[i]).0 != name by {
        assert(i == 0 || i == 1 || i == 2 || i == 3 || i == 4 || i == 5 || i == 6 || i == 7 || i
            == 8 || i == 9);
    }
    lemma_no_value(pairs, name, pairs.len() as int);
}

proof fn lemma_place_lacks(spec: PackageSpecView, facts: HostFactsView, name: Text)
    requires
        is_fixed(name),
        !is_place_name(name),
    ensures
        text::value_of(environment::linux_place(spec, facts), name) is None,
{
    lemma_variable_names();
    let pairs = environment::linux_place(spec, facts);
    assert forall|i: int| 0 <= i < pairs.len() implies (#[trigger] pairs[i]).0 != name by {
        assert(i == 0 || i == 1 || i == 2 || i == 3 || i == 4 || i == 5 || i == 6 || i == 7 || i
            == 8 || i == 9 || i == 10);
    }
    lemma_no_value(pairs, name, pairs.len() as int);
}

/// A fixed name has the value of the part of the environment that it belongs to.
proof fn lemma_values_by_part(
    spec: PackageSpecView,
    dependencies: Seq<PackageSpecView>,
    facts: HostFactsView,
    name: Text,
)
    requires
        is_fixed(name),
    ensures
        ({
            let roots = environment::cell_roots(HostPlatform::Linux, dependencies);
            let value = text::value_of(
                environment::linux_environment(spec, dependencies, facts),
                name,
            );
            &&& is_place_name(name) ==> value == text::value_of(
                environment::linux_place(spec, facts),
                name,
            )
            &&& is_tool_name(name) ==> value == text::value_of(
                environment::linux_tools(spec, facts),
                name,
            )
            &&& is_rust_name(name) ==> value == text::value_of(
                environment::linux_rust(spec, facts),
                name,
            )
            &&& name == "CARGO_BUILD_TARGET"@ ==> value == text::value_of(
                environment::cargo_cross(spec),
                name,
            )
            &&& is_search_name(name) ==> value == text::value_of(
                environment::dependency_environment(dependencies, roots, ":"@),
                name,
            )
        }),
{
    lemma_variable_names();
    let roots = environment::cell_roots(HostPlatform::Linux, dependencies);
    let place = environment::linux_place(spec, facts);
    let tools = environment::linux_tools(spec, facts);
    let rust = environment::linux_rust(spec, facts);
    let cross = environment::cargo_cross(spec);
    let needed = environment::dependency_environment(dependencies, roots, ":"@);
    let guards = environment::library_guards(spec.system_libs);
    lemma_later_values_count(place + tools + rust + cross + needed, guards, name);
    lemma_later_values_count(place + tools + rust + cross, needed, name);
    lemma_later_values_count(place + tools + rust, cross, name);
    lemma_later_values_count(place + tools, rust, name);
    lemma_later_values_count(place, tools, name);
    lemma_guards_lack(spec, name);
    if !is_search_name(name) {
        lemma_dependencies_lack(dependencies, roots, ":"@, name);
    }
    if name != "CARGO_BUILD_TARGET"@ {
        lemma_cross_lacks(spec, name);
    }
    if !is_rust_name(name) {
        lemma_rust_lacks(spec, facts, name);
    }
    if !is_tool_name(name) {
        lemma_tools_lack(spec, facts, name);
    }
    if !is_place_name(name) {
        lemma_place_lacks(spec, facts, name);
    }
}

/// Whether a build takes place inside an image with the tools of the image.
pub open spec fn is_inside(spec: PackageSpecView) -> bool {
    spec.build_root is Oci && spec.toolchain == ToolchainSource::Rootfs
}

/// The value that the commands of a build on Linux find under a name.
pub open spec fn found(
    spec: PackageSpecView,
    dependencies: Seq<PackageSpecView>,
    facts: HostFactsView,
    name: Text,
) -> Option<Text> {
    text::value_of(environment::linux_environment(spec, dependencies, facts), name)
}

/// The directories of the declared tools, with colons between them.
pub open spec fn tool_list(spec: PackageSpecView, facts: HostFactsView) -> Text {
    text::joined(
        environment::tool_directories(
            HostPlatform::Linux,
            spec.toolchain_inputs,
            facts.tool_directories,
        ),
        ":"@,
    )
}

/// The commands of a build on Linux find its directories and its architectures under fixed names,
/// and its programs in the directories of the declared tools in an empty root, in these and those
/// of the image inside an image, and else in those of the system.
pub proof fn lemma_builds_find_their_place(
    spec: PackageSpecView,
    dependencies: Seq<PackageSpecView>,
    facts: HostFactsView,
)
    ensures
        found(spec, dependencies, facts, "DEPO_SOURCE_DIR"@) == Some("/work/source"@),
        found(spec, dependencies, facts, "DEPO_BUILD_DIR"@) == Some("/work/build"@),
        found(spec, dependencies, facts, "DEPO_PREFIX"@) == Some("/work/prefix"@),
        found(spec, dependencies, facts, "DEPO_DEPS_DIR"@) == Some("/depos"@),
        found(spec, dependencies, facts, "DEPO_BUILD_ARCH"@) == Some(spec.build_arch),
        found(spec, dependencies, facts, "DEPO_TARGET_ARCH"@) == Some(spec.target_arch),
        found(spec, dependencies, facts, "TMPDIR"@) == Some("/tmp"@),
        found(spec, dependencies, facts, "HOME"@) == Some(
            if facts.provider_mode && is_inside(spec) {
                "/root"@
            } else {
                "/tmp"@
            },
        ),
        spec.build_root is System ==> found(spec, dependencies, facts, "PATH"@) == Some(
            "/usr/bin:/bin"@,
        ),
        spec.build_root is Scratch && spec.toolchain == ToolchainSource::System ==> found(
            spec,
            dependencies,
            facts,
            "PATH"@,
        ) == Some(tool_list(spec, facts)),
        is_inside(spec) && !facts.provider_mode && tool_list(spec, facts).len() == 0 ==> found(
            spec,
            dependencies,
            facts,
            "PATH"@,
        ) == Some("/usr/local/sbin:/usr/local/bin:/usr/sbin:/usr/bin:/sbin:/bin"@),
        is_inside(spec) && !facts.provider_mode && tool_list(spec, facts).len() > 0 ==> found(
            spec,
            dependencies,
            facts,
            "PATH"@,
        ) == Some(
            tool_list(spec, facts) + ":"@
                + "/usr/local/sbin:/usr/local/bin:/usr/sbin:/usr/bin:/sbin:/bin"@,
        ),
        is_inside(spec) && facts.provider_mode && tool_list(spec, facts).len() == 0 ==> found(
            spec,
            dependencies,
            facts,
            "PATH"@,
        ) == Some(
            "/work/build/provider-cargo-home/bin"@ + ":"@
                + "/usr/local/sbin:/usr/local/bin:/usr/sbin:/usr/bin:/sbin:/bin"@,
        ),
{
    lemma_variable_names();
    reveal_strlit("/work/build/provider-cargo-home/bin");
    assert("/work/build/provider-cargo-home/bin"@.len() > 0);
    reveal_with_fuel(text::last_paired, 12);
    lemma_values_by_part(spec, dependencies, facts, "DEPO_SOURCE_DIR"@);
    lemma_values_by_part(spec, dependencies, facts, "DEPO_BUILD_DIR"@);
    lemma_values_by_part(spec, dependencies, facts, "DEPO_PREFIX"@);
    lemma_values_by_part(spec, dependencies, facts, "DEPO_DEPS_DIR"@);
    lemma_values_by_part(spec, dependencies, facts, "DEPO_BUILD_ARCH"@);
    lemma_values_by_part(spec, dependencies, facts, "DEPO_TARGET_ARCH"@);
    lemma_values_by_part(spec, dependencies, facts, "TMPDIR"@);
    lemma_values_by_part(spec, dependencies, facts, "HOME"@);
    lemma_values_by_part(spec, dependencies, facts, "PATH"@);
}

/// The prefix of the cross tools for an architecture.
pub open spec fn tools_for(architecture: Text) -> Text {
    if architecture == "x86_64"@ {
        "x86_64-linux-gnu"@
    } else if architecture == "aarch64"@ {
        "aarch64-linux-gnu"@
    } else {
        "riscv64-linux-gnu"@
    }
}

/// The commands of a build on Linux are told the compilers of the system where the tools of the
/// system are used, and the cross compilers for the target inside an image that builds for another
/// architecture; else they are told none.
pub proof fn lemma_builds_find_their_compilers(
    spec: PackageSpecView,
    dependencies: Seq<PackageSpecView>,
    facts: HostFactsView,
)
    ensures
        spec.toolchain == ToolchainSource::System ==> {
            &&& found(spec, dependencies, facts, "CC"@) == Some("clang"@)
            &&& found(spec, dependencies, facts, "CXX"@) == Some("clang++"@)
            &&& found(spec, dependencies, facts, "AR"@) == Some("ar"@)
            &&& found(spec, dependencies, facts, "RANLIB"@) == Some("ranlib"@)
            &&& found(spec, dependencies, facts, "STRIP"@) == Some("strip"@)
        },
        is_inside(spec) && spec.build_arch != spec.target_arch ==> {
            let tools = tools_for(spec.target_arch);
            &&& found(spec, dependencies, facts, "CC"@) == Some(tools + "-gcc"@)
            &&& found(spec, dependencies, facts, "CXX"@) == Some(tools + "-g++"@)
            &&& found(spec, dependencies, facts, "AR"@) == Some(tools + "-ar"@)
            &&& found(spec, dependencies, facts, "RANLIB"@) == Some(tools + "-ranlib"@)
            &&& found(spec, dependencies, facts, "STRIP"@) == Some(tools + "-strip"@)
            &&& found(spec, dependencies, facts, "PKG_CONFIG_ALLOW_CROSS"@) == Some("1"@)
            &&& spec.build_arch != facts.host_arch ==> found(
                spec,
                dependencies,
                facts,
                "QEMU_LD_PREFIX"@,
            ) == Some("/usr/"@ + tools_for(spec.build_arch))
            &&& spec.build_arch == facts.host_arch ==> found(
                spec,
                dependencies,
                facts,
                "QEMU_LD_PREFIX"@,
            ) == Some("/usr/"@ + tools_for(spec.target_arch))
        },
        spec.toolchain != ToolchainSource::System && (!is_inside(spec) || spec.build_arch
            == spec.target_arch) ==> found(spec, dependencies, facts, "CC"@) is None,
{
    lemma_variable_names();
    reveal_with_fuel(text::last_paired, 12);
    lemma_values_by_part(spec, dependencies, facts, "CC"@);
    lemma_values_by_part(spec, dependencies, facts, "CXX"@);
    lemma_values_by_part(spec, dependencies, facts, "AR"@);
    lemma_values_by_part(spec, dependencies, facts, "RANLIB"@);
    lemma_values_by_part(spec, dependencies, facts, "STRIP"@);
    lemma_values_by_part(spec, dependencies, facts, "PKG_CONFIG_ALLOW_CROSS"@);
    lemma_values_by_part(spec, dependencies, facts, "QEMU_LD_PREFIX"@);
}

/// The target that Rust code is built for.
pub open spec fn rust_target(architecture: Text) -> Text {
    if architecture == "x86_64"@ {
        "x86_64-unknown-linux-gnu"@
    } else if architecture == "aarch64"@ {
        "aarch64-unknown-linux-gnu"@
    } else {
        "riscv64gc-unknown-linux-gnu"@
    }
}

/// Cargo builds for the target of a package where that is another architecture, in a home of its
/// own; other builds see the homes of the host, where it has them.
pub proof fn lemma_builds_find_rust(
    spec: PackageSpecView,
    dependencies: Seq<PackageSpecView>,
    facts: HostFactsView,
)
    ensures
        spec.build_system == BuildSystem::Cargo && spec.build_arch != spec.target_arch ==> found(
            spec,
            dependencies,
            facts,
            "CARGO_BUILD_TARGET"@,
        ) == Some(rust_target(spec.target_arch)),
        spec.build_system != BuildSystem::Cargo || spec.build_arch == spec.target_arch ==> found(
            spec,
            dependencies,
            facts,
            "CARGO_BUILD_TARGET"@,
        ) is None,
        spec.build_root is System && spec.toolchain == ToolchainSource::System ==> {
            &&& found(spec, dependencies, facts, "CARGO_HOME"@) == if spec.build_system
                == BuildSystem::Cargo {
                Some("/work/build/cargo-home"@)
            } else if facts.cargo_home is Some {
                Some("/.metalor-toolchain/cargo-home"@)
            } else {
                None
            }
            &&& found(spec, dependencies, facts, "RUSTUP_HOME"@) == if facts.rustup_home is Some {
                Some("/.metalor-toolchain/rustup-home"@)
            } else {
                None
            }
        },
        is_inside(spec) && facts.provider_mode ==> found(
            spec,
            dependencies,
            facts,
            "CARGO_HOME"@,
        ) == Some("/work/build/provider-cargo-home"@) && found(
            spec,
            dependencies,
            facts,
            "RUSTUP_HOME"@,
        ) == Some("/work/build/provider-rustup-home"@),
{
    lemma_variable_names();
    reveal_strlit("CARGO_TARGET_");
    reveal_strlit("_LINKER");
    reveal_strlit("CC_");
    reveal_strlit("CXX_");
    reveal_strlit("AR_");
    reveal_with_fuel(text::last_paired, 10);
    lemma_values_by_part(spec, dependencies, facts, "CARGO_HOME"@);
    lemma_values_by_part(spec, dependencies, facts, "RUSTUP_HOME"@);
    lemma_values_by_part(spec, dependencies, facts, "CARGO_BUILD_TARGET"@);
    let pairs = environment::cargo_cross(spec);
    if pairs.len() > 0 {
        assert(pairs[1].0[6] == 'T' && pairs[1].0.len() >= 20);
        assert(pairs[2].0[1] == 'C' && pairs[3].0[1] == 'C');
        assert(pairs[4].0[1] == 'X' && pairs[5].0[1] == 'X');
        assert(pairs[6].0[0] == 'A' && pairs[7].0[0] == 'A');
        assert(text::value_of(pairs, "CARGO_BUILD_TARGET"@) == Some(pairs[0].1));
    }
}

/// Where a build on Linux finds the package configurations of its dependencies.
pub open spec fn configuration_directories(roots: Seq<Text>) -> Seq<Text>
    decreases roots.len(),
{
    if roots.len() == 0 {
        Seq::empty()
    } else {
        configuration_directories(roots.drop_last()) + seq![
            roots.last() + "/lib/pkgconfig"@,
            roots.last() + "/lib64/pkgconfig"@,
        ]
    }
}

proof fn lemma_configurations(roots: Seq<Text>, count: int)
    requires
        0 <= count <= roots.len(),
    ensures
        environment::pkg_config_dirs(roots, count) == configuration_directories(roots.take(count)),
    decreases count,
{
    if count > 0 {
        lemma_configurations(roots, count - 1);
        let taken = roots.take(count);
        assert(taken.drop_last() =~= roots.take(count - 1));
        assert(taken.last() == roots[count - 1]);
        assert(environment::pkg_config_dirs(roots, count) =~= configuration_directories(taken));
    } else {
        assert(roots.take(0) =~= Seq::<Text>::empty());
    }
}

/// A build on Linux finds all its dependencies through CMake and pkg-config; without any, it is
/// told of none.
pub proof fn lemma_builds_find_their_dependencies(
    spec: PackageSpecView,
    dependencies: Seq<PackageSpecView>,
    facts: HostFactsView,
)
    ensures
        ({
            let roots = environment::cell_roots(HostPlatform::Linux, dependencies);
            &&& dependencies.len() == 0 ==> found(
                spec,
                dependencies,
                facts,
                "CMAKE_PREFIX_PATH"@,
            ) is None && found(spec, dependencies, facts, "PKG_CONFIG_LIBDIR"@) is None
            &&& dependencies.len() > 0 ==> found(spec, dependencies, facts, "CMAKE_PREFIX_PATH"@)
                == Some(text::joined(roots, ";"@)) && found(
                spec,
                dependencies,
                facts,
                "PKG_CONFIG_LIBDIR"@,
            ) == Some(text::joined(configuration_directories(roots), ":"@))
            &&& roots.len() == dependencies.len()
        }),
{
    lemma_variable_names();
    let roots = environment::cell_roots(HostPlatform::Linux, dependencies);
    let pairs = environment::dependency_environment(dependencies, roots, ":"@);
    lemma_values_by_part(spec, dependencies, facts, "CMAKE_PREFIX_PATH"@);
    lemma_values_by_part(spec, dependencies, facts, "PKG_CONFIG_LIBDIR"@);
    if dependencies.len() > 0 {
        lemma_configurations(roots, roots.len() as int);
        assert(roots.take(roots.len() as int) =~= roots);
        lemma_roots_come_later(pairs, dependencies, "CMAKE_PREFIX_PATH"@, pairs.len() as int);
        lemma_roots_come_later(pairs, dependencies, "PKG_CONFIG_LIBDIR"@, pairs.len() as int);
        reveal_with_fuel(text::last_paired, 3);
    }
}

proof fn lemma_roots_come_later(
    pairs: Seq<(Text, Text)>,
    dependencies: Seq<PackageSpecView>,
    name: Text,
    count: int,
)
    requires
        is_search_name(name),
        2 <= count <= pairs.len() == dependencies.len() + 2,
        forall|i: int|
            2 <= i < pairs.len() ==> (#[trigger] pairs[i]).0 == environment::root_variable(
                dependencies[i - 2],
            ),
    ensures
        text::last_paired(pairs, name, count) == text::last_paired(pairs, name, 2),
    decreases count,
{
    if count > 2 {
        lemma_variable_names();
        lemma_root_names(dependencies[count - 3]);
        assert(pairs[count - 1].0 != name);
        lemma_roots_come_later(pairs, dependencies, name, count - 1);
    }
}

/// Whether a mount shows a path under its own name, unchanged.
pub open spec fn shows(mount: MountView, path: Text) -> bool {
    mount.source == path && mount.destination == path && mount.read_only
}

/// A build on Linux may change its sources and nothing else that it sees of the host, but for what
/// a provider keeps.
pub proof fn lemma_builds_change_their_sources_only(
    spec: PackageSpecView,
    source_root: Text,
    variant_root: Text,
    dependencies: Seq<PackageSpecView>,
    present: Seq<Text>,
    facts: HostFactsView,
    index: int,
)
    ensures
        environment::linux_mounts(
            spec,
            source_root,
            variant_root,
            dependencies,
            present,
            facts,
            None,
        ) is Ok,
        ({
            let mounts = environment::linux_mounts(
                spec,
                source_root,
                variant_root,
                dependencies,
                present,
                facts,
                None,
            )->Ok_0;
            &&& mounts.len() > 0
            &&& mounts[0] == (MountView {
                source: source_root,
                destination: "/work/source"@,
                read_only: false,
            })
            &&& 0 < index < mounts.len() ==> mounts[index].read_only
            &&& !(spec.build_root is Scratch) ==> mounts.len() > 1 && mounts[1] == (MountView {
                source: variant_root,
                destination: "/depos"@,
                read_only: true,
            })
            &&& spec.build_root is System && 2 <= index < 2 + present.len() ==> shows(
                mounts[index],
                present[index - 2],
            )
        }),
{
}

/// A dependency stands below `/depos`, by its name, namespace and version.
pub proof fn lemma_dependencies_stand_below_depos(spec: PackageSpecView)
    requires
        path_laws::is_name(spec.name),
        path_laws::is_name(spec.namespace),
        path_laws::is_name(spec.version),
        text_laws::lacks(spec.name, '\\'),
        text_laws::lacks(spec.namespace, '\\'),
        text_laws::lacks(spec.version, '\\'),
    ensures
        environment::cell_root(HostPlatform::Linux, spec) == path_laws::placed(
            "/depos"@,
            spec.name,
            spec.namespace,
            spec.version,
        ),
{
    reveal_strlit("/");
    let platform = HostPlatform::Linux;
    path_laws::lemma_paths_are_joined_with_a_slash(platform, spec.name, spec.namespace);
    let one = spec.name + "/"@ + spec.namespace;
    path_laws::lemma_paths_are_joined_with_a_slash(platform, one, spec.version);
    let inner = one + "/"@ + spec.version;
    assert(text_laws::lacks(inner, '\\')) by {
        assert forall|i: int| 0 <= i < inner.len() implies #[trigger] inner[i] != '\\' by {
            let a = spec.name.len() as int;
            let b = spec.namespace.len() as int;
            if i < a {
                assert(inner[i] == spec.name[i]);
            } else if i == a {
                assert(inner[i] == '/');
            } else if i < a + 1 + b {
                assert(inner[i] == spec.namespace[i - a - 1]);
            } else if i == a + 1 + b {
                assert(inner[i] == '/');
            } else {
                assert(inner[i] == spec.version[i - a - b - 2]);
            }
        }
    }
    text_laws::lemma_replaced_everywhere(inner, Seq::empty(), '\\', "/"@);
    assert("/depos"@ + "/"@ + inner =~= path_laws::placed(
        "/depos"@,
        spec.name,
        spec.namespace,
        spec.version,
    ));
}

proof fn lemma_other_variables_are_kept(
    id: Text,
    dependencies: Seq<PackageSpecView>,
    roots: Seq<Text>,
    from: int,
    variables: Seq<(Text, Text)>,
    result: Seq<(Text, Text)>,
    name: Text,
)
    requires
        0 <= from <= dependencies.len(),
        environment::dependency_variables(id, dependencies, roots, from, variables) == Ok::<
            Seq<(Text, Text)>,
            Messages,
        >(result),
        name.len() > 0,
        name[0] != 'd',
    ensures
        text::value_of(result, name) == text::value_of(variables, name),
    decreases dependencies.len() - from,
{
    if from < dependencies.len() {
        reveal_strlit("dep:");
        assert("dep:"@.len() == 4 && "dep:"@[0] == 'd');
        let short = "dep:"@ + dependencies[from].name;
        let long = short + "@"@ + dependencies[from].namespace;
        assert(short[0] == 'd');
        assert(long[0] == 'd');
        let named = variables.push((long, roots[from]));
        text::lemma_pushed_pair(variables, (long, roots[from]), name);
        match text::value_of(named, short) {
            None => {
                text::lemma_pushed_pair(named, (short, roots[from]), name);
                lemma_other_variables_are_kept(
                    id,
                    dependencies,
                    roots,
                    from + 1,
                    named.push((short, roots[from])),
                    result,
                    name,
                );
            },
            Some(_) => {
                lemma_other_variables_are_kept(
                    id,
                    dependencies,
                    roots,
                    from + 1,
                    named,
                    result,
                    name,
                );
            },
        }
    }
}

/// The commands of a build on Linux may use the same directories and architectures as variables
/// that they find in their environment, and the name, the namespace and the version of the
/// package.
pub proof fn lemma_commands_may_use_the_place_of_the_build(
    spec: PackageSpecView,
    dependencies: Seq<PackageSpecView>,
    variables: Seq<(Text, Text)>,
)
    requires
        environment::linux_variables(spec, dependencies) == Ok::<Seq<(Text, Text)>, Messages>(
            variables,
        ),
    ensures
        text::value_of(variables, "DEPO_PACKAGE_NAME"@) == Some(spec.name),
        text::value_of(variables, "DEPO_PACKAGE_NAMESPACE"@) == Some(spec.namespace),
        text::value_of(variables, "DEPO_PACKAGE_VERSION"@) == Some(spec.version),
        text::value_of(variables, "DEPO_SOURCE_DIR"@) == Some("/work/source"@),
        text::value_of(variables, "DEPO_BUILD_DIR"@) == Some("/work/build"@),
        text::value_of(variables, "DEPO_PREFIX"@) == Some("/work/prefix"@),
        text::value_of(variables, "DEPO_DEPS_DIR"@) == Some("/depos"@),
        text::value_of(variables, "DEPO_BUILD_ARCH"@) == Some(spec.build_arch),
        text::value_of(variables, "DEPO_TARGET_ARCH"@) == Some(spec.target_arch),
        text::value_of(variables, "DEPO_BUILD_TRIPLE"@) == Some(rust_target(spec.build_arch)),
        text::value_of(variables, "DEPO_TARGET_TRIPLE"@) == Some(rust_target(spec.target_arch)),
{
    lemma_variable_names();
    reveal_strlit("DEPO_PACKAGE_NAME");
    reveal_strlit("DEPO_PACKAGE_NAMESPACE");
    reveal_strlit("DEPO_PACKAGE_VERSION");
    assert("DEPO_PACKAGE_NAME"@.len() == 17 && "DEPO_PACKAGE_NAME"@[0] == 'D'
        && "DEPO_PACKAGE_NAME"@[5] == 'P');
    assert("DEPO_PACKAGE_NAMESPACE"@.len() == 22 && "DEPO_PACKAGE_NAMESPACE"@[0] == 'D');
    assert("DEPO_PACKAGE_VERSION"@.len() == 20 && "DEPO_PACKAGE_VERSION"@[0] == 'D');
    let roots = environment::cell_roots(HostPlatform::Linux, dependencies);
    let start = environment::common_variables(spec, environment::linux_dirs()).push(
        ("DEPO_BUILD_TRIPLE"@, arch::gnu_triple(spec.build_arch)),
    ).push(("DEPO_TARGET_TRIPLE"@, arch::gnu_triple(spec.target_arch)));
    let names = seq![
        "DEPO_PACKAGE_NAME"@,
        "DEPO_PACKAGE_NAMESPACE"@,
        "DEPO_PACKAGE_VERSION"@,
        "DEPO_SOURCE_DIR"@,
        "DEPO_BUILD_DIR"@,
        "DEPO_PREFIX"@,
        "DEPO_DEPS_DIR"@,
        "DEPO_BUILD_ARCH"@,
        "DEPO_TARGET_ARCH"@,
        "DEPO_BUILD_TRIPLE"@,
        "DEPO_TARGET_TRIPLE"@,
    ];
    assert forall|k: int| 0 <= k < names.len() implies text::value_of(
        variables,
        #[trigger] names[k],
    ) == text::value_of(start, names[k]) by {
        lemma_other_variables_are_kept(
            spec.id(),
            dependencies,
            roots,
            0,
            start,
            variables,
            names[k],
        );
    }
    assert(names[0] == "DEPO_PACKAGE_NAME"@ && names[1] == "DEPO_PACKAGE_NAMESPACE"@);
    assert(names[2] == "DEPO_PACKAGE_VERSION"@ && names[3] == "DEPO_SOURCE_DIR"@);
    assert(names[4] == "DEPO_BUILD_DIR"@ && names[5] == "DEPO_PREFIX"@);
    assert(names[6] == "DEPO_DEPS_DIR"@ && names[7] == "DEPO_BUILD_ARCH"@);
    assert(names[8] == "DEPO_TARGET_ARCH"@ && names[9] == "DEPO_BUILD_TRIPLE"@);
    assert(names[10] == "DEPO_TARGET_TRIPLE"@);
    reveal_with_fuel(text::last_paired, 12);
}

} // verus!
