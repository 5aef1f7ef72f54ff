//! What the commands of a build see: variables, environment and mounts.

use vstd::prelude::*;
use crate::arch;
use crate::arch::{cargo_target_env_fragment, linux_gnu_target_triple, linux_gnu_toolchain_prefix};
use crate::failure::{failure, outcome, Failure, Messages};
use crate::layout;
use crate::layout::package_relative_store_root;
use crate::model::{
    BuildRoot, BuildRootView, BuildSystem, PackageSpec, PackageSpecView, PackageSystemLibs, Text,
    ToolchainSource,
};
use crate::paths;
use crate::paths::{
    display_path, is_absolute, is_absolute_on, join_path, parent_path, HostPlatform,
};
use crate::text;
use crate::text::{
    Dup, cat2, cat3, cat4, cat5, cat7, dedup_strings, find_value, join, put, put_all, replace,
    same,
};

verus! {

/// Where the sources stand during a build.
pub const CELL_SOURCE_DIR: &'static str = "/work/source";

/// Where a build works.
pub const CELL_BUILD_DIR: &'static str = "/work/build";

/// Where a build installs to.
pub const CELL_PREFIX_DIR: &'static str = "/work/prefix";

/// Where the dependencies of a build stand.
pub const CELL_DEPS_DIR: &'static str = "/depos";

/// Where a build keeps temporary files.
pub const CELL_TMP_DIR: &'static str = "/tmp";

/// Where Cargo's home is mounted for builds by a Linux provider.
pub const PROVIDER_CARGO_HOME_DIR: &'static str = "/work/build/provider-cargo-home";

/// Where rustup's home is mounted for builds by a Linux provider.
pub const PROVIDER_RUSTUP_HOME_DIR: &'static str = "/work/build/provider-rustup-home";

/// The character between the entries of a path list.
pub open spec fn list_separator(platform: HostPlatform) -> Text {
    if platform == HostPlatform::Windows {
        ";"@
    } else {
        ":"@
    }
}

pub fn host_path_separator(platform: HostPlatform) -> (separator: &'static str)
    ensures
        separator@ == list_separator(platform),
{
    if platform == HostPlatform::Windows {
        ";"
    } else {
        ":"
    }
}

pub fn join_host_path_list(platform: HostPlatform, paths: &Vec<String>) -> (list: String)
    ensures
        list@ == text::joined(paths.deep_view(), list_separator(platform)),
{
    join(paths, host_path_separator(platform))
}

/// `fallback` with other entries before it.
pub open spec fn prepended(platform: HostPlatform, prefix: Text, fallback: Text) -> Text {
    if prefix.len() == 0 {
        fallback
    } else {
        prefix + list_separator(platform) + fallback
    }
}

pub fn prepend_path_entries(platform: HostPlatform, prefix: &str, fallback: &str) -> (list: String)
    ensures
        list@ == prepended(platform, prefix@, fallback@),
{
    if prefix.is_empty() {
        fallback.to_owned()
    } else {
        cat3(prefix, host_path_separator(platform), fallback)
    }
}

/// The directory that a tool is found in: the tool itself where it is one, else the one that
/// holds it.
pub open spec fn tool_directory(platform: HostPlatform, value: Text, is_dir: bool) -> Text {
    paths::shown_path(
        platform,
        if is_dir {
            value
        } else {
            match paths::parent_of(platform, value) {
                Some(parent) => parent,
                None => value,
            }
        },
    )
}

/// The directories of the tools, none twice. `directories` tells of each whether it is one.
pub open spec fn tool_directories(
    platform: HostPlatform,
    values: Seq<Text>,
    directories: Seq<bool>,
) -> Seq<Text> {
    text::distinct(
        Seq::new(values.len(), |i: int| tool_directory(platform, values[i], directories[i])),
    )
}

/// The search path for declared tools.
pub fn build_toolchain_path(
    platform: HostPlatform,
    values: &Vec<String>,
    directories: &Vec<bool>,
) -> (list: String)
    requires
        values.len() == directories.len(),
    ensures
        list@ == text::joined(
            tool_directories(platform, values.deep_view(), directories@),
            list_separator(platform),
        ),
{
    let ghost all = Seq::new(
        values.deep_view().len(),
        |i: int| tool_directory(platform, values.deep_view()[i], directories@[i]),
    );
    let mut found: Vec<String> = Vec::new();
    let mut index: usize = 0;
    assert(found.deep_view() == all.take(0));
    while index < values.len()
        invariant
            values.len() == directories.len(),
            index <= values.len(),
            all == Seq::new(
                values.deep_view().len(),
                |i: int| tool_directory(platform, values.deep_view()[i], directories@[i]),
            ),
            found.deep_view() == all.take(index as int),
        decreases values.len() - index,
    {
        let value: &str = values[index].as_str();
        assert(values.deep_view()[index as int] == value@);
        let candidate = if directories[index] {
            value.to_owned()
        } else {
            match parent_path(platform, value) {
                Some(parent) => parent,
                None => value.to_owned(),
            }
        };
        put(&mut found, display_path(platform, &candidate));
        index = index + 1;
        assert(found.deep_view() == all.take(index as int));
    }
    assert(all.take(index as int) == all);
    join_host_path_list(platform, &dedup_strings(&found))
}

/// Capital letters and digits of `value`, with an underscore for every byte of anything else.
pub open spec fn env_fragment(value: Text) -> Text {
    let fragment = vstd::utf8::encode_utf8(value).map_values(|byte: u8| env_char(byte));
    if fragment.len() == 0 {
        "_"@
    } else {
        fragment
    }
}

/// The character that stands for a byte in the name of an environment variable.
pub open spec fn env_char(byte: u8) -> char {
    if (0x30 <= byte <= 0x39) || (0x41 <= byte <= 0x5a) {
        byte as char
    } else if 0x61 <= byte <= 0x7a {
        (byte - 32) as char
    } else {
        '_'
    }
}

pub fn sanitize_env_fragment(value: &str) -> (fragment: String)
    ensures
        fragment@ == env_fragment(value@),
{
    let bytes = value.as_bytes();
    let mut fragment = String::new();
    let mut index: usize = 0;
    while index < bytes.len()
        invariant
            index <= bytes.len(),
            bytes@ == vstd::utf8::encode_utf8(value@),
            fragment@ == bytes@.take(index as int).map_values(|byte: u8| env_char(byte)),
        decreases bytes.len() - index,
    {
        let byte = bytes[index];
        if (0x30 <= byte && byte <= 0x39) || (0x41 <= byte && byte <= 0x5a) {
            fragment.push(byte as char);
        } else if 0x61 <= byte && byte <= 0x7a {
            fragment.push((byte - 32) as char);
        } else {
            fragment.push('_');
        }
        index = index + 1;
        assert(fragment@ == bytes@.take(index as int).map_values(|byte: u8| env_char(byte)));
    }
    assert(bytes@.take(index as int) == bytes@);
    if fragment.as_str().is_empty() {
        "_".to_owned()
    } else {
        fragment
    }
}

/// Where a dependency stands during a build on Linux.
pub open spec fn cell_root(platform: HostPlatform, spec: PackageSpecView) -> Text {
    "/depos"@ + "/"@ + paths::shown_path(platform, layout::relative_store_root(platform, spec))
}

fn cell_dependency_root(platform: HostPlatform, spec: &PackageSpec) -> (root: String)
    ensures
        root@ == cell_root(platform, spec.deep_view()),
{
    cat3("/depos", "/", &display_path(platform, &package_relative_store_root(platform, spec)))
}

/// Where the dependencies stand during a build on Linux.
pub open spec fn cell_roots(
    platform: HostPlatform,
    dependencies: Seq<PackageSpecView>,
) -> Seq<Text> {
    dependencies.map_values(|spec: PackageSpecView| cell_root(platform, spec))
}

pub fn cell_dependency_roots(
    platform: HostPlatform,
    dependencies: &Vec<PackageSpec>,
) -> (roots: Vec<
    String,
>)
    ensures
        roots.deep_view() == cell_roots(platform, dependencies.deep_view()),
{
    let ghost all = cell_roots(platform, dependencies.deep_view());
    let mut roots: Vec<String> = Vec::new();
    let mut index: usize = 0;
    assert(roots.deep_view() == all.take(0));
    while index < dependencies.len()
        invariant
            index <= dependencies.len(),
            all == cell_roots(platform, dependencies.deep_view()),
            roots.deep_view() == all.take(index as int),
        decreases dependencies.len() - index,
    {
        assert(dependencies.deep_view()[index as int] == dependencies[index as int].deep_view());
        put(&mut roots, cell_dependency_root(platform, &dependencies[index]));
        index = index + 1;
        assert(roots.deep_view() == all.take(index as int));
    }
    assert(all.take(index as int) == all);
    roots
}

/// Appends a name and its value.
pub fn put_pair(env: &mut Vec<(String, String)>, key: &str, value: &str)
    ensures
        final(env).deep_view() == old(env).deep_view().push((key@, value@)),
{
    put(env, (key.to_owned(), value.to_owned()));
}

/// The variables with those of the dependencies from position `from` on: each dependency under
/// its name and namespace, and under its name alone unless two differ in their namespace.
pub open spec fn dependency_variables(
    id: Text,
    dependencies: Seq<PackageSpecView>,
    roots: Seq<Text>,
    from: int,
    variables: Seq<(Text, Text)>,
) -> Result<Seq<(Text, Text)>, Messages>
    decreases dependencies.len() - from,
{
    if from >= dependencies.len() {
        Ok(variables)
    } else {
        let name = dependencies[from].name;
        let named = variables.push(
            ("dep:"@ + name + "@"@ + dependencies[from].namespace, roots[from]),
        );
        match text::value_of(named, "dep:"@ + name) {
            None => dependency_variables(
                id,
                dependencies,
                roots,
                from + 1,
                named.push(("dep:"@ + name, roots[from])),
            ),
            Some(existing) => if existing == roots[from] {
                dependency_variables(id, dependencies, roots, from + 1, named)
            } else {
                Err(
                    seq![
                        "package '"@ + id + "' has multiple dependencies named '"@ + name
                            + "' across namespaces; use ${dep:"@ + name + "@<namespace>}"@,
                    ],
                )
            },
        }
    }
}

pub fn add_dependency_variables(
    id: &str,
    dependencies: &Vec<PackageSpec>,
    roots: &Vec<String>,
    start: Vec<(String, String)>,
) -> (result: Result<Vec<(String, String)>, Failure>)
    requires
        dependencies.len() == roots.len(),
    ensures
        outcome(result) == dependency_variables(
            id@,
            dependencies.deep_view(),
            roots.deep_view(),
            0,
            start.deep_view(),
        ),
{
    let mut variables = start;
    let mut from: usize = 0;
    while from < dependencies.len()
        invariant
            dependencies.len() == roots.len(),
            from <= dependencies.len(),
            dependency_variables(
                id@,
                dependencies.deep_view(),
                roots.deep_view(),
                0,
                start.deep_view(),
            ) == dependency_variables(
                id@,
                dependencies.deep_view(),
                roots.deep_view(),
                from as int,
                variables.deep_view(),
            ),
        decreases dependencies.len() - from,
    {
        assert(dependencies.deep_view()[from as int] == dependencies[from as int].deep_view());
        assert(roots.deep_view()[from as int] == roots[from as int]@);
        let name: &str = dependencies[from].name.as_str();
        let simple = cat2("dep:", name);
        put_pair(
            &mut variables,
            &cat4("dep:", name, "@", &dependencies[from].namespace),
            &roots[from],
        );
        match find_value(&variables, &simple) {
            None => {
                put_pair(&mut variables, &simple, &roots[from]);
            },
            Some(existing) => {
                if !same(&existing, &roots[from]) {
                    return Err(
                        failure(
                            cat7(
                                "package '",
                                id,
                                "' has multiple dependencies named '",
                                name,
                                "' across namespaces; use ${dep:",
                                name,
                                "@<namespace>}",
                            ),
                        ),
                    );
                }
            },
        }
        from = from + 1;
    }
    Ok(variables)
}

/// The directories that commands are told of.
#[derive(Clone, Debug, PartialEq, Eq)]
pub struct CellDirs {
    pub source: String,
    pub build: String,
    pub prefix: String,
    pub deps: String,
}

/// The model of [`CellDirs`].
pub struct CellDirsView {
    pub source: Text,
    pub build: Text,
    pub prefix: Text,
    pub deps: Text,
}

impl DeepView for CellDirs {
    type V = CellDirsView;

    open spec fn deep_view(&self) -> CellDirsView {
        CellDirsView {
            source: self.source@,
            build: self.build@,
            prefix: self.prefix@,
            deps: self.deps@,
        }
    }
}

/// The variables that every command may use.
pub open spec fn common_variables(spec: PackageSpecView, dirs: CellDirsView) -> Seq<(Text, Text)> {
    seq![
        ("DEPO_PACKAGE_NAME"@, spec.name),
        ("DEPO_PACKAGE_NAMESPACE"@, spec.namespace),
        ("DEPO_PACKAGE_VERSION"@, spec.version),
        ("DEPO_SOURCE_DIR"@, dirs.source),
        ("DEPO_BUILD_DIR"@, dirs.build),
        ("DEPO_PREFIX"@, dirs.prefix),
        ("DEPO_DEPS_DIR"@, dirs.deps),
        ("DEPO_BUILD_ARCH"@, spec.build_arch),
        ("DEPO_TARGET_ARCH"@, spec.target_arch),
    ]
}

/// An empty list of names and values.
pub fn no_pairs() -> (pairs: Vec<(String, String)>)
    ensures
        pairs.deep_view() == Seq::<(Text, Text)>::empty(),
{
    let pairs: Vec<(String, String)> = Vec::new();
    assert(pairs.deep_view() == Seq::<(Text, Text)>::empty());
    pairs
}

pub fn make_common_variables(
    spec: &PackageSpec,
    dirs: &CellDirs,
) -> (variables: Vec<(String, String)>)
    ensures
        variables.deep_view() == common_variables(spec.deep_view(), dirs.deep_view()),
{
    let mut variables = no_pairs();
    put_pair(&mut variables, "DEPO_PACKAGE_NAME", &spec.name);
    put_pair(&mut variables, "DEPO_PACKAGE_NAMESPACE", &spec.namespace);
    put_pair(&mut variables, "DEPO_PACKAGE_VERSION", &spec.version);
    put_pair(&mut variables, "DEPO_SOURCE_DIR", &dirs.source);
    put_pair(&mut variables, "DEPO_BUILD_DIR", &dirs.build);
    put_pair(&mut variables, "DEPO_PREFIX", &dirs.prefix);
    put_pair(&mut variables, "DEPO_DEPS_DIR", &dirs.deps);
    put_pair(&mut variables, "DEPO_BUILD_ARCH", &spec.build_arch);
    put_pair(&mut variables, "DEPO_TARGET_ARCH", &spec.target_arch);
    variables
}

/// The directories during a build on Linux.
pub open spec fn linux_dirs() -> CellDirsView {
    CellDirsView {
        source: "/work/source"@,
        build: "/work/build"@,
        prefix: "/work/prefix"@,
        deps: "/depos"@,
    }
}

/// The variables that commands may use on Linux.
pub open spec fn linux_variables(
    spec: PackageSpecView,
    dependencies: Seq<PackageSpecView>,
) -> Result<
    Seq<(Text, Text)>,
    Messages,
> {
    dependency_variables(
        spec.id(),
        dependencies,
        cell_roots(HostPlatform::Linux, dependencies),
        0,
        common_variables(spec, linux_dirs()).push(
            ("DEPO_BUILD_TRIPLE"@, arch::gnu_triple(spec.build_arch)),
        ).push(("DEPO_TARGET_TRIPLE"@, arch::gnu_triple(spec.target_arch))),
    )
}

pub fn build_command_variables(
    spec: &PackageSpec,
    dependency_specs: &Vec<PackageSpec>,
) -> (result: Result<
    Vec<(String, String)>,
    Failure,
>)
    requires
        arch::supported_arch(spec.build_arch@),
        arch::supported_arch(spec.target_arch@),
    ensures
        outcome(result) == linux_variables(spec.deep_view(), dependency_specs.deep_view()),
{
    let dirs = CellDirs {
        source: "/work/source".to_owned(),
        build: "/work/build".to_owned(),
        prefix: "/work/prefix".to_owned(),
        deps: "/depos".to_owned(),
    };
    let mut variables = make_common_variables(spec, &dirs);
    put_pair(&mut variables, "DEPO_BUILD_TRIPLE", linux_gnu_target_triple(&spec.build_arch));
    put_pair(&mut variables, "DEPO_TARGET_TRIPLE", linux_gnu_target_triple(&spec.target_arch));
    let roots = cell_dependency_roots(HostPlatform::Linux, dependency_specs);
    assert(roots.deep_view().len() == roots.len());
    add_dependency_variables(&spec.package_id(), dependency_specs, &roots, variables)
}

/// What a build on Linux has to know of the machine.
#[derive(Clone, Debug, PartialEq, Eq)]
pub struct HostFacts {
    /// Whether the build runs on behalf of another machine.
    pub provider_mode: bool,
    pub host_arch: String,
    /// Cargo's home, where it is there.
    pub cargo_home: Option<String>,
    /// The home of rustup, where it is there.
    pub rustup_home: Option<String>,
    /// Whether each tool that the package declares is a directory.
    pub tool_directories: Vec<bool>,
}

/// The model of [`HostFacts`].
pub struct HostFactsView {
    pub provider_mode: bool,
    pub host_arch: Text,
    pub cargo_home: Option<Text>,
    pub rustup_home: Option<Text>,
    pub tool_directories: Seq<bool>,
}

impl DeepView for HostFacts {
    type V = HostFactsView;

    open spec fn deep_view(&self) -> HostFactsView {
        HostFactsView {
            provider_mode: self.provider_mode,
            host_arch: self.host_arch@,
            cargo_home: self.cargo_home.deep_view(),
            rustup_home: self.rustup_home.deep_view(),
            tool_directories: self.tool_directories@,
        }
    }
}

/// The directory of a toolchain: what the environment names, else one below the home directory.
/// Only an absolute path counts.
pub open spec fn toolchain_directory(
    platform: HostPlatform,
    named: Option<Text>,
    home: Option<Text>,
    suffix: Text,
) -> Option<Text> {
    let path = match named {
        Some(path) => Some(path),
        None => match home {
            Some(home) => Some(paths::joined_path(platform, home, suffix)),
            None => None,
        },
    };
    match path {
        Some(path) => if paths::absolute_on(platform, path) {
            Some(path)
        } else {
            None
        },
        None => None,
    }
}

/// Names the directory of a toolchain. Whether it exists is for the caller to see.
pub fn host_rust_toolchain_dir(
    platform: HostPlatform,
    named: &Option<String>,
    home: &Option<String>,
    home_suffix: &str,
) -> (path: Option<String>)
    ensures
        path.deep_view() == toolchain_directory(
            platform,
            named.deep_view(),
            home.deep_view(),
            home_suffix@,
        ),
{
    let path = match named {
        Some(path) => path.dup(),
        None => match home {
            Some(home) => join_path(platform, home, home_suffix),
            None => {
                return None;
            },
        },
    };
    if is_absolute_on(platform, &path) {
        Some(path)
    } else {
        None
    }
}

/// Whether a package is built inside an image, with the tools of the image.
pub open spec fn in_image(spec: PackageSpecView) -> bool {
    spec.build_root is Oci && spec.toolchain == ToolchainSource::Rootfs
}

pub fn builds_in_image(spec: &PackageSpec) -> (yes: bool)
    ensures
        yes == in_image(spec.deep_view()),
{
    match spec.build_root {
        BuildRoot::Oci(_) => spec.toolchain == ToolchainSource::Rootfs,
        _ => false,
    }
}

/// Whether a package is built inside an image on behalf of another machine.
pub open spec fn provided(spec: PackageSpecView, facts: HostFactsView) -> bool {
    facts.provider_mode && in_image(spec)
}

/// The directories of the tools that a package declares, as a search path.
pub open spec fn declared_path(spec: PackageSpecView, facts: HostFactsView) -> Text {
    text::joined(
        tool_directories(HostPlatform::Linux, spec.toolchain_inputs, facts.tool_directories),
        ":"@,
    )
}

/// The search path of a build on Linux.
pub open spec fn search_path(spec: PackageSpecView, facts: HostFactsView) -> Text {
    let path = if spec.build_root is Scratch && spec.toolchain == ToolchainSource::System {
        declared_path(spec, facts)
    } else if in_image(spec) {
        prepended(
            HostPlatform::Linux,
            declared_path(spec, facts),
            "/usr/local/sbin:/usr/local/bin:/usr/sbin:/usr/bin:/sbin:/bin"@,
        )
    } else {
        "/usr/bin:/bin"@
    };
    if provided(spec, facts) {
        prepended(HostPlatform::Linux, "/work/build/provider-cargo-home/bin"@, path)
    } else {
        path
    }
}

fn make_search_path(spec: &PackageSpec, facts: &HostFacts) -> (path: String)
    requires
        spec.toolchain_inputs.len() == facts.tool_directories.len(),
    ensures
        path@ == search_path(spec.deep_view(), facts.deep_view()),
{
    let declared = build_toolchain_path(
        HostPlatform::Linux,
        &spec.toolchain_inputs,
        &facts.tool_directories,
    );
    let image = builds_in_image(spec);
    let scratch = match spec.build_root {
        BuildRoot::Scratch => spec.toolchain == ToolchainSource::System,
        _ => false,
    };
    let path = if scratch {
        declared
    } else if image {
        prepend_path_entries(
            HostPlatform::Linux,
            &declared,
            "/usr/local/sbin:/usr/local/bin:/usr/sbin:/usr/bin:/sbin:/bin",
        )
    } else {
        "/usr/bin:/bin".to_owned()
    };
    if facts.provider_mode && image {
        proof {
            reveal_strlit("/work/build/provider-cargo-home/bin");
        }
        prepend_path_entries(HostPlatform::Linux, "/work/build/provider-cargo-home/bin", &path)
    } else {
        path
    }
}

/// Where a build on Linux takes place.
pub open spec fn linux_place(spec: PackageSpecView, facts: HostFactsView) -> Seq<(Text, Text)> {
    seq![
        ("PATH"@, search_path(spec, facts)),
        (
            "HOME"@,
            if provided(spec, facts) {
                "/root"@
            } else {
                "/tmp"@
            },
        ),
        ("TMPDIR"@, "/tmp"@),
        ("DEPO_SOURCE_DIR"@, "/work/source"@),
        ("DEPO_BUILD_DIR"@, "/work/build"@),
        ("DEPO_PREFIX"@, "/work/prefix"@),
        ("DEPO_DEPS_DIR"@, "/depos"@),
        ("DEPO_BUILD_ARCH"@, spec.build_arch),
        ("DEPO_TARGET_ARCH"@, spec.target_arch),
        ("DEPO_BUILD_TRIPLE"@, arch::gnu_triple(spec.build_arch)),
        ("DEPO_TARGET_TRIPLE"@, arch::gnu_triple(spec.target_arch)),
    ]
}

fn make_linux_place(spec: &PackageSpec, facts: &HostFacts) -> (env: Vec<(String, String)>)
    requires
        arch::supported_arch(spec.build_arch@),
        arch::supported_arch(spec.target_arch@),
        spec.toolchain_inputs.len() == facts.tool_directories.len(),
    ensures
        env.deep_view() == linux_place(spec.deep_view(), facts.deep_view()),
{
    let home = if facts.provider_mode && builds_in_image(spec) {
        "/root"
    } else {
        "/tmp"
    };
    let mut env = no_pairs();
    put_pair(&mut env, "PATH", &make_search_path(spec, facts));
    put_pair(&mut env, "HOME", home);
    put_pair(&mut env, "TMPDIR", "/tmp");
    put_pair(&mut env, "DEPO_SOURCE_DIR", "/work/source");
    put_pair(&mut env, "DEPO_BUILD_DIR", "/work/build");
    put_pair(&mut env, "DEPO_PREFIX", "/work/prefix");
    put_pair(&mut env, "DEPO_DEPS_DIR", "/depos");
    put_pair(&mut env, "DEPO_BUILD_ARCH", &spec.build_arch);
    put_pair(&mut env, "DEPO_TARGET_ARCH", &spec.target_arch);
    put_pair(&mut env, "DEPO_BUILD_TRIPLE", linux_gnu_target_triple(&spec.build_arch));
    put_pair(&mut env, "DEPO_TARGET_TRIPLE", linux_gnu_target_triple(&spec.target_arch));
    env
}

/// The compilers of the system.
pub open spec fn clang_tools() -> Seq<(Text, Text)> {
    seq![
        ("CC"@, "clang"@),
        ("CXX"@, "clang++"@),
        ("AR"@, "ar"@),
        ("RANLIB"@, "ranlib"@),
        ("STRIP"@, "strip"@),
        ("CFLAGS"@, ""@),
        ("CXXFLAGS"@, ""@),
        ("LDFLAGS"@, ""@),
    ]
}

pub fn make_clang_tools() -> (env: Vec<(String, String)>)
    ensures
        env.deep_view() == clang_tools(),
{
    let mut env = no_pairs();
    put_pair(&mut env, "CC", "clang");
    put_pair(&mut env, "CXX", "clang++");
    put_pair(&mut env, "AR", "ar");
    put_pair(&mut env, "RANLIB", "ranlib");
    put_pair(&mut env, "STRIP", "strip");
    put_pair(&mut env, "CFLAGS", "");
    put_pair(&mut env, "CXXFLAGS", "");
    put_pair(&mut env, "LDFLAGS", "");
    env
}

/// The cross compilers inside an image.
pub open spec fn cross_tools(spec: PackageSpecView, host_arch: Text) -> Seq<(Text, Text)> {
    let prefix = arch::gnu_prefix(spec.target_arch);
    let guest = if spec.build_arch != host_arch {
        spec.build_arch
    } else {
        spec.target_arch
    };
    seq![
        ("CC"@, prefix + "-gcc"@),
        ("CXX"@, prefix + "-g++"@),
        ("AR"@, prefix + "-ar"@),
        ("RANLIB"@, prefix + "-ranlib"@),
        ("STRIP"@, prefix + "-strip"@),
        ("CFLAGS"@, ""@),
        ("CXXFLAGS"@, ""@),
        ("LDFLAGS"@, ""@),
        ("QEMU_LD_PREFIX"@, "/usr/"@ + arch::gnu_prefix(guest)),
        ("PKG_CONFIG_ALLOW_CROSS"@, "1"@),
    ]
}

fn make_cross_tools(spec: &PackageSpec, host_arch: &str) -> (env: Vec<(String, String)>)
    requires
        arch::supported_arch(spec.build_arch@),
        arch::supported_arch(spec.target_arch@),
    ensures
        env.deep_view() == cross_tools(spec.deep_view(), host_arch@),
{
    let prefix: &str = linux_gnu_toolchain_prefix(&spec.target_arch);
    let guest: &str = if !same(&spec.build_arch, host_arch) {
        linux_gnu_toolchain_prefix(&spec.build_arch)
    } else {
        linux_gnu_toolchain_prefix(&spec.target_arch)
    };
    let mut env = no_pairs();
    put_pair(&mut env, "CC", &cat2(prefix, "-gcc"));
    put_pair(&mut env, "CXX", &cat2(prefix, "-g++"));
    put_pair(&mut env, "AR", &cat2(prefix, "-ar"));
    put_pair(&mut env, "RANLIB", &cat2(prefix, "-ranlib"));
    put_pair(&mut env, "STRIP", &cat2(prefix, "-strip"));
    put_pair(&mut env, "CFLAGS", "");
    put_pair(&mut env, "CXXFLAGS", "");
    put_pair(&mut env, "LDFLAGS", "");
    put_pair(&mut env, "QEMU_LD_PREFIX", &cat2("/usr/", guest));
    put_pair(&mut env, "PKG_CONFIG_ALLOW_CROSS", "1");
    env
}

/// The compilers of a build on Linux.
pub open spec fn linux_tools(spec: PackageSpecView, facts: HostFactsView) -> Seq<(Text, Text)> {
    if spec.toolchain == ToolchainSource::System {
        clang_tools()
    } else if in_image(spec) && spec.build_arch != spec.target_arch {
        cross_tools(spec, facts.host_arch)
    } else {
        Seq::empty()
    }
}

fn make_linux_tools(spec: &PackageSpec, facts: &HostFacts) -> (env: Vec<(String, String)>)
    requires
        arch::supported_arch(spec.build_arch@),
        arch::supported_arch(spec.target_arch@),
    ensures
        env.deep_view() == linux_tools(spec.deep_view(), facts.deep_view()),
{
    if spec.toolchain == ToolchainSource::System {
        make_clang_tools()
    } else if builds_in_image(spec) && !same(&spec.build_arch, &spec.target_arch) {
        make_cross_tools(spec, &facts.host_arch)
    } else {
        no_pairs()
    }
}

/// Where a build on Linux finds Rust.
pub open spec fn linux_rust(spec: PackageSpecView, facts: HostFactsView) -> Seq<(Text, Text)> {
    let cargo = if spec.build_system == BuildSystem::Cargo {
        seq![("CARGO_HOME"@, "/work/build/cargo-home"@)]
    } else if facts.cargo_home is Some {
        seq![("CARGO_HOME"@, "/.metalor-toolchain/cargo-home"@)]
    } else {
        Seq::empty()
    };
    let rustup = if facts.rustup_home is Some {
        seq![("RUSTUP_HOME"@, "/.metalor-toolchain/rustup-home"@)]
    } else {
        Seq::empty()
    };
    if spec.build_root is System && spec.toolchain == ToolchainSource::System {
        cargo + rustup
    } else if provided(spec, facts) {
        seq![
            ("CARGO_HOME"@, "/work/build/provider-cargo-home"@),
            ("RUSTUP_HOME"@, "/work/build/provider-rustup-home"@),
        ]
    } else {
        Seq::empty()
    }
}

fn make_linux_rust(spec: &PackageSpec, facts: &HostFacts) -> (env: Vec<(String, String)>)
    ensures
        env.deep_view() == linux_rust(spec.deep_view(), facts.deep_view()),
{
    let mut env = no_pairs();
    let system = match spec.build_root {
        BuildRoot::System => spec.toolchain == ToolchainSource::System,
        _ => false,
    };
    if system {
        if spec.build_system == BuildSystem::Cargo {
            put_pair(&mut env, "CARGO_HOME", "/work/build/cargo-home");
        } else if facts.cargo_home.is_some() {
            put_pair(&mut env, "CARGO_HOME", "/.metalor-toolchain/cargo-home");
        }
        if facts.rustup_home.is_some() {
            put_pair(&mut env, "RUSTUP_HOME", "/.metalor-toolchain/rustup-home");
        }
    } else if facts.provider_mode && builds_in_image(spec) {
        put_pair(&mut env, "CARGO_HOME", "/work/build/provider-cargo-home");
        put_pair(&mut env, "RUSTUP_HOME", "/work/build/provider-rustup-home");
    }
    assert(env.deep_view() == linux_rust(spec.deep_view(), facts.deep_view()));
    env
}

/// What Cargo needs to build for another architecture.
pub open spec fn cargo_cross(spec: PackageSpecView) -> Seq<(Text, Text)> {
    let triple = arch::gnu_triple(spec.target_arch);
    let prefix = arch::gnu_prefix(spec.target_arch);
    let lower = text::replaced(triple, '-', "_"@);
    let upper = arch::cargo_fragment(triple);
    if spec.build_system == BuildSystem::Cargo && spec.build_arch != spec.target_arch {
        seq![
            ("CARGO_BUILD_TARGET"@, triple),
            ("CARGO_TARGET_"@ + upper + "_LINKER"@, prefix + "-gcc"@),
            ("CC_"@ + lower, prefix + "-gcc"@),
            ("CC_"@ + upper, prefix + "-gcc"@),
            ("CXX_"@ + lower, prefix + "-g++"@),
            ("CXX_"@ + upper, prefix + "-g++"@),
            ("AR_"@ + lower, prefix + "-ar"@),
            ("AR_"@ + upper, prefix + "-ar"@),
        ]
    } else {
        Seq::empty()
    }
}

fn make_cargo_cross(spec: &PackageSpec) -> (env: Vec<(String, String)>)
    requires
        arch::supported_arch(spec.target_arch@),
    ensures
        env.deep_view() == cargo_cross(spec.deep_view()),
{
    let mut env = no_pairs();
    if spec.build_system == BuildSystem::Cargo && !same(&spec.build_arch, &spec.target_arch) {
        let triple: &str = linux_gnu_target_triple(&spec.target_arch);
        let prefix: &str = linux_gnu_toolchain_prefix(&spec.target_arch);
        let gcc = cat2(prefix, "-gcc");
        let gxx = cat2(prefix, "-g++");
        let ar = cat2(prefix, "-ar");
        let lower = replace(triple, '-', "_");
        let upper = cargo_target_env_fragment(triple);
        put_pair(&mut env, "CARGO_BUILD_TARGET", triple);
        put_pair(&mut env, &cat3("CARGO_TARGET_", &upper, "_LINKER"), &gcc);
        put_pair(&mut env, &cat2("CC_", &lower), &gcc);
        put_pair(&mut env, &cat2("CC_", &upper), &gcc);
        put_pair(&mut env, &cat2("CXX_", &lower), &gxx);
        put_pair(&mut env, &cat2("CXX_", &upper), &gxx);
        put_pair(&mut env, &cat2("AR_", &lower), &ar);
        put_pair(&mut env, &cat2("AR_", &upper), &ar);
    }
    env
}

/// Where the package configurations below the first `count` roots stand.
pub open spec fn pkg_config_dirs(roots: Seq<Text>, count: int) -> Seq<Text>
    decreases count,
{
    if count <= 0 {
        Seq::empty()
    } else {
        pkg_config_dirs(roots, count - 1).push(roots[count - 1] + "/lib/pkgconfig"@).push(
            roots[count - 1] + "/lib64/pkgconfig"@,
        )
    }
}

fn collect_pkg_config_dirs(roots: &Vec<String>) -> (dirs: Vec<String>)
    ensures
        dirs.deep_view() == pkg_config_dirs(roots.deep_view(), roots.len() as int),
{
    let mut dirs: Vec<String> = Vec::new();
    let mut count: usize = 0;
    assert(dirs.deep_view() == Seq::<Text>::empty());
    while count < roots.len()
        invariant
            count <= roots.len(),
            dirs.deep_view() == pkg_config_dirs(roots.deep_view(), count as int),
        decreases roots.len() - count,
    {
        assert(roots.deep_view()[count as int] == roots[count as int]@);
        put(&mut dirs, cat2(&roots[count], "/lib/pkgconfig"));
        put(&mut dirs, cat2(&roots[count], "/lib64/pkgconfig"));
        count = count + 1;
    }
    dirs
}

/// The variable that names the root of a dependency.
pub open spec fn root_variable(spec: PackageSpecView) -> Text {
    "DEPO_DEP_"@ + env_fragment(spec.name) + "_"@ + env_fragment(spec.namespace) + "_ROOT"@
}

/// What a build is told of its dependencies.
pub open spec fn dependency_environment(
    dependencies: Seq<PackageSpecView>,
    roots: Seq<Text>,
    separator: Text,
) -> Seq<(Text, Text)> {
    if roots.len() == 0 {
        Seq::empty()
    } else {
        seq![
            ("CMAKE_PREFIX_PATH"@, text::joined(roots, ";"@)),
            (
                "PKG_CONFIG_LIBDIR"@,
                text::joined(pkg_config_dirs(roots, roots.len() as int), separator),
            ),
        ] + Seq::new(roots.len(), |i: int| (root_variable(dependencies[i]), roots[i]))
    }
}

pub fn make_dependency_environment(
    dependencies: &Vec<PackageSpec>,
    roots: &Vec<String>,
    separator: &str,
) -> (env: Vec<(String, String)>)
    requires
        roots.len() <= dependencies.len(),
    ensures
        env.deep_view() == dependency_environment(
            dependencies.deep_view(),
            roots.deep_view(),
            separator@,
        ),
{
    let mut env = no_pairs();
    assert(roots.deep_view().len() == roots.len());
    if roots.len() == 0 {
        return env;
    }
    put_pair(&mut env, "CMAKE_PREFIX_PATH", &join(roots, ";"));
    put_pair(&mut env, "PKG_CONFIG_LIBDIR", &join(&collect_pkg_config_dirs(roots), separator));
    let ghost head = env.deep_view();
    let ghost all = Seq::new(
        roots.deep_view().len(),
        |i: int| (root_variable(dependencies.deep_view()[i]), roots.deep_view()[i]),
    );
    let mut index: usize = 0;
    assert(env.deep_view() == head + all.take(0));
    while index < roots.len()
        invariant
            index <= roots.len() <= dependencies.len(),
            roots.deep_view().len() == roots.len(),
            all == Seq::new(
                roots.deep_view().len(),
                |i: int| (root_variable(dependencies.deep_view()[i]), roots.deep_view()[i]),
            ),
            env.deep_view() == head + all.take(index as int),
        decreases roots.len() - index,
    {
        let dependency = &dependencies[index];
        assert(dependencies.deep_view()[index as int] == dependency.deep_view());
        assert(roots.deep_view()[index as int] == roots[index as int]@);
        let name = cat5(
            "DEPO_DEP_",
            &sanitize_env_fragment(&dependency.name),
            "_",
            &sanitize_env_fragment(&dependency.namespace),
            "_ROOT",
        );
        put_pair(&mut env, &name, &roots[index]);
        index = index + 1;
        assert(env.deep_view() == head + all.take(index as int));
    }
    assert(all.take(index as int) == all);
    env
}

/// What keeps a build from finding the libraries of the system.
pub open spec fn library_guards(system_libs: PackageSystemLibs) -> Seq<(Text, Text)> {
    if system_libs == PackageSystemLibs::Allow {
        Seq::empty()
    } else {
        seq![
            ("PKG_CONFIG_DIR"@, ""@),
            ("PKG_CONFIG_PATH"@, ""@),
            ("CPATH"@, ""@),
            ("LIBRARY_PATH"@, ""@),
            ("C_INCLUDE_PATH"@, ""@),
            ("CPLUS_INCLUDE_PATH"@, ""@),
        ]
    }
}

pub fn make_library_guards(system_libs: PackageSystemLibs) -> (env: Vec<(String, String)>)
    ensures
        env.deep_view() == library_guards(system_libs),
{
    let mut env = no_pairs();
    if system_libs != PackageSystemLibs::Allow {
        put_pair(&mut env, "PKG_CONFIG_DIR", "");
        put_pair(&mut env, "PKG_CONFIG_PATH", "");
        put_pair(&mut env, "CPATH", "");
        put_pair(&mut env, "LIBRARY_PATH", "");
        put_pair(&mut env, "C_INCLUDE_PATH", "");
        put_pair(&mut env, "CPLUS_INCLUDE_PATH", "");
    }
    env
}

/// The environment of the commands of a build on Linux. Of two values for one name the later
/// one counts.
pub open spec fn linux_environment(
    spec: PackageSpecView,
    dependencies: Seq<PackageSpecView>,
    facts: HostFactsView,
) -> Seq<(Text, Text)> {
    linux_place(spec, facts) + linux_tools(spec, facts) + linux_rust(spec, facts) + cargo_cross(
        spec,
    ) + dependency_environment(
        dependencies,
        cell_roots(HostPlatform::Linux, dependencies),
        ":"@,
    ) + library_guards(spec.system_libs)
}

pub fn build_command_environment(
    spec: &PackageSpec,
    dependency_specs: &Vec<PackageSpec>,
    facts: &HostFacts,
) -> (env: Vec<(String, String)>)
    requires
        arch::supported_arch(spec.build_arch@),
        arch::supported_arch(spec.target_arch@),
        spec.toolchain_inputs.len() == facts.tool_directories.len(),
    ensures
        env.deep_view() == linux_environment(
            spec.deep_view(),
            dependency_specs.deep_view(),
            facts.deep_view(),
        ),
{
    let roots = cell_dependency_roots(HostPlatform::Linux, dependency_specs);
    assert(roots.deep_view().len() == roots.len());
    let mut env = make_linux_place(spec, facts);
    put_all(&mut env, &make_linux_tools(spec, facts));
    put_all(&mut env, &make_linux_rust(spec, facts));
    put_all(&mut env, &make_cargo_cross(spec));
    put_all(&mut env, &make_dependency_environment(dependency_specs, &roots, ":"));
    put_all(&mut env, &make_library_guards(spec.system_libs));
    env
}

/// A directory of the host that a build sees under another path.
#[derive(Clone, Debug, PartialEq, Eq)]
pub struct Mount {
    pub source: String,
    pub destination: String,
    pub read_only: bool,
}

/// The model of [`Mount`].
pub struct MountView {
    pub source: Text,
    pub destination: Text,
    pub read_only: bool,
}

impl DeepView for Mount {
    type V = MountView;

    open spec fn deep_view(&self) -> MountView {
        MountView {
            source: self.source@,
            destination: self.destination@,
            read_only: self.read_only,
        }
    }
}

fn bind(mounts: &mut Vec<Mount>, source: &str, destination: &str, read_only: bool)
    ensures
        final(mounts).deep_view() == old(mounts).deep_view().push(
            (MountView { source: source@, destination: destination@, read_only }),
        ),
{
    put(
        mounts,
        Mount { source: source.to_owned(), destination: destination.to_owned(), read_only },
    );
}

/// A directory of the host that a build may read under its own path.
pub open spec fn shared(path: Text) -> MountView {
    MountView { source: path, destination: path, read_only: true }
}

/// The directories of the host that a build on the system sees where they are there.
pub open spec fn system_directories() -> Seq<Text> {
    seq!["/usr"@, "/bin"@, "/lib"@, "/lib64"@, "/etc"@]
}

pub fn list_system_directories() -> (directories: Vec<String>)
    ensures
        directories.deep_view() == system_directories(),
{
    let directories = vec![
        "/usr".to_owned(),
        "/bin".to_owned(),
        "/lib".to_owned(),
        "/lib64".to_owned(),
        "/etc".to_owned(),
    ];
    assert(directories.deep_view() == system_directories());
    directories
}

/// Mounts of paths under their own names.
pub open spec fn shared_all(paths: Seq<Text>) -> Seq<MountView> {
    paths.map_values(|path: Text| shared(path))
}

fn bind_shared(mounts: &mut Vec<Mount>, paths: &Vec<String>)
    ensures
        final(mounts).deep_view() == old(mounts).deep_view() + shared_all(paths.deep_view()),
{
    let ghost head = mounts.deep_view();
    let ghost all = shared_all(paths.deep_view());
    let mut index: usize = 0;
    assert(mounts.deep_view() == head + all.take(0));
    while index < paths.len()
        invariant
            index <= paths.len(),
            all == shared_all(paths.deep_view()),
            mounts.deep_view() == head + all.take(index as int),
        decreases paths.len() - index,
    {
        assert(paths.deep_view()[index as int] == paths[index as int]@);
        bind(mounts, &paths[index], &paths[index], true);
        index = index + 1;
        assert(mounts.deep_view() == head + all.take(index as int));
    }
    assert(all.take(index as int) == all);
}

/// The mount of a toolchain, where it is there.
pub open spec fn toolchain_mount(path: Option<Text>, destination: Text) -> Seq<MountView> {
    match path {
        Some(source) => seq![MountView { source, destination, read_only: true }],
        None => Seq::empty(),
    }
}

/// Where a provider keeps what outlives its builds: none, or an absolute path.
pub open spec fn cache_root_of(value: Option<Text>) -> Result<Option<Text>, Messages> {
    match value {
        None => Ok(None),
        Some(path) => if paths::absolute(path) {
            Ok(Some(path))
        } else {
            Err(seq!["DEPOS_PROVIDER_CACHE_ROOT must be an absolute path, got "@ + path])
        },
    }
}

pub fn linux_provider_cache_root(value: &Option<String>) -> (result: Result<
    Option<String>,
    Failure,
>)
    ensures
        outcome(result) == cache_root_of(value.deep_view()),
{
    match value {
        None => Ok(None),
        Some(path) => if is_absolute(path) {
            Ok(Some(path.dup()))
        } else {
            Err(
                failure(cat2("DEPOS_PROVIDER_CACHE_ROOT must be an absolute path, got ", path)),
            )
        },
    }
}

/// The mounts of what a provider keeps.
pub open spec fn cache_mounts(root: Option<Text>) -> Seq<MountView> {
    match root {
        None => Seq::empty(),
        Some(root) => seq![
            MountView {
                source: paths::joined_path(HostPlatform::Linux, root, "cargo-home"@),
                destination: "/work/build/provider-cargo-home"@,
                read_only: false,
            },
            MountView {
                source: paths::joined_path(HostPlatform::Linux, root, "rustup-home"@),
                destination: "/work/build/provider-rustup-home"@,
                read_only: false,
            },
        ],
    }
}

pub fn linux_provider_cache_mounts(root: &Option<String>) -> (mounts: Vec<Mount>)
    ensures
        mounts.deep_view() == cache_mounts(root.deep_view()),
{
    let mut mounts: Vec<Mount> = Vec::new();
    assert(mounts.deep_view() == Seq::<MountView>::empty());
    if let Some(root) = root {
        bind(
            &mut mounts,
            &join_path(HostPlatform::Linux, root, "cargo-home"),
            "/work/build/provider-cargo-home",
            false,
        );
        bind(
            &mut mounts,
            &join_path(HostPlatform::Linux, root, "rustup-home"),
            "/work/build/provider-rustup-home",
            false,
        );
    }
    mounts
}

/// The declared tools, none twice.
pub fn normalized_toolchain_inputs(values: &Vec<String>) -> (kept: Vec<String>)
    ensures
        kept.deep_view() == text::distinct(values.deep_view()),
{
    dedup_strings(values)
}

/// The sources of a build, which it may change.
pub open spec fn source_mount(source_root: Text) -> MountView {
    MountView { source: source_root, destination: "/work/source"@, read_only: false }
}

/// What every build on Linux sees that is not in an empty root: its sources and the store.
pub open spec fn common_mounts(source_root: Text, variant_root: Text) -> Seq<MountView> {
    seq![
        source_mount(source_root),
        MountView { source: variant_root, destination: "/depos"@, read_only: true },
    ]
}

/// The files of a dependency, where a build on Linux finds them.
pub open spec fn dependency_mount(variant_root: Text, dependency: PackageSpecView) -> MountView {
    MountView {
        source: paths::joined_path(
            HostPlatform::Linux,
            variant_root,
            layout::relative_store_root(HostPlatform::Linux, dependency),
        ),
        destination: cell_root(HostPlatform::Linux, dependency),
        read_only: true,
    }
}

/// The files of all dependencies.
pub open spec fn dependency_mounts(
    variant_root: Text,
    dependencies: Seq<PackageSpecView>,
) -> Seq<MountView> {
    dependencies.map_values(
        |dependency: PackageSpecView| dependency_mount(variant_root, dependency),
    )
}

/// The directories that a build on Linux sees. `present` holds the system directories that are
/// there. In an empty root nothing is seen but the sources, the dependencies and the declared
/// tools.
pub open spec fn linux_mounts(
    spec: PackageSpecView,
    source_root: Text,
    variant_root: Text,
    dependencies: Seq<PackageSpecView>,
    present: Seq<Text>,
    facts: HostFactsView,
    cache: Option<Text>,
) -> Result<Seq<MountView>, Messages> {
    let common = common_mounts(source_root, variant_root);
    let tools = shared_all(text::distinct(spec.toolchain_inputs));
    match spec.build_root {
        BuildRootView::System => Ok(
            common + shared_all(present) + toolchain_mount(
                facts.cargo_home,
                "/.metalor-toolchain/cargo-home"@,
            ) + toolchain_mount(facts.rustup_home, "/.metalor-toolchain/rustup-home"@),
        ),
        BuildRootView::Scratch => Ok(
            seq![source_mount(source_root)] + dependency_mounts(variant_root, dependencies) + tools,
        ),
        BuildRootView::Oci(_) => match cache_root_of(cache) {
            Ok(root) => Ok(common + tools + cache_mounts(root)),
            Err(messages) => Err(messages),
        },
    }
}

fn bind_dependencies(
    mounts: &mut Vec<Mount>,
    variant_root: &str,
    dependency_specs: &Vec<PackageSpec>,
)
    ensures
        final(mounts).deep_view() == old(mounts).deep_view() + dependency_mounts(
            variant_root@,
            dependency_specs.deep_view(),
        ),
{
    let ghost head = mounts.deep_view();
    let ghost all = dependency_mounts(variant_root@, dependency_specs.deep_view());
    let mut index: usize = 0;
    assert(mounts.deep_view() == head + all.take(0));
    while index < dependency_specs.len()
        invariant
            index <= dependency_specs.len(),
            all == dependency_mounts(variant_root@, dependency_specs.deep_view()),
            mounts.deep_view() == head + all.take(index as int),
        decreases dependency_specs.len() - index,
    {
        let dependency = &dependency_specs[index];
        assert(dependency_specs.deep_view()[index as int] == dependency.deep_view());
        bind(
            mounts,
            &join_path(
                HostPlatform::Linux,
                variant_root,
                &package_relative_store_root(HostPlatform::Linux, dependency),
            ),
            &cell_dependency_root(HostPlatform::Linux, dependency),
            true,
        );
        index = index + 1;
        assert(mounts.deep_view() == head + all.take(index as int));
    }
    assert(all.take(index as int) == all);
}

fn bind_toolchain(mounts: &mut Vec<Mount>, path: &Option<String>, destination: &str)
    ensures
        final(mounts).deep_view() == old(mounts).deep_view() + toolchain_mount(
            path.deep_view(),
            destination@,
        ),
{
    if let Some(source) = path {
        bind(mounts, source, destination, true);
    }
    assert(mounts.deep_view() == old(mounts).deep_view() + toolchain_mount(
        path.deep_view(),
        destination@,
    ));
}

impl text::Dup for Mount {
    fn dup(&self) -> (copy: Self) {
        Mount {
            source: self.source.dup(),
            destination: self.destination.dup(),
            read_only: self.read_only,
        }
    }
}

pub fn build_command_mounts(
    spec: &PackageSpec,
    source_root: &str,
    variant_root: &str,
    dependency_specs: &Vec<PackageSpec>,
    present: &Vec<String>,
    facts: &HostFacts,
    cache: &Option<String>,
) -> (result: Result<Vec<Mount>, Failure>)
    ensures
        outcome(result) == linux_mounts(
            spec.deep_view(),
            source_root@,
            variant_root@,
            dependency_specs.deep_view(),
            present.deep_view(),
            facts.deep_view(),
            cache.deep_view(),
        ),
{
    let mut mounts: Vec<Mount> = Vec::new();
    assert(mounts.deep_view() == Seq::<MountView>::empty());
    bind(&mut mounts, source_root, "/work/source", false);
    assert(mounts.deep_view() == seq![source_mount(source_root@)]);
    let tools = normalized_toolchain_inputs(&spec.toolchain_inputs);
    match spec.build_root {
        BuildRoot::System => {
            bind(&mut mounts, variant_root, "/depos", true);
            assert(mounts.deep_view() == common_mounts(source_root@, variant_root@));
            bind_shared(&mut mounts, present);
            bind_toolchain(&mut mounts, &facts.cargo_home, "/.metalor-toolchain/cargo-home");
            bind_toolchain(&mut mounts, &facts.rustup_home, "/.metalor-toolchain/rustup-home");
        },
        BuildRoot::Scratch => {
            bind_dependencies(&mut mounts, variant_root, dependency_specs);
            bind_shared(&mut mounts, &tools);
        },
        BuildRoot::Oci(_) => {
            bind(&mut mounts, variant_root, "/depos", true);
            assert(mounts.deep_view() == common_mounts(source_root@, variant_root@));
            bind_shared(&mut mounts, &tools);
            let root = linux_provider_cache_root(cache)?;
            put_all(&mut mounts, &linux_provider_cache_mounts(&root));
        },
    }
    Ok(mounts)
}

} // verus!
