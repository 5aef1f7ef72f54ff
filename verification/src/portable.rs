//! Builds on macOS and Windows, which run in a directory of their own.

use vstd::prelude::*;
use crate::arch;
use crate::arch::ascii_uppercase;
use crate::environment;
use crate::environment::{
    add_dependency_variables, make_clang_tools, make_common_variables,
    make_dependency_environment, make_library_guards, no_pairs, put_pair, CellDirs, CellDirsView,
};
use crate::failure::{failure, outcome, Failure, Messages};
use crate::layout;
use crate::layout::package_relative_store_root;
use crate::model::{BuildSystem, PackageSpec, PackageSpecView, Text, ToolchainSource};
use crate::paths;
use crate::paths::{display_path, join_path, normalize_host_path, HostPlatform};
use crate::text;
use crate::text::{
    cat2, contains_text, find_value, order_texts, put, put_all, same, split, starts_with,
    Order,
};

verus! {

/// What follows the pieces from position `from` on below `output`.
pub open spec fn below_job(
    platform: HostPlatform,
    cell_path: Text,
    parts: Seq<Text>,
    from: int,
    output: Text,
) -> Result<Text, Messages>
    decreases parts.len() - from,
{
    if from >= parts.len() {
        Ok(paths::plain_host_path(platform, output))
    } else if parts[from] == ""@ || parts[from] == "."@ {
        below_job(platform, cell_path, parts, from + 1, output)
    } else if parts[from] == ".."@ {
        Err(seq!["portable build-cell path must not contain '..': "@ + cell_path])
    } else {
        below_job(
            platform,
            cell_path,
            parts,
            from + 1,
            paths::joined_path(platform, output, parts[from]),
        )
    }
}

/// Where the path that a build knows stands on the host.
pub open spec fn cell_host_path(platform: HostPlatform, job_root: Text, cell_path: Text) -> Result<
    Text,
    Messages,
> {
    if !text::has_prefix(cell_path, "/"@) {
        Err(seq!["portable build-cell path must be absolute: "@ + cell_path])
    } else {
        below_job(
            platform,
            cell_path,
            text::pieces(cell_path, '/'),
            0,
            paths::plain_host_path(platform, job_root),
        )
    }
}

pub fn portable_cell_host_path(platform: HostPlatform, job_root: &str, cell_path: &str) -> (result:
    Result<String, Failure>)
    ensures
        outcome(result) == cell_host_path(platform, job_root@, cell_path@),
{
    if !starts_with(cell_path, "/") {
        return Err(failure(cat2("portable build-cell path must be absolute: ", cell_path)));
    }
    let parts = split(cell_path, '/');
    let mut output = normalize_host_path(platform, job_root);
    let mut from: usize = 0;
    while from < parts.len()
        invariant
            from <= parts.len(),
            parts.deep_view() == text::pieces(cell_path@, '/'),
            text::has_prefix(cell_path@, "/"@),
            cell_host_path(platform, job_root@, cell_path@) == below_job(
                platform,
                cell_path@,
                parts.deep_view(),
                from as int,
                output@,
            ),
        decreases parts.len() - from,
    {
        let part: &str = parts[from].as_str();
        assert(parts.deep_view()[from as int] == part@);
        if same(part, "..") {
            proof {
                reveal_strlit("..");
                reveal_strlit(".");
                reveal_strlit("");
                assert(".."@.len() == 2);
                assert("."@.len() == 1);
                assert(""@.len() == 0);
            }
            return Err(
                failure(cat2("portable build-cell path must not contain '..': ", cell_path)),
            );
        }
        if !same(part, "") && !same(part, ".") {
            output = join_path(platform, &output, part);
        }
        from = from + 1;
    }
    Ok(normalize_host_path(platform, &output))
}

/// Where the directories of a build stand on the host.
#[derive(Clone, Debug, PartialEq, Eq)]
pub struct PortableCommandPaths {
    pub job_root: String,
    pub source_dir: String,
    pub build_dir: String,
    pub prefix_dir: String,
    pub deps_dir: String,
    pub tmp_dir: String,
}

/// The model of [`PortableCommandPaths`].
pub struct PortableCommandPathsView {
    pub job_root: Text,
    pub source_dir: Text,
    pub build_dir: Text,
    pub prefix_dir: Text,
    pub deps_dir: Text,
    pub tmp_dir: Text,
}

impl DeepView for PortableCommandPaths {
    type V = PortableCommandPathsView;

    open spec fn deep_view(&self) -> PortableCommandPathsView {
        PortableCommandPathsView {
            job_root: self.job_root@,
            source_dir: self.source_dir@,
            build_dir: self.build_dir@,
            prefix_dir: self.prefix_dir@,
            deps_dir: self.deps_dir@,
            tmp_dir: self.tmp_dir@,
        }
    }
}

/// The directories of a build in `job_root`.
pub open spec fn command_paths(platform: HostPlatform, job_root: Text) -> Result<
    PortableCommandPathsView,
    Messages,
> {
    let root = paths::plain_host_path(platform, job_root);
    match cell_host_path(platform, root, "/work/source"@) {
        Err(messages) => Err(messages),
        Ok(source_dir) => match cell_host_path(platform, root, "/work/build"@) {
            Err(messages) => Err(messages),
            Ok(build_dir) => match cell_host_path(platform, root, "/work/prefix"@) {
                Err(messages) => Err(messages),
                Ok(prefix_dir) => match cell_host_path(platform, root, "/depos"@) {
                    Err(messages) => Err(messages),
                    Ok(deps_dir) => match cell_host_path(platform, root, "/tmp"@) {
                        Err(messages) => Err(messages),
                        Ok(tmp_dir) => Ok(
                            PortableCommandPathsView {
                                job_root: root,
                                source_dir,
                                build_dir,
                                prefix_dir,
                                deps_dir,
                                tmp_dir,
                            },
                        ),
                    },
                },
            },
        },
    }
}

pub fn portable_command_paths(platform: HostPlatform, job_root: &str) -> (result: Result<
    PortableCommandPaths,
    Failure,
>)
    ensures
        outcome(result) == command_paths(platform, job_root@),
{
    let root = normalize_host_path(platform, job_root);
    let source_dir = portable_cell_host_path(platform, &root, "/work/source")?;
    let build_dir = portable_cell_host_path(platform, &root, "/work/build")?;
    let prefix_dir = portable_cell_host_path(platform, &root, "/work/prefix")?;
    let deps_dir = portable_cell_host_path(platform, &root, "/depos")?;
    let tmp_dir = portable_cell_host_path(platform, &root, "/tmp")?;
    Ok(
        PortableCommandPaths {
            job_root: root,
            source_dir,
            build_dir,
            prefix_dir,
            deps_dir,
            tmp_dir,
        },
    )
}

/// Where a dependency stands on the host during a build.
pub open spec fn job_dependency_root(
    platform: HostPlatform,
    job_root: Text,
    dependency: PackageSpecView,
) -> Result<Text, Messages> {
    cell_host_path(
        platform,
        job_root,
        "/depos/"@ + paths::shown_path(platform, layout::relative_store_root(platform, dependency)),
    )
}

pub fn portable_dependency_root(
    platform: HostPlatform,
    job_root: &str,
    dependency: &PackageSpec,
) -> (result: Result<String, Failure>)
    ensures
        outcome(result) == job_dependency_root(platform, job_root@, dependency.deep_view()),
{
    let relative = display_path(platform, &package_relative_store_root(platform, dependency));
    portable_cell_host_path(platform, job_root, &cat2("/depos/", &relative))
}

/// Where the dependencies from position `from` on stand, put behind `done` and written with
/// slashes.
pub open spec fn job_roots_from(
    platform: HostPlatform,
    job_root: Text,
    dependencies: Seq<PackageSpecView>,
    from: int,
    done: Seq<Text>,
) -> Result<Seq<Text>, Messages>
    decreases dependencies.len() - from,
{
    if from >= dependencies.len() {
        Ok(done)
    } else {
        match job_dependency_root(platform, job_root, dependencies[from]) {
            Err(messages) => Err(messages),
            Ok(root) => job_roots_from(
                platform,
                job_root,
                dependencies,
                from + 1,
                done.push(paths::shown_path(platform, root)),
            ),
        }
    }
}

/// Where the dependencies of a build stand on the host.
pub open spec fn job_roots(
    platform: HostPlatform,
    job_root: Text,
    dependencies: Seq<PackageSpecView>,
) -> Result<Seq<Text>, Messages> {
    job_roots_from(platform, job_root, dependencies, 0, Seq::empty())
}

fn portable_dependency_roots(
    platform: HostPlatform,
    job_root: &str,
    dependencies: &Vec<PackageSpec>,
) -> (result: Result<Vec<String>, Failure>)
    ensures
        outcome(result) == job_roots(platform, job_root@, dependencies.deep_view()),
        result matches Ok(roots) ==> roots.len() == dependencies.len(),
{
    let mut done: Vec<String> = Vec::new();
    assert(done.deep_view() == Seq::<Text>::empty());
    let mut from: usize = 0;
    while from < dependencies.len()
        invariant
            from <= dependencies.len(),
            done.len() == from,
            job_roots(platform, job_root@, dependencies.deep_view()) == job_roots_from(
                platform,
                job_root@,
                dependencies.deep_view(),
                from as int,
                done.deep_view(),
            ),
        decreases dependencies.len() - from,
    {
        assert(dependencies.deep_view()[from as int] == dependencies[from as int].deep_view());
        let root = portable_dependency_root(platform, job_root, &dependencies[from])?;
        put(&mut done, display_path(platform, &root));
        assert(done.deep_view().len() == done.len());
        from = from + 1;
    }
    Ok(done)
}

/// A directory of the host and the path that a build knows it by.
pub type Binding = (String, String);

/// What a build is given and what is kept of it.
#[derive(Clone, Debug, PartialEq, Eq)]
pub struct PortableCell {
    pub scratch: String,
    pub workspace_path: String,
    pub imports: Vec<Binding>,
    pub caches: Vec<Binding>,
}

/// The model of [`PortableCell`].
pub struct PortableCellView {
    pub scratch: Text,
    pub workspace_path: Text,
    pub imports: Seq<(Text, Text)>,
    pub caches: Seq<(Text, Text)>,
}

impl DeepView for PortableCell {
    type V = PortableCellView;

    open spec fn deep_view(&self) -> PortableCellView {
        PortableCellView {
            scratch: self.scratch@,
            workspace_path: self.workspace_path@,
            imports: self.imports.deep_view(),
            caches: self.caches.deep_view(),
        }
    }
}

/// Where the dependencies come from and where a build finds them.
pub open spec fn imports_of(
    platform: HostPlatform,
    variant_root: Text,
    dependencies: Seq<PackageSpecView>,
) -> Seq<(Text, Text)> {
    dependencies.map_values(
        |dependency: PackageSpecView|
            (
                paths::joined_path(
                    platform,
                    variant_root,
                    layout::relative_store_root(platform, dependency),
                ),
                "/depos/"@ + paths::shown_path(
                    platform,
                    layout::relative_store_root(platform, dependency),
                ),
            ),
    )
}

/// What the build of a package is given.
pub open spec fn command_cell(
    platform: HostPlatform,
    runtime_package_root: Text,
    variant_root: Text,
    dependencies: Seq<PackageSpecView>,
) -> PortableCellView {
    let cache = paths::joined_path(platform, runtime_package_root, "cache"@);
    PortableCellView {
        scratch: paths::joined_path(platform, runtime_package_root, "scratch"@),
        workspace_path: "/work/source"@,
        imports: imports_of(platform, variant_root, dependencies),
        caches: seq![
            (paths::joined_path(platform, cache, "build"@), "/work/build"@),
            (paths::joined_path(platform, cache, "prefix"@), "/work/prefix"@),
            (paths::joined_path(platform, cache, "tmp"@), "/tmp"@),
        ],
    }
}

pub fn build_portable_command_cell(
    platform: HostPlatform,
    runtime_package_root: &str,
    variant_root: &str,
    dependency_specs: &Vec<PackageSpec>,
) -> (cell: PortableCell)
    ensures
        cell.deep_view() == command_cell(
            platform,
            runtime_package_root@,
            variant_root@,
            dependency_specs.deep_view(),
        ),
{
    let ghost all = imports_of(platform, variant_root@, dependency_specs.deep_view());
    let mut imports = no_pairs();
    let mut index: usize = 0;
    assert(imports.deep_view() == all.take(0));
    while index < dependency_specs.len()
        invariant
            index <= dependency_specs.len(),
            all == imports_of(platform, variant_root@, dependency_specs.deep_view()),
            imports.deep_view() == all.take(index as int),
        decreases dependency_specs.len() - index,
    {
        assert(dependency_specs.deep_view()[index as int]
            == dependency_specs[index as int].deep_view());
        let relative = package_relative_store_root(platform, &dependency_specs[index]);
        put_pair(
            &mut imports,
            &join_path(platform, variant_root, &relative),
            &cat2("/depos/", &display_path(platform, &relative)),
        );
        index = index + 1;
        assert(imports.deep_view() == all.take(index as int));
    }
    assert(all.take(index as int) == all);
    assert(imports.deep_view() == all);
    let cache = join_path(platform, runtime_package_root, "cache");
    let mut caches = no_pairs();
    put_pair(&mut caches, &join_path(platform, &cache, "build"), "/work/build");
    put_pair(&mut caches, &join_path(platform, &cache, "prefix"), "/work/prefix");
    put_pair(&mut caches, &join_path(platform, &cache, "tmp"), "/tmp");
    assert(caches.deep_view() == command_cell(
        platform,
        runtime_package_root@,
        variant_root@,
        dependency_specs.deep_view(),
    ).caches);
    PortableCell {
        scratch: join_path(platform, runtime_package_root, "scratch"),
        workspace_path: "/work/source".to_owned(),
        imports,
        caches,
    }
}

/// The directories that commands are told of.
pub open spec fn told_dirs(
    platform: HostPlatform,
    paths: PortableCommandPathsView,
) -> CellDirsView {
    CellDirsView {
        source: paths::shown_path(platform, paths.source_dir),
        build: paths::shown_path(platform, paths.build_dir),
        prefix: paths::shown_path(platform, paths.prefix_dir),
        deps: paths::shown_path(platform, paths.deps_dir),
    }
}

fn make_told_dirs(platform: HostPlatform, paths: &PortableCommandPaths) -> (dirs: CellDirs)
    ensures
        dirs.deep_view() == told_dirs(platform, paths.deep_view()),
{
    CellDirs {
        source: display_path(platform, &paths.source_dir),
        build: display_path(platform, &paths.build_dir),
        prefix: display_path(platform, &paths.prefix_dir),
        deps: display_path(platform, &paths.deps_dir),
    }
}

/// The variables that commands may use on macOS and Windows. A dependency that cannot be placed
/// is reported where no earlier one is ambiguous.
pub open spec fn portable_variables(
    platform: HostPlatform,
    spec: PackageSpecView,
    dependencies: Seq<PackageSpecView>,
    paths: PortableCommandPathsView,
) -> Result<Seq<(Text, Text)>, Messages> {
    let start = environment::common_variables(spec, told_dirs(platform, paths));
    let placed = placed_count(platform, paths.job_root, dependencies, 0);
    let roots = Seq::new(
        placed as nat,
        |i: int|
            paths::shown_path(
                platform,
                job_dependency_root(platform, paths.job_root, dependencies[i])->Ok_0,
            ),
    );
    match environment::dependency_variables(
        spec.id(),
        dependencies.take(placed),
        roots,
        0,
        start,
    ) {
        Err(messages) => Err(messages),
        Ok(variables) => if placed < dependencies.len() {
            Err(job_dependency_root(platform, paths.job_root, dependencies[placed])->Err_0)
        } else {
            Ok(variables)
        },
    }
}

/// The position of the first dependency at or behind `from` that cannot be placed, or their
/// number.
pub open spec fn placed_count(
    platform: HostPlatform,
    job_root: Text,
    dependencies: Seq<PackageSpecView>,
    from: int,
) -> int
    decreases dependencies.len() - from,
{
    if from >= dependencies.len() {
        dependencies.len() as int
    } else if job_dependency_root(platform, job_root, dependencies[from]) is Err {
        from
    } else {
        placed_count(platform, job_root, dependencies, from + 1)
    }
}

pub fn build_portable_command_variables(
    platform: HostPlatform,
    spec: &PackageSpec,
    dependency_specs: &Vec<PackageSpec>,
    paths: &PortableCommandPaths,
) -> (result: Result<Vec<(String, String)>, Failure>)
    ensures
        outcome(result) == portable_variables(
            platform,
            spec.deep_view(),
            dependency_specs.deep_view(),
            paths.deep_view(),
        ),
{
    let start = make_common_variables(spec, &make_told_dirs(platform, paths));
    let ghost job_root = paths.deep_view().job_root;
    let ghost specs = dependency_specs.deep_view();
    let ghost placed = placed_count(platform, job_root, specs, 0);
    let mut roots: Vec<String> = Vec::new();
    let mut count: usize = 0;
    let mut fault: Option<Failure> = None;
    assert(roots.deep_view() == Seq::<Text>::empty());
    while count < dependency_specs.len() && fault.is_none()
        invariant
            count <= dependency_specs.len(),
            specs == dependency_specs.deep_view(),
            job_root == paths.job_root@,
            placed == placed_count(platform, job_root, specs, 0),
            placed == placed_count(platform, job_root, specs, count as int),
            roots.deep_view() == Seq::new(
                count as nat,
                |i: int|
                    paths::shown_path(
                        platform,
                        job_dependency_root(platform, job_root, specs[i])->Ok_0,
                    ),
            ),
            match fault {
                None => true,
                Some(fault) => count < specs.len() && placed == count && job_dependency_root(
                    platform,
                    job_root,
                    specs[count as int],
                ) == Err::<Text, Messages>(fault.deep_view()),
            },
        decreases
                dependency_specs.len() - count + if fault is None {
                    1int
                } else {
                    0int
                },
    {
        assert(specs[count as int] == dependency_specs[count as int].deep_view());
        match portable_dependency_root(platform, &paths.job_root, &dependency_specs[count]) {
            Ok(root) => {
                put(&mut roots, display_path(platform, &root));
                count = count + 1;
            },
            Err(failure) => {
                fault = Some(failure);
            },
        }
    }
    assert(placed == count);
    assert(roots.deep_view().len() == roots.len());
    let considered = text::dup_range(dependency_specs, 0, count);
    assert(considered.deep_view() == specs.take(placed));
    assert(considered.deep_view().len() == considered.len());
    let variables = add_dependency_variables(&spec.package_id(), &considered, &roots, start)?;
    match fault {
        Some(fault) => Err(fault),
        None => Ok(variables),
    }
}

/// What a build on macOS or Windows has to know of the machine.
#[derive(Clone, Debug, PartialEq, Eq)]
pub struct PortableFacts {
    /// The search path of the host; empty where it has none.
    pub path: String,
    /// What the environment holds under [`windows_keys`], in that order.
    pub windows_values: Vec<(String, String)>,
    /// The whole environment of the host.
    pub variables: Vec<(String, String)>,
    /// Cargo's home, where it is there.
    pub cargo_home: Option<String>,
    /// The home of rustup, where it is there.
    pub rustup_home: Option<String>,
}

/// The model of [`PortableFacts`].
pub struct PortableFactsView {
    pub path: Text,
    pub windows_values: Seq<(Text, Text)>,
    pub variables: Seq<(Text, Text)>,
    pub cargo_home: Option<Text>,
    pub rustup_home: Option<Text>,
}

impl DeepView for PortableFacts {
    type V = PortableFactsView;

    open spec fn deep_view(&self) -> PortableFactsView {
        PortableFactsView {
            path: self.path@,
            windows_values: self.windows_values.deep_view(),
            variables: self.variables.deep_view(),
            cargo_home: self.cargo_home.deep_view(),
            rustup_home: self.rustup_home.deep_view(),
        }
    }
}

/// The names under which Windows keeps what its commands cannot do without.
pub open spec fn windows_names() -> Seq<Text> {
    seq![
        "COMSPEC"@,
        "ComSpec"@,
        "PATHEXT"@,
        "PathExt"@,
        "SYSTEMDRIVE"@,
        "SystemDrive"@,
        "SYSTEMROOT"@,
        "SystemRoot"@,
        "WINDIR"@,
        "Windir"@,
    ]
}

pub fn windows_keys() -> (keys: Vec<String>)
    ensures
        keys.deep_view() == windows_names(),
{
    let keys = vec![
        "COMSPEC".to_owned(),
        "ComSpec".to_owned(),
        "PATHEXT".to_owned(),
        "PathExt".to_owned(),
        "SYSTEMDRIVE".to_owned(),
        "SystemDrive".to_owned(),
        "SYSTEMROOT".to_owned(),
        "SystemRoot".to_owned(),
        "WINDIR".to_owned(),
        "Windir".to_owned(),
    ];
    assert(keys.deep_view() == windows_names());
    keys
}

/// The capitalised names of the variables that tell of Microsoft's compilers.
pub open spec fn compiler_names() -> Seq<Text> {
    seq![
        "AR"@,
        "CC"@,
        "CL"@,
        "COMMANDPROMPTTYPE"@,
        "CXX"@,
        "DEVENVDIR"@,
        "EXTERNAL_INCLUDE"@,
        "INCLUDE"@,
        "LIB"@,
        "LIBPATH"@,
        "LINK"@,
        "MT"@,
        "PLATFORM"@,
        "PLATFORMTOOLSET"@,
        "PREFERREDTOOLARCHITECTURE"@,
        "RC"@,
        "UCRTVERSION"@,
        "UNIVERSALCRTSDKDIR"@,
        "VCIDEINSTALLDIR"@,
        "VCINSTALLDIR"@,
        "VCTOOLSINSTALLDIR"@,
        "VCTOOLSREDISTDIR"@,
        "VCTOOLSVERSION"@,
        "VISUALSTUDIOVERSION"@,
        "VSINSTALLDIR"@,
        "WINDOWSLIBPATH"@,
        "WINDOWSSDKBINPATH"@,
        "WINDOWSSDKDIR"@,
        "WINDOWSSDKLIBVERSION"@,
        "WINDOWSSDKVERSION"@,
        "WINDOWSSDKVERBINPATH"@,
        "_CL_"@,
        "_LINK_"@,
    ]
}

fn list_compiler_names() -> (names: Vec<String>)
    ensures
        names.deep_view() == compiler_names(),
{
    let names = vec![
        "AR".to_owned(),
        "CC".to_owned(),
        "CL".to_owned(),
        "COMMANDPROMPTTYPE".to_owned(),
        "CXX".to_owned(),
        "DEVENVDIR".to_owned(),
        "EXTERNAL_INCLUDE".to_owned(),
        "INCLUDE".to_owned(),
        "LIB".to_owned(),
        "LIBPATH".to_owned(),
        "LINK".to_owned(),
        "MT".to_owned(),
        "PLATFORM".to_owned(),
        "PLATFORMTOOLSET".to_owned(),
        "PREFERREDTOOLARCHITECTURE".to_owned(),
        "RC".to_owned(),
        "UCRTVERSION".to_owned(),
        "UNIVERSALCRTSDKDIR".to_owned(),
        "VCIDEINSTALLDIR".to_owned(),
        "VCINSTALLDIR".to_owned(),
        "VCTOOLSINSTALLDIR".to_owned(),
        "VCTOOLSREDISTDIR".to_owned(),
        "VCTOOLSVERSION".to_owned(),
        "VISUALSTUDIOVERSION".to_owned(),
        "VSINSTALLDIR".to_owned(),
        "WINDOWSLIBPATH".to_owned(),
        "WINDOWSSDKBINPATH".to_owned(),
        "WINDOWSSDKDIR".to_owned(),
        "WINDOWSSDKLIBVERSION".to_owned(),
        "WINDOWSSDKVERSION".to_owned(),
        "WINDOWSSDKVERBINPATH".to_owned(),
        "_CL_".to_owned(),
        "_LINK_".to_owned(),
    ];
    assert(names.deep_view() == compiler_names());
    names
}

/// How the capitalised names of other such variables begin.
pub open spec fn compiler_prefixes() -> Seq<Text> {
    seq![
        "__VSCMD_"@,
        "EXTENSIONSDK"@,
        "FRAMEWORK"@,
        "UCRT"@,
        "UNIVERSALCRT"@,
        "VC"@,
        "VSCMD_"@,
        "VS"@,
        "WINDOWS"@,
    ]
}

fn list_compiler_prefixes() -> (prefixes: Vec<String>)
    ensures
        prefixes.deep_view() == compiler_prefixes(),
{
    let prefixes = vec![
        "__VSCMD_".to_owned(),
        "EXTENSIONSDK".to_owned(),
        "FRAMEWORK".to_owned(),
        "UCRT".to_owned(),
        "UNIVERSALCRT".to_owned(),
        "VC".to_owned(),
        "VSCMD_".to_owned(),
        "VS".to_owned(),
        "WINDOWS".to_owned(),
    ];
    assert(prefixes.deep_view() == compiler_prefixes());
    prefixes
}

/// Whether `name` begins like one of the first `count` prefixes.
pub open spec fn begins_like(name: Text, prefixes: Seq<Text>, count: int) -> bool {
    exists|i: int| 0 <= i < count && text::has_prefix(name, #[trigger] prefixes[i])
}

/// Whether a variable of Windows tells of its compilers.
pub open spec fn tells_of_compilers(key: Text) -> bool {
    let name = arch::uppercase(key);
    compiler_names().contains(name) || begins_like(
        name,
        compiler_prefixes(),
        compiler_prefixes().len() as int,
    )
}

fn is_compiler_variable(key: &str) -> (yes: bool)
    ensures
        yes == tells_of_compilers(key@),
{
    let name = ascii_uppercase(key);
    if contains_text(&list_compiler_names(), &name) {
        return true;
    }
    let prefixes = list_compiler_prefixes();
    assert(prefixes.deep_view().len() == prefixes.len());
    let mut index: usize = 0;
    while index < prefixes.len()
        invariant
            index <= prefixes.len(),
            prefixes.deep_view() == compiler_prefixes(),
            prefixes.deep_view().len() == prefixes.len(),
            name@ == arch::uppercase(key@),
            !begins_like(name@, prefixes.deep_view(), index as int),
        decreases prefixes.len() - index,
    {
        assert(prefixes.deep_view()[index as int] == prefixes[index as int]@);
        if starts_with(&name, &prefixes[index]) {
            return true;
        }
        index = index + 1;
    }
    false
}

/// The position of the first pair at or behind `from` whose key is not less than `key`.
pub open spec fn key_slot(pairs: Seq<(Text, Text)>, key: Text, from: int) -> int
    decreases pairs.len() - from,
{
    if from >= pairs.len() {
        pairs.len() as int
    } else if text::text_order(pairs[from].0, key) == Order::Less {
        key_slot(pairs, key, from + 1)
    } else {
        from
    }
}

/// Pairs ordered by their keys, with `value` under `key`.
pub open spec fn with_pair(pairs: Seq<(Text, Text)>, key: Text, value: Text) -> Seq<(Text, Text)> {
    let slot = key_slot(pairs, key, 0);
    if slot < pairs.len() && pairs[slot].0 == key {
        pairs.update(slot, (key, value))
    } else {
        pairs.insert(slot, (key, value))
    }
}

fn insert_pair(pairs: &mut Vec<(String, String)>, key: &str, value: &str)
    ensures
        final(pairs).deep_view() == with_pair(old(pairs).deep_view(), key@, value@),
{
    let mut slot: usize = 0;
    while slot < pairs.len() && order_texts(&pairs[slot].0, key) == Order::Less
        invariant
            slot <= pairs.len(),
            *pairs == *old(pairs),
            key_slot(pairs.deep_view(), key@, 0) == key_slot(
                pairs.deep_view(),
                key@,
                slot as int,
            ),
        decreases pairs.len() - slot,
    {
        assert(pairs.deep_view()[slot as int] == pairs[slot as int].deep_view());
        slot = slot + 1;
    }
    proof {
        if slot < pairs.len() {
            assert(pairs.deep_view()[slot as int] == pairs[slot as int].deep_view());
        }
    }
    let pair = (key.to_owned(), value.to_owned());
    if slot < pairs.len() && same(&pairs[slot].0, key) {
        pairs.set(slot, pair);
        assert(pairs.deep_view() == old(pairs).deep_view().update(slot as int, (key@, value@)));
    } else {
        pairs.insert(slot, pair);
        assert(pairs.deep_view() == old(pairs).deep_view().insert(slot as int, (key@, value@)));
    }
}

/// Those of the variables from position `from` on that tell of compilers, put into `done` in the
/// order of their names.
pub open spec fn compiler_variables(
    variables: Seq<(Text, Text)>,
    from: int,
    done: Seq<(Text, Text)>,
) -> Seq<(Text, Text)>
    decreases variables.len() - from,
{
    if from >= variables.len() {
        done
    } else if tells_of_compilers(variables[from].0) {
        compiler_variables(
            variables,
            from + 1,
            with_pair(done, variables[from].0, variables[from].1),
        )
    } else {
        compiler_variables(variables, from + 1, done)
    }
}

/// `pairs` with `value` under `key`, unless the key is there.
pub open spec fn with_default(
    pairs: Seq<(Text, Text)>,
    key: Text,
    value: Text,
) -> Seq<(Text, Text)> {
    match text::value_of(pairs, key) {
        Some(_) => pairs,
        None => with_pair(pairs, key, value),
    }
}

/// The compilers of the system on macOS and Windows.
pub open spec fn system_tools(platform: HostPlatform, variables: Seq<(Text, Text)>) -> Seq<
    (Text, Text),
> {
    let found = compiler_variables(variables, 0, Seq::empty());
    if platform != HostPlatform::Windows {
        environment::clang_tools()
    } else if text::value_of(found, "VSINSTALLDIR"@) is Some {
        with_default(with_default(found, "CC"@, "cl"@), "CXX"@, "cl"@)
    } else {
        found
    }
}

fn insert_default(pairs: &mut Vec<(String, String)>, key: &str, value: &str)
    ensures
        final(pairs).deep_view() == with_default(old(pairs).deep_view(), key@, value@),
{
    if find_value(pairs, key).is_none() {
        insert_pair(pairs, key, value);
    }
}

pub fn default_system_tool_environment(
    platform: HostPlatform,
    variables: &Vec<(String, String)>,
) -> (env: Vec<(String, String)>)
    ensures
        env.deep_view() == system_tools(platform, variables.deep_view()),
{
    if platform != HostPlatform::Windows {
        return make_clang_tools();
    }
    let mut env = no_pairs();
    let mut from: usize = 0;
    while from < variables.len()
        invariant
            from <= variables.len(),
            compiler_variables(variables.deep_view(), 0, Seq::empty()) == compiler_variables(
                variables.deep_view(),
                from as int,
                env.deep_view(),
            ),
        decreases variables.len() - from,
    {
        assert(variables.deep_view()[from as int] == variables[from as int].deep_view());
        if is_compiler_variable(&variables[from].0) {
            insert_pair(&mut env, &variables[from].0, &variables[from].1);
        }
        from = from + 1;
    }
    if find_value(&env, "VSINSTALLDIR").is_some() {
        insert_default(&mut env, "CC", "cl");
        insert_default(&mut env, "CXX", "cl");
    }
    env
}

/// Where a build on macOS or Windows takes place.
pub open spec fn portable_place(
    platform: HostPlatform,
    spec: PackageSpecView,
    paths: PortableCommandPathsView,
    facts: PortableFactsView,
) -> Seq<(Text, Text)> {
    let dirs = told_dirs(platform, paths);
    let tmp = paths::shown_path(platform, paths.tmp_dir);
    seq![
        ("PATH"@, facts.path),
        ("HOME"@, tmp),
        ("TMPDIR"@, tmp),
        ("DEPO_SOURCE_DIR"@, dirs.source),
        ("DEPO_BUILD_DIR"@, dirs.build),
        ("DEPO_PREFIX"@, dirs.prefix),
        ("DEPO_DEPS_DIR"@, dirs.deps),
        ("DEPO_BUILD_ARCH"@, spec.build_arch),
        ("DEPO_TARGET_ARCH"@, spec.target_arch),
    ] + if platform == HostPlatform::Windows {
        seq![("USERPROFILE"@, tmp), ("TMP"@, tmp), ("TEMP"@, tmp)] + facts.windows_values
    } else {
        Seq::empty()
    }
}

fn make_portable_place(
    platform: HostPlatform,
    spec: &PackageSpec,
    paths: &PortableCommandPaths,
    facts: &PortableFacts,
) -> (env: Vec<(String, String)>)
    ensures
        env.deep_view() == portable_place(
            platform,
            spec.deep_view(),
            paths.deep_view(),
            facts.deep_view(),
        ),
{
    let dirs = make_told_dirs(platform, paths);
    let tmp = display_path(platform, &paths.tmp_dir);
    let mut env = no_pairs();
    put_pair(&mut env, "PATH", &facts.path);
    put_pair(&mut env, "HOME", &tmp);
    put_pair(&mut env, "TMPDIR", &tmp);
    put_pair(&mut env, "DEPO_SOURCE_DIR", &dirs.source);
    put_pair(&mut env, "DEPO_BUILD_DIR", &dirs.build);
    put_pair(&mut env, "DEPO_PREFIX", &dirs.prefix);
    put_pair(&mut env, "DEPO_DEPS_DIR", &dirs.deps);
    put_pair(&mut env, "DEPO_BUILD_ARCH", &spec.build_arch);
    put_pair(&mut env, "DEPO_TARGET_ARCH", &spec.target_arch);
    if platform == HostPlatform::Windows {
        put_pair(&mut env, "USERPROFILE", &tmp);
        put_pair(&mut env, "TMP", &tmp);
        put_pair(&mut env, "TEMP", &tmp);
        put_all(&mut env, &facts.windows_values);
    }
    env
}

/// Where a build on macOS or Windows finds Rust.
pub open spec fn portable_rust(
    platform: HostPlatform,
    spec: PackageSpecView,
    paths: PortableCommandPathsView,
    facts: PortableFactsView,
) -> Seq<(Text, Text)> {
    let cargo = if spec.build_system == BuildSystem::Cargo {
        seq![
            (
                "CARGO_HOME"@,
                paths::shown_path(
                    platform,
                    paths::joined_path(platform, paths.build_dir, "cargo-home"@),
                ),
            ),
        ]
    } else {
        match facts.cargo_home {
            Some(home) => seq![("CARGO_HOME"@, paths::shown_path(platform, home))],
            None => Seq::empty(),
        }
    };
    cargo + match facts.rustup_home {
        Some(home) => seq![("RUSTUP_HOME"@, paths::shown_path(platform, home))],
        None => Seq::empty(),
    }
}

fn make_portable_rust(
    platform: HostPlatform,
    spec: &PackageSpec,
    paths: &PortableCommandPaths,
    facts: &PortableFacts,
) -> (env: Vec<(String, String)>)
    ensures
        env.deep_view() == portable_rust(
            platform,
            spec.deep_view(),
            paths.deep_view(),
            facts.deep_view(),
        ),
{
    let mut env = no_pairs();
    if spec.build_system == BuildSystem::Cargo {
        let home = join_path(platform, &paths.build_dir, "cargo-home");
        put_pair(&mut env, "CARGO_HOME", &display_path(platform, &home));
    } else if let Some(home) = &facts.cargo_home {
        put_pair(&mut env, "CARGO_HOME", &display_path(platform, home));
    }
    if let Some(home) = &facts.rustup_home {
        put_pair(&mut env, "RUSTUP_HOME", &display_path(platform, home));
    }
    env
}

/// The compilers that a build on macOS or Windows uses.
pub open spec fn portable_tools(
    platform: HostPlatform,
    spec: PackageSpecView,
    facts: PortableFactsView,
) -> Seq<(Text, Text)> {
    if spec.toolchain == ToolchainSource::System {
        system_tools(platform, facts.variables)
    } else {
        Seq::empty()
    }
}

/// The environment of the commands of a build on macOS or Windows. Of two values for one name
/// the later one counts; where a dependency cannot be placed, nothing is told of any.
pub open spec fn portable_environment(
    platform: HostPlatform,
    spec: PackageSpecView,
    dependencies: Seq<PackageSpecView>,
    paths: PortableCommandPathsView,
    facts: PortableFactsView,
) -> Seq<(Text, Text)> {
    let roots = match job_roots(platform, paths.job_root, dependencies) {
        Ok(roots) => roots,
        Err(_) => Seq::empty(),
    };
    portable_place(platform, spec, paths, facts) + portable_tools(platform, spec, facts)
        + portable_rust(platform, spec, paths, facts) + environment::dependency_environment(
        dependencies,
        roots,
        environment::list_separator(platform),
    ) + environment::library_guards(spec.system_libs)
}

pub fn build_portable_command_environment(
    platform: HostPlatform,
    spec: &PackageSpec,
    dependency_specs: &Vec<PackageSpec>,
    paths: &PortableCommandPaths,
    facts: &PortableFacts,
) -> (env: Vec<(String, String)>)
    ensures
        env.deep_view() == portable_environment(
            platform,
            spec.deep_view(),
            dependency_specs.deep_view(),
            paths.deep_view(),
            facts.deep_view(),
        ),
{
    let roots = match portable_dependency_roots(platform, &paths.job_root, dependency_specs) {
        Ok(roots) => roots,
        Err(_) => {
            let none: Vec<String> = Vec::new();
            assert(none.deep_view() == Seq::<Text>::empty());
            none
        },
    };
    let mut env = make_portable_place(platform, spec, paths, facts);
    let tools = if spec.toolchain == ToolchainSource::System {
        default_system_tool_environment(platform, &facts.variables)
    } else {
        no_pairs()
    };
    put_all(&mut env, &tools);
    put_all(&mut env, &make_portable_rust(platform, spec, paths, facts));
    let separator = environment::host_path_separator(platform);
    put_all(&mut env, &make_dependency_environment(dependency_specs, &roots, separator));
    put_all(&mut env, &make_library_guards(spec.system_libs));
    env
}

/// Whether a path stands at or below one of the directories that a build knows.
pub open spec fn known_to_cell(path: Text) -> bool {
    ||| path == "/work/source"@
    ||| text::has_prefix(path, "/work/source/"@)
    ||| path == "/work/build"@
    ||| text::has_prefix(path, "/work/build/"@)
    ||| path == "/work/prefix"@
    ||| text::has_prefix(path, "/work/prefix/"@)
    ||| path == "/depos"@
    ||| text::has_prefix(path, "/depos/"@)
    ||| path == "/tmp"@
    ||| text::has_prefix(path, "/tmp/"@)
}

/// Where the executable of a command stands on the host.
pub open spec fn executable_on_host(
    platform: HostPlatform,
    job_root: Text,
    executable: Text,
) -> Result<Text, Messages> {
    if known_to_cell(executable) {
        cell_host_path(platform, job_root, executable)
    } else {
        Ok(executable)
    }
}

pub fn translate_portable_phase_executable(
    platform: HostPlatform,
    job_root: &str,
    executable: &str,
) -> (result: Result<String, Failure>)
    ensures
        outcome(result) == executable_on_host(platform, job_root@, executable@),
{
    if same(executable, "/work/source") || starts_with(executable, "/work/source/") || same(
        executable,
        "/work/build",
    ) || starts_with(executable, "/work/build/") || same(executable, "/work/prefix")
        || starts_with(executable, "/work/prefix/") || same(executable, "/depos") || starts_with(
        executable,
        "/depos/",
    ) || same(executable, "/tmp") || starts_with(executable, "/tmp/") {
        portable_cell_host_path(platform, job_root, executable)
    } else {
        Ok(executable.to_owned())
    }
}

} // verus!
