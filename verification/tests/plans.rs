//! What is run for a package, with which environment, and which files end in the store.

use depos::arch::{default_variant, variant_for_arch, variant_for_target_arch};
use depos::catalog::parse_registered_depofile;
use depos::environment::{
    build_command_environment, build_command_mounts, build_command_variables, HostFacts,
};
use depos::exports::{
    collect_export_paths, declared_exports, planned_export_paths, resolve_declared_export_sources,
    EntryKind, FoundEntry,
};
use depos::layout::package_store_root;
use depos::model::PackageSpec;
use depos::paths::HostPlatform;
use depos::pipeline::{
    command_emulator_arch, command_image_request, plan_command_pipeline, prepare_phase_arguments,
    resolve_phase_executable_for_spec, validate_supported_command_pipeline, BuildRoots,
    PipelinePlan,
};
use depos::registry::{plan_registry, registry_dir_from_manifest};

const RELEASE_NAMESPACE: &str = "release";
const ROOT: &str = "/home/user/.depos";

fn host_arch() -> &'static str {
    "x86_64"
}

fn foreign_arch() -> &'static str {
    "aarch64"
}

fn texts(values: &[&str]) -> Vec<String> {
    values.iter().map(|value| value.to_string()).collect()
}

fn local(name: &str, source: &str) -> PackageSpec {
    let path = format!("{ROOT}/depofiles/local/{name}/{RELEASE_NAMESPACE}/1.0.0/main.DepoFile");
    parse_registered_depofile(HostPlatform::Linux, &path, source, host_arch(), name, RELEASE_NAMESPACE, "1.0.0")
        .expect("the DepoFile should parse")
}

fn scratch_toolchain_lines() -> String {
    [
        "TOOLCHAIN_INPUT /bin/sh",
        "TOOLCHAIN_INPUT /usr/bin/sh",
        "TOOLCHAIN_INPUT /usr/bin/install",
        "TOOLCHAIN_INPUT /usr/lib",
        "TOOLCHAIN_INPUT /lib",
        "TOOLCHAIN_INPUT /lib64",
    ]
    .join("\n")
}

fn facts(spec: &PackageSpec) -> HostFacts {
    HostFacts {
        provider_mode: false,
        host_arch: host_arch().to_string(),
        cargo_home: None,
        rustup_home: None,
        tool_directories: spec
            .toolchain_inputs
            .iter()
            .map(|input| !input.ends_with("/sh") && !input.ends_with("/install"))
            .collect(),
    }
}

fn lookup(values: &[(String, String)], key: &str) -> Option<String> {
    values.iter().rev().find(|pair| pair.0 == key).map(|pair| pair.1.clone())
}

fn pipeline(platform: HostPlatform, spec: &PackageSpec) -> PipelinePlan {
    let existing = vec![true; spec.toolchain_inputs.len()];
    validate_supported_command_pipeline(platform, spec, host_arch(), &existing)
        .expect("the build should be accepted");
    plan_command_pipeline(
        platform,
        spec,
        false,
        &BuildRoots {
            source: "/run/source".to_string(),
            build: "/run/build".to_string(),
            prefix: "/run/prefix".to_string(),
        },
    )
}

/// The commands of a phase with its directory, as they are run.
fn phase(spec: &PackageSpec, plan: &PipelinePlan, name: &str) -> (String, Vec<Vec<String>>) {
    let variables =
        build_command_variables(spec, &Vec::new()).expect("the variables should be found");
    let phase = plan
        .phases
        .iter()
        .find(|phase| phase.name == name)
        .expect("the phase should be there");
    let commands = phase
        .commands
        .iter()
        .map(|command| {
            prepare_phase_arguments(name, command, &variables, 4)
                .expect("the command should be expanded")
        })
        .collect();
    (phase.cwd.clone(), commands)
}

/// Where the files that the commands have left, and those that are staged, end in the store.
fn stored(spec: &PackageSpec, plan: &PipelinePlan, left: &[&str]) -> Vec<String> {
    let mut files: Vec<String> = left.iter().map(|path| path.to_string()).collect();
    for copy in &plan.copies {
        let source = format!("{}/{}", copy.root, copy.source);
        let mut staged = Vec::new();
        for file in &files {
            if *file == source {
                staged.push(format!("/run/prefix/{}", copy.destination));
            } else if copy.allow_directory && file.starts_with(&format!("{source}/")) {
                let rest = &file[source.len() + 1..];
                staged.push(format!("/run/prefix/{}/{}", copy.destination, rest));
            }
        }
        files.extend(staged);
    }
    let mut found = Vec::new();
    for (relative, _) in declared_exports(spec) {
        let mut entries = Vec::new();
        for candidate in &plan.candidates {
            let path = format!("{}/{}", candidate.root, relative);
            let kind = if files.contains(&path) {
                Some(EntryKind::File)
            } else if files.iter().any(|file| file.starts_with(&format!("{path}/"))) {
                Some(EntryKind::Directory)
            } else {
                None
            };
            entries.push(kind.map(|kind| FoundEntry {
                kind,
                resolved_path: path.clone(),
                resolved_root: candidate.root.clone(),
            }));
        }
        found.push(entries);
    }
    let exports = resolve_declared_export_sources(
        HostPlatform::Linux,
        &plan.candidates,
        spec,
        &found,
    )
        .expect("the exports should be found");
    let mut groups = Vec::new();
    for export in &exports {
        let path = format!("{}/{}", export.root, export.relative_path);
        let mut listing = Vec::new();
        for file in &files {
            if let Some(rest) = file.strip_prefix(&format!("{path}/")) {
                listing.push((rest.to_string(), EntryKind::File));
            }
        }
        let kind = if listing.is_empty() { EntryKind::File } else { EntryKind::Directory };
        groups.push(
            collect_export_paths(
                HostPlatform::Linux,
                &export.root,
                &export.relative_path,
                export.allow_directory,
                kind,
                &listing,
            )
            .expect("the export should be accepted"),
        );
    }
    let variant = variant_for_target_arch(&spec.target_arch).expect("the variant should be known");
    let store = package_store_root(HostPlatform::Linux, ROOT, &variant, spec);
    planned_export_paths(HostPlatform::Linux, &groups).into_iter().map(
        |path| format!("{store}/{path}"),
    ).collect()
}

fn store_path(name: &str, relative: &str) -> String {
    let variant = default_variant(host_arch());
    format!("{ROOT}/store/{variant}/{name}/{RELEASE_NAMESPACE}/1.0.0/{relative}")
}

fn selected(name: &str, spec: &PackageSpec) -> usize {
    plan_registry(
        HostPlatform::Linux,
        ROOT,
        "/manifest.cmake",
        &format!("depos_require({name} VERSION 1.0.0)\n"),
        &vec![spec.clone()],
        host_arch(),
    )
    .expect("the manifest should be resolved")
    .selected
    .len()
}

#[test]
fn sync_materializes_cmake_build_system_package() {
    let spec = local(
        "cmake_demo",
        "NAME cmake_demo\nVERSION 1.0.0\nSYSTEM_LIBS NEVER\nBUILD_SYSTEM CMAKE\nSOURCE GIT /upstreams/cmake_demo HEAD\nCMAKE_BUILD_SH <<'EOF'\ntest \"$PWD\" = \"$DEPO_BUILD_DIR\"\ncmake --build . --parallel\nEOF\nCMAKE_INSTALL_SH <<'EOF'\ntest \"$PWD\" = \"$DEPO_BUILD_DIR\"\ncmake --install .\nEOF\nTARGET cmake_demo::cmake_demo STATIC lib/libcmake_demo.a INTERFACE include\nCMAKE_DEFINE BUILD_SHARED_LIBS=OFF\n",
    );
    let plan = pipeline(HostPlatform::Linux, &spec);
    let env = build_command_environment(&spec, &Vec::new(), &facts(&spec));
    let build_dir = lookup(&env, "DEPO_BUILD_DIR").expect("the build directory should be named");
    let (_, configure) = phase(&spec, &plan, "CONFIGURE");
    assert_eq!(configure[0][0], "cmake");
    assert!(configure[0].iter().any(|argument| argument == "-DBUILD_SHARED_LIBS=OFF"));
    let (cwd, build) = phase(&spec, &plan, "BUILD");
    assert_eq!(cwd, build_dir);
    assert_eq!(
        build,
        vec![texts(&[
            "sh",
            "-eu",
            "-c",
            "test \"$PWD\" = \"$DEPO_BUILD_DIR\"\ncmake --build . --parallel\n",
        ])]
    );
    assert_eq!(phase(&spec, &plan, "INSTALL").0, build_dir);
    let paths = stored(
        &spec,
        &plan,
        &["/run/prefix/include/cmake_demo/demo.h", "/run/prefix/lib/libcmake_demo.a"],
    );
    assert!(paths.contains(&store_path("cmake_demo", "include/cmake_demo/demo.h")));
    assert!(paths.contains(&store_path("cmake_demo", "lib/libcmake_demo.a")));
}

#[test]
fn sync_materializes_cmake_build_system_package_with_direct_phase_commands() {
    let spec = local(
        "cmake_direct_demo",
        "NAME cmake_direct_demo\nVERSION 1.0.0\nSYSTEM_LIBS NEVER\nBUILD_SYSTEM CMAKE\nSOURCE GIT /upstreams/cmake_direct_demo HEAD\nCMAKE_CONFIGURE cmake -S . -B ${DEPO_BUILD_DIR} -G Ninja -DCMAKE_BUILD_TYPE=Release -DCMAKE_INSTALL_PREFIX=${DEPO_PREFIX} -DCMAKE_INSTALL_LIBDIR=lib\nCMAKE_BUILD cmake --build . --parallel $(nproc)\nCMAKE_INSTALL cmake --install .\nTARGET cmake_direct_demo::cmake_direct_demo STATIC lib/libcmake_direct_demo.a INTERFACE include\n",
    );
    let plan = pipeline(HostPlatform::Linux, &spec);
    assert_eq!(
        phase(&spec, &plan, "CONFIGURE"),
        (
            "/work/source".to_string(),
            vec![texts(&[
                "cmake",
                "-S",
                ".",
                "-B",
                "/work/build",
                "-G",
                "Ninja",
                "-DCMAKE_BUILD_TYPE=Release",
                "-DCMAKE_INSTALL_PREFIX=/work/prefix",
                "-DCMAKE_INSTALL_LIBDIR=lib",
            ])],
        )
    );
    assert_eq!(
        phase(&spec, &plan, "BUILD"),
        ("/work/build".to_string(), vec![texts(&["cmake", "--build", ".", "--parallel", "4"])])
    );
    assert_eq!(
        phase(&spec, &plan, "INSTALL"),
        ("/work/build".to_string(), vec![texts(&["cmake", "--install", "."])])
    );
    let paths = stored(
        &spec,
        &plan,
        &[
            "/run/prefix/include/cmake_direct_demo/demo.h",
            "/run/prefix/lib/libcmake_direct_demo.a",
        ],
    );
    assert!(paths.contains(&store_path("cmake_direct_demo", "include/cmake_direct_demo/demo.h")));
    assert!(paths.contains(&store_path("cmake_direct_demo", "lib/libcmake_direct_demo.a")));
}

#[test]
fn sync_materializes_meson_build_system_package() {
    let spec = local(
        "meson_demo",
        "NAME meson_demo\nVERSION 1.0.0\nSYSTEM_LIBS NEVER\nBUILD_SYSTEM MESON\nSOURCE GIT /upstreams/meson_demo HEAD\nMESON_COMPILE_SH <<'EOF'\ntest \"$PWD\" = \"$DEPO_BUILD_DIR\"\nmeson compile\nEOF\nMESON_INSTALL_SH <<'EOF'\ntest \"$PWD\" = \"$DEPO_BUILD_DIR\"\nmeson install\nEOF\nTARGET meson_demo::meson_demo STATIC lib/libmeson_demo.a INTERFACE include\n",
    );
    let plan = pipeline(HostPlatform::Linux, &spec);
    assert_eq!(
        phase(&spec, &plan, "CONFIGURE").1,
        vec![texts(&[
            "meson",
            "setup",
            "/work/build",
            "/work/source",
            "--wipe",
            "--buildtype=release",
            "--prefix=/work/prefix",
            "--libdir=lib",
        ])]
    );
    assert_eq!(phase(&spec, &plan, "BUILD").0, "/work/build");
    assert_eq!(phase(&spec, &plan, "INSTALL").0, "/work/build");
    let paths = stored(
        &spec,
        &plan,
        &["/run/prefix/include/meson_demo/demo.h", "/run/prefix/lib/libmeson_demo.a"],
    );
    assert!(paths.contains(&store_path("meson_demo", "include/meson_demo/demo.h")));
    assert!(paths.contains(&store_path("meson_demo", "lib/libmeson_demo.a")));
}

#[test]
fn sync_materializes_autoconf_build_system_package() {
    let spec = local(
        "autoconf_demo",
        "NAME autoconf_demo\nVERSION 1.0.0\nSYSTEM_LIBS NEVER\nBUILD_SYSTEM AUTOCONF\nSOURCE GIT /upstreams/autoconf_demo HEAD\nAUTOCONF_CONFIGURE_SH <<'EOF'\ntest \"$PWD\" = \"$DEPO_SOURCE_DIR\"\ntest \"$CC\" = clang\ntest \"$CXX\" = clang++\ntest \"$AR\" = ar\ntest \"$RANLIB\" = ranlib\ntest \"$STRIP\" = strip\n./configure --prefix=\"$DEPO_PREFIX\" --libdir=\"$DEPO_PREFIX/lib\"\nEOF\nTARGET autoconf_demo::autoconf_demo STATIC lib/libautoconf_demo.a INTERFACE include\n",
    );
    assert_eq!(selected("autoconf_demo", &spec), 1);
    let plan = pipeline(HostPlatform::Linux, &spec);
    let env = build_command_environment(&spec, &Vec::new(), &facts(&spec));
    assert_eq!(lookup(&env, "DEPO_SOURCE_DIR"), Some(phase(&spec, &plan, "CONFIGURE").0));
    for (key, value) in [
        ("CC", "clang"),
        ("CXX", "clang++"),
        ("AR", "ar"),
        ("RANLIB", "ranlib"),
        ("STRIP", "strip"),
    ] {
        assert_eq!(lookup(&env, key), Some(value.to_string()));
    }
    let paths = stored(
        &spec,
        &plan,
        &["/run/prefix/include/autoconf_demo/demo.h", "/run/prefix/lib/libautoconf_demo.a"],
    );
    assert!(paths.contains(&store_path("autoconf_demo", "include/autoconf_demo/demo.h")));
    assert!(paths.contains(&store_path("autoconf_demo", "lib/libautoconf_demo.a")));
}

#[test]
fn sync_injects_pkg_config_libdir_for_autoconf_dependencies() {
    let dependency = local(
        "dependency_demo",
        "NAME dependency_demo\nVERSION 1.0.0\nSOURCE GIT /upstreams/dependency_demo HEAD\nTARGET dependency_demo::dependency_demo INTERFACE include\nARTIFACT lib/libdependency_demo.a\n",
    );
    let spec = local(
        "autoconf_pkg_config_demo",
        "NAME autoconf_pkg_config_demo\nVERSION 1.0.0\nSYSTEM_LIBS ALLOW\nDEPENDS dependency_demo VERSION 1.0.0\nBUILD_SYSTEM AUTOCONF\nSOURCE GIT /upstreams/autoconf_pkg_config_demo HEAD\nAUTOCONF_CONFIGURE_SH <<'EOF'\nexpected=\"/depos/dependency_demo/release/1.0.0/lib/pkgconfig:/depos/dependency_demo/release/1.0.0/lib64/pkgconfig\"\ntest \"$PKG_CONFIG_LIBDIR\" = \"$expected\"\n./configure --prefix=\"$DEPO_PREFIX\" --libdir=\"$DEPO_PREFIX/lib\"\nEOF\nTARGET autoconf_pkg_config_demo::autoconf_pkg_config_demo STATIC lib/libautoconf_pkg_config_demo.a INTERFACE include\n",
    );
    let plan = pipeline(HostPlatform::Linux, &spec);
    let env = build_command_environment(&spec, &vec![dependency], &facts(&spec));
    assert_eq!(
        lookup(&env, "PKG_CONFIG_LIBDIR"),
        Some("/depos/dependency_demo/release/1.0.0/lib/pkgconfig:/depos/dependency_demo/release/1.0.0/lib64/pkgconfig".to_string())
    );
    let paths = stored(
        &spec,
        &plan,
        &[
            "/run/prefix/include/autoconf_pkg_config_demo/demo.h",
            "/run/prefix/lib/libautoconf_pkg_config_demo.a",
        ],
    );
    assert!(paths.contains(&store_path(
        "autoconf_pkg_config_demo",
        "include/autoconf_pkg_config_demo/demo.h",
    )));
}

#[test]
fn sync_materializes_autoconf_direct_configure_relative_executable_package() {
    let spec = local(
        "autoconf_direct_demo",
        "NAME autoconf_direct_demo\nVERSION 1.0.0\nSYSTEM_LIBS NEVER\nBUILD_SYSTEM AUTOCONF\nSOURCE GIT /upstreams/autoconf_direct_demo HEAD\nAUTOCONF_CONFIGURE ./configure --prefix=\"${DEPO_PREFIX}\" --libdir=\"${DEPO_PREFIX}/lib\"\nTARGET autoconf_direct_demo::autoconf_direct_demo STATIC lib/libautoconf_direct_demo.a INTERFACE include\n",
    );
    let plan = pipeline(HostPlatform::Linux, &spec);
    let (cwd, configure) = phase(&spec, &plan, "CONFIGURE");
    assert_eq!(
        configure,
        vec![texts(&["./configure", "--prefix=/work/prefix", "--libdir=/work/prefix/lib"])]
    );
    assert_eq!(
        resolve_phase_executable_for_spec(
            HostPlatform::Linux,
            &spec,
            &cwd,
            &configure[0][0],
            false,
            false,
        )
        .expect("the program should be found"),
        "/work/source/configure"
    );
    let paths = stored(
        &spec,
        &plan,
        &[
            "/run/prefix/include/autoconf_direct_demo/demo.h",
            "/run/prefix/lib/libautoconf_direct_demo.a",
        ],
    );
    assert!(paths
        .contains(&store_path("autoconf_direct_demo", "include/autoconf_direct_demo/demo.h")));
    assert!(paths.contains(&store_path("autoconf_direct_demo", "lib/libautoconf_direct_demo.a")));
}

#[test]
fn sync_materializes_cargo_build_system_package() {
    let spec = local(
        "cargo_demo",
        "NAME cargo_demo\nVERSION 1.0.0\nSYSTEM_LIBS NEVER\nBUILD_SYSTEM CARGO\nSOURCE GIT /upstreams/cargo_demo HEAD\nCARGO_BUILD_SH <<'EOF'\ntest \"$PWD\" = \"$DEPO_SOURCE_DIR\"\ntest \"$CC\" = clang\ntest \"$CARGO_HOME\" = \"$DEPO_BUILD_DIR/cargo-home\"\ncargo build --release --target-dir \"$DEPO_BUILD_DIR/cargo-target\"\nEOF\nSTAGE_FILE BUILD cargo-target/release/libcargo_demo.a lib/libcargo_demo.a\nTARGET cargo_demo::cargo_demo STATIC lib/libcargo_demo.a\n",
    );
    let plan = pipeline(HostPlatform::Linux, &spec);
    let env = build_command_environment(&spec, &Vec::new(), &facts(&spec));
    assert_eq!(lookup(&env, "DEPO_SOURCE_DIR"), Some(phase(&spec, &plan, "BUILD").0));
    assert_eq!(lookup(&env, "CC"), Some("clang".to_string()));
    assert_eq!(
        lookup(&env, "CARGO_HOME"),
        lookup(&env, "DEPO_BUILD_DIR").map(|dir| format!("{dir}/cargo-home"))
    );
    let paths = stored(&spec, &plan, &["/run/build/cargo-target/release/libcargo_demo.a"]);
    assert_eq!(paths, vec![store_path("cargo_demo", "lib/libcargo_demo.a")]);
}

#[test]
fn sync_materializes_command_driven_package_into_fresh_root() {
    let spec = local(
        "cmd_demo",
        "NAME cmd_demo\nVERSION 1.0.0\nSYSTEM_LIBS NEVER\nTARGET cmd_demo::cmd_demo INTERFACE include\nSOURCE GIT /upstreams/cmd_demo HEAD\nBUILD_SYSTEM MANUAL\nMANUAL_INSTALL_SH <<'EOF'\nmkdir -p \"${DEPO_PREFIX}/include/cmd_demo\" && cp \"${DEPO_SOURCE_DIR}/payload/demo.h\" \"${DEPO_PREFIX}/include/cmd_demo/demo.h\"\nEOF\n",
    );
    let plan = pipeline(HostPlatform::Linux, &spec);
    assert_eq!(
        phase(&spec, &plan, "INSTALL").1,
        vec![texts(&[
            "sh",
            "-eu",
            "-c",
            "mkdir -p \"/work/prefix/include/cmd_demo\" && cp \"/work/source/payload/demo.h\" \"/work/prefix/include/cmd_demo/demo.h\"\n",
        ])]
    );
    let paths = stored(&spec, &plan, &["/run/prefix/include/cmd_demo/demo.h"]);
    assert_eq!(paths, vec![store_path("cmd_demo", "include/cmd_demo/demo.h")]);
}

#[test]
fn sync_materializes_manual_install_tree_package_without_shell_install() {
    let spec = local(
        "manual_tree_demo",
        "NAME manual_tree_demo\nVERSION 1.0.0\nSYSTEM_LIBS NEVER\nSOURCE GIT /upstreams/manual_tree_demo HEAD\nBUILD_SYSTEM MANUAL\nSTAGE_TREE SOURCE include/manual_tree_demo\nSTAGE_FILE SOURCE metadata/LICENSE share/licenses/manual_tree_demo/LICENSE\nTARGET manual_tree_demo::manual_tree_demo INTERFACE include\nARTIFACT share/licenses/manual_tree_demo/LICENSE\n",
    );
    let plan = pipeline(HostPlatform::Linux, &spec);
    let paths = stored(
        &spec,
        &plan,
        &["/run/source/include/manual_tree_demo/demo.h", "/run/source/metadata/LICENSE"],
    );
    assert!(paths.contains(&store_path("manual_tree_demo", "include/manual_tree_demo/demo.h")));
    assert!(paths
        .contains(&store_path("manual_tree_demo", "share/licenses/manual_tree_demo/LICENSE")));
}

#[test]
fn sync_materializes_manual_target_directly_from_source_tree() {
    let spec = local(
        "manual_source_demo",
        "NAME manual_source_demo\nVERSION 1.0.0\nSYSTEM_LIBS NEVER\nSOURCE GIT /upstreams/manual_source_demo HEAD\nBUILD_SYSTEM MANUAL\nTARGET manual_source_demo::manual_source_demo INTERFACE include\n",
    );
    let plan = pipeline(HostPlatform::Linux, &spec);
    let paths = stored(&spec, &plan, &["/run/source/include/manual_source_demo/demo.h"]);
    assert_eq!(paths, vec![store_path("manual_source_demo", "include/manual_source_demo/demo.h")]);
}

#[test]
fn sync_materializes_manual_target_directly_from_build_tree() {
    let spec = local(
        "manual_build_demo",
        "NAME manual_build_demo\nVERSION 1.0.0\nSYSTEM_LIBS NEVER\nSOURCE GIT /upstreams/manual_build_demo HEAD\nBUILD_SYSTEM MANUAL\nMANUAL_BUILD_SH <<'EOF'\ninstall -d \"${DEPO_BUILD_DIR}/include/manual_build_demo\" \"${DEPO_BUILD_DIR}/lib\"\nprintf '%s\\n' '// manual build export' > \"${DEPO_BUILD_DIR}/include/manual_build_demo/demo.h\"\nprintf '%s\\n' 'archive' > \"${DEPO_BUILD_DIR}/lib/libmanual_build_demo.a\"\nEOF\nTARGET manual_build_demo::manual_build_demo STATIC lib/libmanual_build_demo.a INTERFACE include\n",
    );
    let plan = pipeline(HostPlatform::Linux, &spec);
    let paths = stored(
        &spec,
        &plan,
        &["/run/build/include/manual_build_demo/demo.h", "/run/build/lib/libmanual_build_demo.a"],
    );
    assert!(paths.contains(&store_path("manual_build_demo", "include/manual_build_demo/demo.h")));
    assert!(paths.contains(&store_path("manual_build_demo", "lib/libmanual_build_demo.a")));
}

#[test]
fn sync_rejects_unset_variable_in_shell_hook_by_default() {
    let spec = local(
        "unset_var_demo",
        "NAME unset_var_demo\nVERSION 1.0.0\nSYSTEM_LIBS NEVER\nTARGET unset_var_demo::unset_var_demo INTERFACE include\nSOURCE GIT /upstreams/unset_var_demo HEAD\nBUILD_SYSTEM MANUAL\nMANUAL_INSTALL_SH <<'EOF'\ninstall -d \"${DEPO_PREFIX}/include/unset_var_demo\"\nprintf '%s\\n' \"$UNSET_DEPO_VARIABLE\" > \"${DEPO_PREFIX}/include/unset_var_demo/demo.h\"\nEOF\n",
    );
    let plan = pipeline(HostPlatform::Linux, &spec);
    let (_, install) = phase(&spec, &plan, "INSTALL");
    assert_eq!(install[0][..3], texts(&["sh", "-eu", "-c"])[..]);
    assert!(install[0][3].contains("$UNSET_DEPO_VARIABLE"));
    let env = build_command_environment(&spec, &Vec::new(), &facts(&spec));
    assert_eq!(lookup(&env, "UNSET_DEPO_VARIABLE"), None);
}

#[test]
fn sync_materializes_scratch_package_with_toolchain_inputs_and_isolation() {
    let provider = local(
        "scratch_provider",
        "NAME scratch_provider\nVERSION 1.0.0\nSYSTEM_LIBS NEVER\nTARGET scratch_provider::scratch_provider INTERFACE include\nSOURCE GIT /upstreams/scratch_provider HEAD\nBUILD_SYSTEM MANUAL\nMANUAL_INSTALL_SH <<'EOF'\nmkdir -p \"${DEPO_PREFIX}/include/scratch_provider\" && cp \"${DEPO_SOURCE_DIR}/payload/provider.h\" \"${DEPO_PREFIX}/include/scratch_provider/provider.h\"\nEOF\n",
    );
    let spec = local(
        "scratch_demo",
        &format!(
            "NAME scratch_demo\nVERSION 1.0.0\nSYSTEM_LIBS NEVER\nBUILD_ROOT SCRATCH\nDEPENDS scratch_provider VERSION 1.0.0\nTARGET scratch_demo::scratch_demo INTERFACE include\nSOURCE GIT /upstreams/scratch_demo HEAD\n{}\nBUILD_SYSTEM MANUAL\nMANUAL_INSTALL_SH <<'EOF'\ntest -f \"$DEPO_DEP_SCRATCH_PROVIDER_RELEASE_ROOT/include/scratch_provider/provider.h\" && command -v install >/dev/null 2>&1 && ! command -v ls >/dev/null 2>&1 && test ! -e /etc/os-release && install -D \"${{DEPO_SOURCE_DIR}}/payload/demo.h\" \"${{DEPO_PREFIX}}/include/scratch_demo/demo.h\"\nEOF\n",
            scratch_toolchain_lines(),
        ),
    );
    let plan = pipeline(HostPlatform::Linux, &spec);
    let env = build_command_environment(&spec, &vec![provider.clone()], &facts(&spec));
    assert_eq!(
        lookup(&env, "DEPO_DEP_SCRATCH_PROVIDER_RELEASE_ROOT"),
        Some("/depos/scratch_provider/release/1.0.0".to_string())
    );
    assert_eq!(lookup(&env, "PATH"), Some("/bin:/usr/bin:/usr/lib:/lib:/lib64".to_string()));
    let mounts = build_command_mounts(
        &spec,
        "/src",
        "/store",
        &vec![provider.clone()],
        &texts(&["/usr", "/bin", "/lib", "/lib64", "/etc"]),
        &facts(&spec),
        &None,
    )
    .expect("the mounts should be found");
    assert!(mounts.iter().any(|mount| mount.destination == "/usr/bin/install"));
    assert_eq!(mounts[1].source, "/store/scratch_provider/release/1.0.0");
    assert_eq!(mounts[1].destination, "/depos/scratch_provider/release/1.0.0");
    for hidden in ["/etc", "/usr", "/bin", "/usr/bin/ls", "/depos"] {
        assert!(!mounts.iter().any(|mount| mount.destination == hidden));
    }
    let paths = stored(&spec, &plan, &["/run/prefix/include/scratch_demo/demo.h"]);
    assert_eq!(paths, vec![store_path("scratch_demo", "include/scratch_demo/demo.h")]);
    let plan = pipeline(HostPlatform::Linux, &provider);
    let paths = stored(&provider, &plan, &["/run/prefix/include/scratch_provider/provider.h"]);
    assert_eq!(
        paths,
        vec![store_path("scratch_provider", "include/scratch_provider/provider.h")]
    );
}

#[test]
fn sync_materializes_oci_rootfs_package_with_toolchain_inputs() {
    let spec = local(
        "oci_toolchain_demo",
        &format!(
            "NAME oci_toolchain_demo\nVERSION 1.0.0\nSYSTEM_LIBS NEVER\nBUILD_ROOT OCI oci:/oci/toolchain-base:latest\nTOOLCHAIN ROOTFS\nTARGET oci_toolchain_demo::oci_toolchain_demo INTERFACE include\nSOURCE GIT /upstreams/oci_toolchain_demo HEAD\n{}\nBUILD_SYSTEM MANUAL\nMANUAL_INSTALL_SH <<'EOF'\ninstall -D \"${{DEPO_SOURCE_DIR}}/payload/demo.h\" \"${{DEPO_PREFIX}}/include/oci_toolchain_demo/demo.h\"\nEOF\n",
            scratch_toolchain_lines(),
        ),
    );
    let plan = pipeline(HostPlatform::Linux, &spec);
    let mounts = build_command_mounts(
        &spec,
        "/src",
        "/store",
        &Vec::new(),
        &Vec::new(),
        &facts(&spec),
        &None,
    )
        .expect("the mounts should be found");
    assert!(mounts.iter().any(|mount| mount.destination == "/usr/bin/install" && mount.read_only));
    let paths = stored(&spec, &plan, &["/run/prefix/include/oci_toolchain_demo/demo.h"]);
    assert_eq!(
        paths,
        vec![store_path("oci_toolchain_demo", "include/oci_toolchain_demo/demo.h")]
    );
}

#[test]
fn sync_materializes_oci_rootfs_package_into_fresh_root() {
    let spec = local(
        "oci_demo",
        "NAME oci_demo\nVERSION 1.0.0\nSYSTEM_LIBS NEVER\nBUILD_ROOT OCI oci:/oci/base:latest\nTOOLCHAIN ROOTFS\nTARGET oci_demo::oci_demo INTERFACE include\nSOURCE GIT /upstreams/oci_demo HEAD\nBUILD_SYSTEM MANUAL\nMANUAL_INSTALL_SH <<'EOF'\ninstall -D \"${DEPO_SOURCE_DIR}/payload/demo.h\" \"${DEPO_PREFIX}/include/oci_demo/demo.h\"\nEOF\n",
    );
    let plan = pipeline(HostPlatform::Linux, &spec);
    assert_eq!(
        command_image_request(&spec, host_arch()),
        Some(("oci:/oci/base:latest".to_string(), None))
    );
    let paths = stored(&spec, &plan, &["/run/prefix/include/oci_demo/demo.h"]);
    assert_eq!(paths, vec![store_path("oci_demo", "include/oci_demo/demo.h")]);
}

#[test]
fn sync_materializes_foreign_oci_rootfs_package_with_toolchain_inputs() {
    let spec = local(
        "foreign_oci_toolchain_demo",
        &format!(
            "NAME foreign_oci_toolchain_demo\nVERSION 1.0.0\nSYSTEM_LIBS NEVER\nBUILD_ROOT OCI oci:/oci/foreign-toolchain-base:latest\nTOOLCHAIN ROOTFS\nBUILD_ARCH {}\nTARGET_ARCH {}\nTARGET foreign_oci_toolchain_demo::foreign_oci_toolchain_demo INTERFACE include\nSOURCE GIT /upstreams/foreign_oci_toolchain_demo HEAD\n{}\nBUILD_SYSTEM MANUAL\nMANUAL_INSTALL_SH <<'EOF'\ninstall -D \"${{DEPO_SOURCE_DIR}}/payload/demo.h\" \"${{DEPO_PREFIX}}/include/foreign_oci_toolchain_demo/demo.h\"\nEOF\n",
            foreign_arch(),
            foreign_arch(),
            scratch_toolchain_lines(),
        ),
    );
    let plan = pipeline(HostPlatform::Linux, &spec);
    assert_eq!(
        command_image_request(&spec, host_arch()),
        Some((
            "oci:/oci/foreign-toolchain-base:latest".to_string(),
            Some(foreign_arch().to_string()),
        ))
    );
    assert_eq!(
        command_emulator_arch(host_arch(), &spec).expect("the architecture should be known"),
        Some(foreign_arch().to_string())
    );
    let variant = variant_for_arch(foreign_arch());
    let paths = stored(&spec, &plan, &["/run/prefix/include/foreign_oci_toolchain_demo/demo.h"]);
    assert_eq!(
        paths,
        vec![format!(
            "{ROOT}/store/{variant}/foreign_oci_toolchain_demo/release/1.0.0/include/foreign_oci_toolchain_demo/demo.h"
        )]
    );
}

#[test]
fn sync_materializes_cross_target_oci_rootfs_package_into_target_variant() {
    let spec = local(
        "foreign_cross_demo",
        &format!(
            "NAME foreign_cross_demo\nVERSION 1.0.0\nSYSTEM_LIBS NEVER\nBUILD_ROOT OCI oci:/oci/foreign-cross-base:latest\nTOOLCHAIN ROOTFS\nBUILD_ARCH {}\nTARGET_ARCH {}\nTARGET foreign_cross_demo::foreign_cross_demo INTERFACE include\nSOURCE GIT /upstreams/foreign_cross_demo HEAD\n{}\nBUILD_SYSTEM MANUAL\nMANUAL_INSTALL_SH <<'EOF'\ninstall -D \"${{DEPO_SOURCE_DIR}}/payload/${{DEPO_BUILD_ARCH}}-to-${{DEPO_TARGET_ARCH}}.h\" \"${{DEPO_PREFIX}}/include/foreign_cross_demo/demo.h\"\nEOF\n",
            host_arch(),
            foreign_arch(),
            scratch_toolchain_lines(),
        ),
    );
    let manifest = "depos_require(foreign_cross_demo VERSION 1.0.0)\n";
    let catalog = vec![spec.clone()];
    let output = plan_registry(
        HostPlatform::Linux,
        ROOT,
        "/manifest.cmake",
        manifest,
        &catalog,
        host_arch(),
    )
        .expect("cross-target OCI package should be planned");
    let target_variant = variant_for_arch(foreign_arch());
    assert!(
        output.registry_dir.contains(&format!("/registry/{target_variant}/")),
        "{}",
        output.registry_dir
    );
    let registry_dir =
        registry_dir_from_manifest(
            HostPlatform::Linux,
            ROOT,
            "/manifest.cmake",
            manifest,
            &catalog,
            host_arch(),
        )
            .expect("registry dir should resolve");
    assert_eq!(registry_dir, output.registry_dir);
    let plan = pipeline(HostPlatform::Linux, &spec);
    assert_eq!(
        phase(&spec, &plan, "INSTALL").1[0][3],
        format!(
            "install -D \"/work/source/payload/{}-to-{}.h\" \"/work/prefix/include/foreign_cross_demo/demo.h\"\n",
            host_arch(),
            foreign_arch(),
        )
    );
    let paths = stored(&spec, &plan, &["/run/prefix/include/foreign_cross_demo/demo.h"]);
    assert_eq!(
        paths,
        vec![format!(
            "{ROOT}/store/{target_variant}/foreign_cross_demo/release/1.0.0/include/foreign_cross_demo/demo.h"
        )]
    );
}

#[test]
fn sync_materializes_cross_target_oci_when_build_arch_is_foreign() {
    let spec = local(
        "foreign_build_cross_demo",
        &format!(
            "NAME foreign_build_cross_demo\nVERSION 1.0.0\nSYSTEM_LIBS NEVER\nBUILD_ROOT OCI oci:/oci/foreign-build-cross-base:latest\nTOOLCHAIN ROOTFS\nBUILD_ARCH {}\nTARGET_ARCH {}\nTARGET foreign_build_cross_demo::foreign_build_cross_demo INTERFACE include\nSOURCE GIT /upstreams/foreign_build_cross_demo HEAD\n{}\nBUILD_SYSTEM MANUAL\nMANUAL_INSTALL_SH <<'EOF'\ninstall -D \"${{DEPO_SOURCE_DIR}}/payload/${{DEPO_BUILD_ARCH}}-to-${{DEPO_TARGET_ARCH}}.h\" \"${{DEPO_PREFIX}}/include/foreign_build_cross_demo/demo.h\"\nEOF\n",
            foreign_arch(),
            host_arch(),
            scratch_toolchain_lines(),
        ),
    );
    let target_variant = variant_for_arch(host_arch());
    let output = plan_registry(
        HostPlatform::Linux,
        ROOT,
        "/manifest.cmake",
        "depos_require(foreign_build_cross_demo VERSION 1.0.0)\n",
        &vec![spec.clone()],
        host_arch(),
    )
    .expect("foreign-build cross-target OCI package should be planned");
    assert!(
        output.registry_dir.contains(&format!("/registry/{target_variant}/")),
        "{}",
        output.registry_dir
    );
    let plan = pipeline(HostPlatform::Linux, &spec);
    assert_eq!(
        phase(&spec, &plan, "INSTALL").1[0][3],
        format!(
            "install -D \"/work/source/payload/{}-to-{}.h\" \"/work/prefix/include/foreign_build_cross_demo/demo.h\"\n",
            foreign_arch(),
            host_arch(),
        )
    );
    let paths = stored(&spec, &plan, &["/run/prefix/include/foreign_build_cross_demo/demo.h"]);
    assert_eq!(
        paths,
        vec![format!(
            "{ROOT}/store/{target_variant}/foreign_build_cross_demo/release/1.0.0/include/foreign_build_cross_demo/demo.h"
        )]
    );
}

#[test]
fn sync_builds_cargo_package_with_native_portable_backend() {
    let spec = local(
        "portable_demo",
        "NAME portable_demo\nVERSION 1.0.0\nSYSTEM_LIBS NEVER\nSOURCE URL file:///upstreams/portable_demo.tar.gz\nBUILD_SYSTEM CARGO\nCARGO_BUILD cargo build --release --target-dir ${DEPO_BUILD_DIR}/cargo-target --manifest-path Cargo.toml\nSTAGE_FILE SOURCE include/portable_demo/demo.h include/portable_demo/demo.h\nSTAGE_FILE BUILD cargo-target/release/libportable_demo.a lib/libportable_demo.a\nTARGET portable_demo::portable_demo STATIC lib/libportable_demo.a INTERFACE include\n",
    );
    assert_eq!(selected("portable_demo", &spec), 1);
    let plan = pipeline(HostPlatform::Macos, &spec);
    let paths = stored(
        &spec,
        &plan,
        &[
            "/run/source/include/portable_demo/demo.h",
            "/run/build/cargo-target/release/libportable_demo.a",
        ],
    );
    assert!(paths.contains(&store_path("portable_demo", "include/portable_demo/demo.h")));
    assert!(paths.contains(&store_path("portable_demo", "lib/libportable_demo.a")));
}

#[test]
fn sync_builds_cmake_package_with_native_portable_backend() {
    let spec = local(
        "portable_cmake_demo",
        "NAME portable_cmake_demo\nVERSION 1.0.0\nSYSTEM_LIBS NEVER\nSOURCE URL file:///upstreams/portable_cmake_demo.tar.gz\nBUILD_SYSTEM CMAKE\nTARGET portable_cmake_demo::portable_cmake_demo STATIC lib/libportable_cmake_demo.a INTERFACE include\n",
    );
    assert_eq!(selected("portable_cmake_demo", &spec), 1);
    let plan = pipeline(HostPlatform::Windows, &spec);
    assert_eq!(plan.phases[0].name, "CONFIGURE");
    let paths = stored(
        &spec,
        &plan,
        &[
            "/run/prefix/include/portable_cmake_demo/demo.h",
            "/run/prefix/lib/libportable_cmake_demo.a",
        ],
    );
    assert!(paths.contains(&store_path("portable_cmake_demo", "include/portable_cmake_demo/demo.h")));
    assert!(paths.contains(&store_path("portable_cmake_demo", "lib/libportable_cmake_demo.a")));
}

#[test]
fn sync_materializes_git_package_with_native_portable_backend() {
    let spec = local(
        "portable_git_demo",
        "NAME portable_git_demo\nVERSION 1.0.0\nSYSTEM_LIBS NEVER\nSOURCE GIT /upstreams/portable_git_demo HEAD\nTARGET portable_git_demo::portable_git_demo INTERFACE include\n",
    );
    assert_eq!(selected("portable_git_demo", &spec), 1);
    let plan = pipeline(HostPlatform::Macos, &spec);
    let paths = stored(&spec, &plan, &["/run/source/include/portable_git_demo/demo.h"]);
    assert_eq!(paths, vec![store_path("portable_git_demo", "include/portable_git_demo/demo.h")]);
}
