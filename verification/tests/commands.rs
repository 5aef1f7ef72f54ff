//! Commands, environments, mounts, and how sources are fetched.

use depos::build_system::{
    default_cmake_cross_configure_args, synthesize_build_system_commands, BuildSystemCommandInputs,
};
use depos::catalog::{
    decide_embedded, embedded_depofile_roots, names_depofile, parse_registered_depofile,
    EmbeddedAction, EmbeddedSlot, Hydration, HydrationStep,
};
use depos::copying::{find_executable_in_path, migrate_builtin_from_legacy, split_search_path};
use depos::depofile::parse_depofile;
use depos::download::{
    accept_archive, archive_extraction_arguments, archive_listing_arguments, begin_url_source,
    continue_url_source, file_url_path, UrlAction, UrlSource,
};
use depos::environment::{
    build_command_environment, build_command_mounts, build_command_variables,
    build_toolchain_path, host_rust_toolchain_dir, linux_provider_cache_root,
    sanitize_env_fragment, HostFacts, Mount,
};
use depos::git::{
    begin_git_checkout, begin_git_source, continue_git_checkout, continue_git_source,
    git_remote_matches_url, git_submodules_ready, is_full_git_commit_reference, CheckoutAction,
    GitAction, GitReply, GitSource,
};
use depos::manifest::parse_manifest;
use depos::model::{BuildSystem, PackageSpec};
use depos::paths::HostPlatform;
use depos::pipeline::{
    append_process_failure_output, append_process_output, command_emulator_arch,
    command_image_request, command_phases, default_phase_cwd,
    expand_trusted_direct_command_substitutions, phase_log_line, plan_command_pipeline,
    prepare_phase_arguments, resolve_phase_executable_for_spec, uses_command_pipeline, BuildRoots,
};
use depos::portable::{
    build_portable_command_cell, build_portable_command_environment,
    build_portable_command_variables, default_system_tool_environment, portable_cell_host_path,
    portable_command_paths, translate_portable_phase_executable, PortableFacts,
};
use depos::source::{resolve_package_source, SourcePlan};

fn texts(values: &[&str]) -> Vec<String> {
    values.iter().map(|value| value.to_string()).collect()
}

fn pairs(values: &[(&str, &str)]) -> Vec<(String, String)> {
    values.iter().map(|(key, value)| (key.to_string(), value.to_string())).collect()
}

fn lookup(values: &[(String, String)], key: &str) -> Option<String> {
    values.iter().rev().find(|pair| pair.0 == key).map(|pair| pair.1.clone())
}

fn spec_of(source: &str) -> PackageSpec {
    parse_depofile(HostPlatform::Linux, "main.DepoFile", source, "x86_64").expect("the DepoFile should parse")
}

fn dependency(name: &str, namespace: &str) -> PackageSpec {
    parse_registered_depofile(
        HostPlatform::Linux,
        "main.DepoFile",
        &format!("NAME {name}\nVERSION 1.0\nARTIFACT a\n"),
        "x86_64",
        name,
        namespace,
        "1.0",
    )
    .expect("the DepoFile should parse")
}

fn facts(tools: usize) -> HostFacts {
    HostFacts {
        provider_mode: false,
        host_arch: "x86_64".to_string(),
        cargo_home: Some("/home/user/.cargo".to_string()),
        rustup_home: None,
        tool_directories: vec![false; tools],
    }
}

fn no_inputs() -> BuildSystemCommandInputs {
    BuildSystemCommandInputs {
        configure_args: Vec::new(),
        build_args: Vec::new(),
        install_args: Vec::new(),
        configure_direct: None,
        build_direct: None,
        install_direct: None,
        configure_override: None,
        build_override: None,
        install_override: None,
    }
}

fn git_source(reference: &str) -> GitSource {
    GitSource {
        platform: HostPlatform::Linux,
        url: "https://example.com/demo.git".to_string(),
        reference: reference.to_string(),
        submodules_recursive: false,
        source_root: "/downloads/src".to_string(),
    }
}

fn said(output: Option<&str>) -> GitReply {
    GitReply { output: output.map(|output| output.to_string()), success: output.is_some() }
}

fn url_source(sha256: Option<&str>, archive_exists: bool) -> UrlSource {
    UrlSource {
        platform: HostPlatform::Linux,
        url: "file:///mirror/demo.tar.gz".to_string(),
        sha256: sha256.map(|sha256| sha256.to_string()),
        archive_path: "/downloads/demo.tar.gz".to_string(),
        archive_exists,
    }
}

#[test]
fn build_systems_have_default_commands() {
    let mut inputs = no_inputs();
    inputs.configure_args = texts(&["-DA=1"]);
    let commands = synthesize_build_system_commands(BuildSystem::Cmake, inputs);
    assert_eq!(
        commands.configure,
        vec![texts(&[
            "cmake",
            "-S",
            "${DEPO_SOURCE_DIR}",
            "-B",
            "${DEPO_BUILD_DIR}",
            "-G",
            "Ninja",
            "-DCMAKE_BUILD_TYPE=Release",
            "-DCMAKE_INSTALL_PREFIX=${DEPO_PREFIX}",
            "-DCMAKE_INSTALL_LIBDIR=lib",
            "-DA=1",
        ])]
    );
    assert_eq!(
        commands.build,
        vec![texts(&["cmake", "--build", "${DEPO_BUILD_DIR}", "--parallel"])]
    );
    let commands = synthesize_build_system_commands(BuildSystem::Autoconf, no_inputs());
    assert_eq!(commands.build, vec![texts(&["sh", "-eu", "-c", "make -j$(nproc)"])]);
    let commands = synthesize_build_system_commands(BuildSystem::Cargo, no_inputs());
    assert!(commands.configure.is_empty());
    assert!(commands.install.is_empty());
    assert_eq!(
        default_cmake_cross_configure_args("aarch64")[2],
        "-DCMAKE_C_COMPILER=aarch64-linux-gnu-gcc"
    );
}

#[test]
fn environments_name_dependencies_and_hide_system_libraries() {
    let spec = spec_of("NAME demo\nVERSION 1.0.0\nSYSTEM_LIBS NEVER\nARTIFACT a\n");
    let env = build_command_environment(
        &spec,
        &vec![dependency("zlib_ng", "release"), dependency("b", "dev")],
        &facts(0),
    );
    assert_eq!(lookup(&env, "PATH"), Some("/usr/bin:/bin".to_string()));
    assert_eq!(lookup(&env, "CC"), Some("clang".to_string()));
    assert_eq!(
        lookup(&env, "CMAKE_PREFIX_PATH"),
        Some("/depos/zlib_ng/release/1.0;/depos/b/dev/1.0".to_string())
    );
    assert_eq!(
        lookup(&env, "PKG_CONFIG_LIBDIR"),
        Some("/depos/zlib_ng/release/1.0/lib/pkgconfig:/depos/zlib_ng/release/1.0/lib64/pkgconfig:/depos/b/dev/1.0/lib/pkgconfig:/depos/b/dev/1.0/lib64/pkgconfig".to_string())
    );
    assert_eq!(
        lookup(&env, "DEPO_DEP_ZLIB_NG_RELEASE_ROOT"),
        Some("/depos/zlib_ng/release/1.0".to_string())
    );
    assert_eq!(lookup(&env, "LIBRARY_PATH"), Some(String::new()));
    assert_eq!(
        lookup(&env, "CARGO_HOME"),
        Some("/.metalor-toolchain/cargo-home".to_string())
    );
    let spec = spec_of("NAME demo\nVERSION 1.0.0\nSYSTEM_LIBS ALLOW\nARTIFACT a\n");
    let env = build_command_environment(&spec, &Vec::new(), &facts(0));
    assert_eq!(lookup(&env, "LIBRARY_PATH"), None);
    assert_eq!(sanitize_env_fragment("a-b.c"), "A_B_C");
    assert_eq!(sanitize_env_fragment(""), "_");
}

#[test]
fn cross_builds_use_cross_tools() {
    let spec = spec_of(
        "NAME demo\nVERSION 1.0.0\nBUILD_ROOT OCI docker://debian\nTOOLCHAIN ROOTFS\nTARGET_ARCH aarch64\nBUILD_SYSTEM CARGO\nCARGO_INSTALL_ARG --locked\nARTIFACT a\n",
    );
    let env = build_command_environment(&spec, &Vec::new(), &facts(0));
    assert_eq!(lookup(&env, "CC"), Some("aarch64-linux-gnu-gcc".to_string()));
    assert_eq!(
        lookup(&env, "CARGO_TARGET_AARCH64_UNKNOWN_LINUX_GNU_LINKER"),
        Some("aarch64-linux-gnu-gcc".to_string())
    );
    assert_eq!(command_emulator_arch("x86_64", &spec), Ok(Some("aarch64".to_string())));
    assert_eq!(
        command_image_request(&spec, "x86_64"),
        Some(("docker://debian".to_string(), None))
    );
    assert_eq!(
        command_image_request(&spec, "aarch64"),
        Some(("docker://debian".to_string(), Some("x86_64".to_string())))
    );
    let phases = command_phases(HostPlatform::Linux, &spec, true);
    assert_eq!(phases[0].name, "PROVIDER_BOOTSTRAP");
    assert_eq!(phases[0].commands.len(), 2);
    assert!(phases[0].commands[0][3].contains("crossbuild-essential-arm64"));
    assert!(phases[0].commands[1][3].contains("rustup target add aarch64-unknown-linux-gnu"));
    assert!(command_phases(HostPlatform::Linux, &spec, false)[0].commands.is_empty());
    assert_eq!(command_phases(HostPlatform::Macos, &spec, true)[0].name, "CONFIGURE");
}

#[test]
fn scratch_builds_see_declared_inputs_only() {
    let spec = spec_of(
        "NAME demo\nVERSION 1.0.0\nBUILD_ROOT SCRATCH\nTOOLCHAIN_INPUT /usr/bin/sh\nTOOLCHAIN_INPUT /opt/tools\nTOOLCHAIN_INPUT /usr/bin/sh\nARTIFACT a\n",
    );
    let mounts = build_command_mounts(
        &spec,
        "/src",
        "/store/v",
        &vec![dependency("zlib", "release"), dependency("zlib", "debug")],
        &texts(&["/usr", "/bin"]),
        &facts(3),
        &None,
    )
    .expect("the mounts should be found");
    let mount = |source: &str, destination: &str, read_only: bool| Mount {
        source: source.to_string(),
        destination: destination.to_string(),
        read_only,
    };
    assert_eq!(
        mounts,
        vec![
            mount("/src", "/work/source", false),
            mount("/store/v/zlib/release/1.0", "/depos/zlib/release/1.0", true),
            mount("/store/v/zlib/debug/1.0", "/depos/zlib/debug/1.0", true),
            mount("/usr/bin/sh", "/usr/bin/sh", true),
            mount("/opt/tools", "/opt/tools", true),
        ]
    );
    assert_eq!(
        build_toolchain_path(
            HostPlatform::Linux,
            &spec.toolchain_inputs,
            &vec![false, true, false],
        ),
        "/usr/bin:/opt/tools"
    );
    let spec = spec_of("NAME demo\nVERSION 1.0.0\nARTIFACT a\n");
    let mounts = build_command_mounts(
        &spec,
        "/src",
        "/store/v",
        &vec![dependency("zlib", "release")],
        &texts(&["/usr"]),
        &facts(0),
        &None,
    )
    .expect("the mounts should be found");
    assert_eq!(mounts.len(), 4);
    assert_eq!(mounts[3].source, "/home/user/.cargo");
    assert!(linux_provider_cache_root(&Some("cache".to_string())).is_err());
    assert_eq!(linux_provider_cache_root(&None), Ok(None));
    assert_eq!(
        host_rust_toolchain_dir(HostPlatform::Linux, &None, &Some("/home/user".to_string()), ".cargo"),
        Some("/home/user/.cargo".to_string())
    );
    assert_eq!(host_rust_toolchain_dir(HostPlatform::Linux, &Some("rel".to_string()), &None, ".cargo"), None);
}

#[test]
fn commands_are_expanded() {
    let spec = spec_of("NAME demo\nVERSION 1.0.0\nARTIFACT a\n");
    let variables = build_command_variables(&spec, &vec![dependency("zlib", "release")])
        .expect("the variables should be found");
    assert_eq!(
        prepare_phase_arguments(
            "BUILD",
            &texts(&["make", "-j$(nproc)", "P=${DEPO_PREFIX}", "Z=${dep:zlib@release}", "${dep:zlib}"]),
            &variables,
            8,
        ),
        Ok(texts(&[
            "make",
            "-j8",
            "P=/work/prefix",
            "Z=/depos/zlib/release/1.0",
            "/depos/zlib/release/1.0",
        ]))
    );
    let refused = |command: &[&str]| {
        prepare_phase_arguments("BUILD", &texts(command), &variables, 8)
            .expect_err("the command should be refused")
            .render()
    };
    assert_eq!(refused(&[]), "BUILD command array must not be empty");
    assert_eq!(refused(&["${NOPE}"]), "undefined DepoFile command variable NOPE");
    assert_eq!(refused(&["${a b}"]), "invalid DepoFile command variable reference a b");
    assert_eq!(refused(&["${DEPO_PREFIX"]), "unterminated ${NAME} expansion");
    assert_eq!(
        refused(&["$(date)"]),
        "unsupported direct command substitution '$(date)' in '$(date)'"
    );
    assert_eq!(refused(&["$(nproc"]), "unterminated direct command substitution in '$(nproc'");
    assert_eq!(
        prepare_phase_arguments("BUILD", &texts(&["sh", "-eu", "-c", "$(date)"]), &variables, 8),
        Ok(texts(&["sh", "-eu", "-c", "$(date)"]))
    );
    assert_eq!(
        expand_trusted_direct_command_substitutions("a$(nproc)b", 2),
        Ok("a2b".to_string())
    );
    assert_eq!(
        phase_log_line("BUILD", "/work/build", &texts(&["make", "all"])),
        "run BUILD in /work/build: make all\n"
    );
}

#[test]
fn dependencies_of_one_name_need_their_namespace() {
    let spec = spec_of("NAME demo\nVERSION 1.0.0\nARTIFACT a\n");
    let rendered = build_command_variables(
        &spec,
        &vec![dependency("zlib", "release"), dependency("zlib", "dev")],
    )
    .expect_err("the variables should be ambiguous")
    .render();
    assert_eq!(
        rendered,
        "package 'demo[release]@1.0.0' has multiple dependencies named 'zlib' across namespaces; use ${dep:zlib@<namespace>}"
    );
}

#[test]
fn programs_of_phases_are_found() {
    let spec = spec_of("NAME demo\nVERSION 1.0.0\nARTIFACT a\n");
    let find = |executable: &str, in_usr_bin: bool, in_bin: bool| {
        resolve_phase_executable_for_spec(
            HostPlatform::Linux,
            &spec,
            "/work/source",
            executable,
            in_usr_bin,
            in_bin,
        )
        .map_err(|error| error.render())
    };
    assert_eq!(find("make", true, true), Ok("/usr/bin/make".to_string()));
    assert_eq!(find("make", false, true), Ok("/bin/make".to_string()));
    assert_eq!(find("make", false, false), Err("unable to resolve executable 'make'".to_string()));
    assert_eq!(find("./configure", false, false), Ok("/work/source/configure".to_string()));
    assert_eq!(
        find("../configure", false, false),
        Err("relative phase executable must not contain '..': ../configure".to_string())
    );
    assert_eq!(default_phase_cwd(&spec, "INSTALL"), "/work/build");
    assert_eq!(default_phase_cwd(&spec, "CONFIGURE"), "/work/source");
    let autoconf = spec_of("NAME demo\nVERSION 1.0.0\nBUILD_SYSTEM AUTOCONF\nARTIFACT a\n");
    assert_eq!(default_phase_cwd(&autoconf, "INSTALL"), "/work/source");
}

#[test]
fn logs_end_their_lines() {
    let mut log = "run\n".to_string();
    append_process_output(&mut log, "out", "err\n");
    assert_eq!(log, "run\nout\nerr\n");
    let mut message = "failed".to_string();
    append_process_failure_output(&mut message, "stderr", "broken\r\n");
    append_process_failure_output(&mut message, "stdout", "\n");
    assert_eq!(message, "failed\nstderr:\nbroken");
}

#[test]
fn pipelines_stage_files_and_export_the_prefix() {
    let roots = BuildRoots {
        source: "/run/source".to_string(),
        build: "/run/build".to_string(),
        prefix: "/run/prefix".to_string(),
    };
    let spec = spec_of(
        "NAME demo\nVERSION 1.0.0\nBUILD_SYSTEM MANUAL\nSTAGE_FILE BUILD out/a.a lib/a.a\nARTIFACT lib/a.a\n",
    );
    assert!(uses_command_pipeline(&spec));
    let plan = plan_command_pipeline(HostPlatform::Linux, &spec, false, &roots);
    assert_eq!(plan.copies.len(), 1);
    assert_eq!(plan.copies[0].root, "/run/build");
    assert_eq!(plan.copies[0].source, "out/a.a");
    assert_eq!(plan.copies[0].destination, "lib/a.a");
    assert_eq!(plan.candidates.len(), 1);
    assert_eq!(plan.candidates[0].root, "/run/prefix");
    let plain = spec_of("NAME demo\nVERSION 1.0.0\nARTIFACT lib/a.a\n");
    assert!(!uses_command_pipeline(&plain));
}

#[test]
fn portable_paths_stay_below_the_job() {
    assert_eq!(
        portable_cell_host_path(HostPlatform::Macos, "/jobs/1", "/work/./source"),
        Ok("/jobs/1/work/source".to_string())
    );
    assert_eq!(
        portable_cell_host_path(HostPlatform::Macos, "/jobs/1", "/work/../x")
            .map_err(|error| error.render()),
        Err("portable build-cell path must not contain '..': /work/../x".to_string())
    );
    assert_eq!(
        portable_cell_host_path(HostPlatform::Macos, "/jobs/1", "work")
            .map_err(|error| error.render()),
        Err("portable build-cell path must be absolute: work".to_string())
    );
    assert_eq!(
        translate_portable_phase_executable(HostPlatform::Macos, "/jobs/1", "/work/source/configure"),
        Ok("/jobs/1/work/source/configure".to_string())
    );
    assert_eq!(
        translate_portable_phase_executable(HostPlatform::Macos, "/jobs/1", "/usr/bin/make"),
        Ok("/usr/bin/make".to_string())
    );
}

#[test]
fn portable_builds_know_their_dependencies() {
    let spec = spec_of("NAME demo\nVERSION 1.0.0\nARTIFACT a\n");
    let dependencies = vec![dependency("zlib", "release")];
    let paths = portable_command_paths(HostPlatform::Macos, "/jobs/1")
        .expect("the paths should be found");
    assert_eq!(paths.build_dir, "/jobs/1/work/build");
    let variables =
        build_portable_command_variables(HostPlatform::Macos, &spec, &dependencies, &paths)
            .expect("the variables should be found");
    assert_eq!(
        lookup(&variables, "dep:zlib"),
        Some("/jobs/1/depos/zlib/release/1.0".to_string())
    );
    let env = build_portable_command_environment(
        HostPlatform::Macos,
        &spec,
        &dependencies,
        &paths,
        &PortableFacts {
            path: "/usr/bin:/bin".to_string(),
            windows_values: Vec::new(),
            variables: Vec::new(),
            cargo_home: None,
            rustup_home: Some("/home/user/.rustup".to_string()),
        },
    );
    assert_eq!(lookup(&env, "PATH"), Some("/usr/bin:/bin".to_string()));
    assert_eq!(lookup(&env, "HOME"), Some("/jobs/1/tmp".to_string()));
    assert_eq!(lookup(&env, "RUSTUP_HOME"), Some("/home/user/.rustup".to_string()));
    assert_eq!(
        lookup(&env, "CMAKE_PREFIX_PATH"),
        Some("/jobs/1/depos/zlib/release/1.0".to_string())
    );
    assert_eq!(lookup(&env, "CPATH"), Some(String::new()));
    let cell = build_portable_command_cell(
        HostPlatform::Macos,
        "/run/demo",
        "/store/v",
        &dependencies,
    );
    assert_eq!(cell.scratch, "/run/demo/scratch");
    assert_eq!(
        cell.imports,
        pairs(&[("/store/v/zlib/release/1.0", "/depos/zlib/release/1.0")])
    );
    assert_eq!(
        cell.caches[0],
        ("/run/demo/cache/build".to_string(), "/work/build".to_string())
    );
}

#[test]
fn windows_builds_keep_the_compiler_variables() {
    let variables = pairs(&[
        ("VSINSTALLDIR", "C:\\VS"),
        ("include", "C:\\VS\\include"),
        ("SECRET", "x"),
        ("VCToolsVersion", "14"),
    ]);
    assert_eq!(
        default_system_tool_environment(HostPlatform::Windows, &variables),
        pairs(&[
            ("CC", "cl"),
            ("CXX", "cl"),
            ("VCToolsVersion", "14"),
            ("VSINSTALLDIR", "C:\\VS"),
            ("include", "C:\\VS\\include"),
        ])
    );
    assert_eq!(
        default_system_tool_environment(HostPlatform::Macos, &variables)[0],
        ("CC".to_string(), "clang".to_string())
    );
}

#[test]
fn git_sources_are_cloned_fetched_and_resolved() {
    let source = git_source("main");
    let turn = begin_git_source(&source, false, false);
    assert_eq!(turn.note, "resolve git https://example.com/demo.git main\n");
    assert_eq!(
        turn.action,
        GitAction::Clone(texts(&["clone", "https://example.com/demo.git", "/downloads/src"]))
    );
    let turn = continue_git_source(&source, &turn.stage, &said(Some(""))).expect("cloned");
    assert_eq!(
        turn.action,
        GitAction::Check(texts(&["show-ref", "--verify", "--quiet", "refs/remotes/origin/main"]))
    );
    let turn = continue_git_source(&source, &turn.stage, &said(Some(""))).expect("branch");
    assert_eq!(
        turn.action,
        GitAction::Ask(texts(&["rev-parse", "refs/remotes/origin/main"]))
    );
    let failed = continue_git_source(&source, &turn.stage, &said(None))
        .expect_err("the reference should not be found")
        .render();
    assert_eq!(
        failed,
        "unable to resolve git reference 'refs/remotes/origin/main' under /downloads/src"
    );
    let turn = continue_git_source(&source, &turn.stage, &said(Some("c1\n"))).expect("commit");
    assert_eq!(turn.action, GitAction::Finish("c1".to_string()));

    let source = git_source("HEAD");
    let turn = begin_git_source(&source, true, true);
    assert_eq!(turn.action, GitAction::Ask(texts(&["config", "--get", "remote.origin.url"])));
    let turn = continue_git_source(
        &source,
        &turn.stage,
        &said(Some("https://example.com/demo.git\n")),
    )
    .expect("remote");
    assert_eq!(
        turn.action,
        GitAction::Run(texts(&["fetch", "--tags", "--force", "--prune", "origin"]))
    );
}

#[test]
fn commits_that_are_present_are_not_fetched() {
    let commit = "0123456789abcdef0123456789abcdef01234567";
    assert!(is_full_git_commit_reference(commit));
    assert!(!is_full_git_commit_reference("HEAD"));
    let source = git_source(commit);
    let turn = begin_git_source(&source, true, true);
    let turn = continue_git_source(
        &source,
        &turn.stage,
        &said(Some("https://example.com/demo.git")),
    )
    .expect("remote");
    let turn = continue_git_source(&source, &turn.stage, &said(Some(commit))).expect("commit");
    assert_eq!(turn.action, GitAction::Finish(commit.to_string()));
    assert_eq!(turn.note, format!("reuse exact git commit {commit} without fetch\n"));
}

#[test]
fn clean_checkouts_are_kept() {
    let turn = begin_git_checkout();
    assert_eq!(turn.action, CheckoutAction::Ask(texts(&["rev-parse", "HEAD"])));
    let next = |stage, output: Option<&str>| {
        continue_git_checkout("/src", "c1", false, stage, &output.map(|text| text.to_string()))
    };
    let changed = next(turn.stage, Some("c0\n")).expect("checkout");
    assert_eq!(
        changed.action,
        CheckoutAction::Run(vec![
            texts(&["checkout", "--force", "c1"]),
            texts(&["clean", "-fdx"]),
        ])
    );
    let same = next(turn.stage, Some("c1\n")).expect("status");
    let kept = next(same.stage, Some("")).expect("clean");
    assert_eq!(kept.action, CheckoutAction::Run(Vec::new()));
    assert_eq!(kept.note, "reuse clean git checkout c1\n");
    assert_eq!(
        next(turn.stage, None).map_err(|error| error.render()),
        Err("unable to resolve checked-out commit under /src".to_string())
    );
    assert!(git_submodules_ready(&Some(" c2 third_party/a (v1)\n".to_string()), true));
    assert!(!git_submodules_ready(&Some("-c2 third_party/a\n".to_string()), true));
    assert!(git_submodules_ready(&None, false));
    assert!(git_remote_matches_url(
        HostPlatform::Linux,
        &Some("https://example.com/a.git\n".to_string()),
        "https://example.com/a.git",
    ));
    assert!(!git_remote_matches_url(HostPlatform::Linux, &None, "https://example.com/a.git"));
}

#[test]
fn archives_are_accepted_only_with_confined_members() {
    let source = url_source(Some("d1"), true);
    assert_eq!(
        accept_archive(&source, "d1", "demo/\n\ndemo/a.h\n"),
        Ok("d1".to_string())
    );
    let refusal = "archive '/downloads/demo.tar.gz' entry 'demo/../../a.h' must not contain '..', got 'demo/../../a.h'";
    assert_eq!(
        accept_archive(&source, "d1", "demo/\ndemo/../../a.h\n").map_err(|error| error.render()),
        Err(refusal.to_string())
    );
    let turn = begin_url_source(&source);
    let turn = continue_url_source(&source, &turn.stage, "d1").expect("the archive is kept");
    assert_eq!(
        continue_url_source(&source, &turn.stage, "demo/\ndemo/../../a.h\n")
            .map_err(|error| error.render()),
        Err(refusal.to_string())
    );
}

#[test]
fn archives_have_the_declared_digest() {
    let source = url_source(Some("d1"), false);
    let turn = begin_url_source(&source);
    assert_eq!(turn.note, "resolve url file:///mirror/demo.tar.gz\n");
    assert_eq!(
        turn.action,
        UrlAction::Download(texts(&[
            "--fail",
            "--location",
            "--silent",
            "--show-error",
            "--output",
            "/downloads/demo.tar.gz",
            "file:///mirror/demo.tar.gz",
        ]))
    );
    let listed = continue_url_source(&source, &turn.stage, "d1").expect("the digest is right");
    assert_eq!(
        listed.action,
        UrlAction::ListMembers(texts(&["-tf", "/downloads/demo.tar.gz"]))
    );
    let done = continue_url_source(&source, &listed.stage, "demo/\ndemo/a.h\n")
        .expect("the members are confined");
    assert_eq!(done.action, UrlAction::Finish("d1".to_string()));
    assert_eq!(
        continue_url_source(&source, &turn.stage, "d2").map_err(|error| error.render()),
        Err("downloaded archive '/downloads/demo.tar.gz' sha256 mismatch: expected d1, got d2".to_string())
    );

    let source = url_source(Some("d1"), true);
    let turn = begin_url_source(&source);
    assert_eq!(turn.action, UrlAction::HashArchive);
    let done = continue_url_source(&source, &turn.stage, "d1").expect("the archive is kept");
    assert_eq!(
        done.note,
        "reuse cached url archive /downloads/demo.tar.gz with sha256 d1\n"
    );

    let source = url_source(None, true);
    let turn = begin_url_source(&source);
    assert_eq!(turn.action, UrlAction::HashFile("/mirror/demo.tar.gz".to_string()));
    let turn = continue_url_source(&source, &turn.stage, "d3").expect("the file is there");
    assert_eq!(turn.action, UrlAction::HashArchive);
    let turn = continue_url_source(&source, &turn.stage, "d3").expect("the archive is kept");
    assert_eq!(
        turn.note,
        "reuse cached file url archive /downloads/demo.tar.gz from /mirror/demo.tar.gz\n"
    );
    let done = continue_url_source(&source, &turn.stage, "").expect("the archive is empty");
    assert_eq!(done.action, UrlAction::Finish("d3".to_string()));
    assert_eq!(
        continue_url_source(&source, &done.stage, "").map(|turn| turn.action),
        Ok(UrlAction::Finish("d3".to_string()))
    );

    assert_eq!(
        file_url_path(HostPlatform::Windows, "file:///C:/a.tar"),
        Some("C:/a.tar".to_string())
    );
    assert_eq!(file_url_path(HostPlatform::Linux, "https://a"), None);
    assert_eq!(archive_listing_arguments("/a.tar"), texts(&["-tf", "/a.tar"]));
    assert_eq!(
        archive_extraction_arguments("/a.tar", "/src"),
        texts(&["-xf", "/a.tar", "-C", "/src", "--strip-components=1"])
    );
}

#[test]
fn sources_are_kept_below_the_downloads() {
    let mut spec = spec_of(
        "NAME demo\nVERSION 1.0.0\nSOURCE URL https://example.com/demo-1.0.tar.gz\nARTIFACT a\n",
    );
    let plan = resolve_package_source(HostPlatform::Linux, "/depos", &spec).expect(
        "the source should be planned",
    );
    assert_eq!(
        plan,
        SourcePlan::Url {
            url: "https://example.com/demo-1.0.tar.gz".to_string(),
            sha256: None,
            download_root: "/depos/downloads/demo/release/1.0.0".to_string(),
            archive_path: "/depos/downloads/demo/release/1.0.0/demo-1.0.tar.gz".to_string(),
            source_root: "/depos/downloads/demo/release/1.0.0/src".to_string(),
        }
    );
    assert_eq!(plan.provenance("d1").source_digest, Some("d1".to_string()));
    assert_eq!(plan.provenance("d1").source_commit, None);
    spec.fetch = None;
    assert_eq!(
        resolve_package_source(HostPlatform::Linux, "/depos", &spec).map_err(
            |error| error.render(),
        ),
        Err("package 'demo[release]@1.0.0' has no SOURCE directive".to_string())
    );
}

#[test]
fn embedded_depofiles_are_taken_once() {
    let owner = dependency("owner", "release");
    let found = dependency("found", "release");
    assert_eq!(
        decide_embedded(&owner, &found, false, EmbeddedSlot::Free, "/d", "/p"),
        Ok(EmbeddedAction::Copy)
    );
    assert_eq!(
        decide_embedded(&owner, &found, true, EmbeddedSlot::Free, "/d", "/p"),
        Ok(EmbeddedAction::Skip)
    );
    assert_eq!(
        decide_embedded(&owner, &owner, false, EmbeddedSlot::Free, "/d", "/p"),
        Ok(EmbeddedAction::Skip)
    );
    assert_eq!(
        decide_embedded(&owner, &found, false, EmbeddedSlot::OtherContents, "/d", "/p")
            .map_err(|error| error.render()),
        Err("embedded DepoFile conflict for 'found[release]@1.0' while preparing package 'owner[release]@1.0': /d and /p differ".to_string())
    );
    assert_eq!(
        embedded_depofile_roots(HostPlatform::Linux, "/src", "/src", true, true),
        texts(&["/src/depofiles"])
    );
    assert_eq!(
        embedded_depofile_roots(HostPlatform::Linux, "/src", "/src/part", true, true),
        texts(&["/src/depofiles", "/src/part/depofiles"])
    );
    assert!(names_depofile("main.DepoFile"));
    assert!(!names_depofile("main.txt"));
}

#[test]
fn done_searches_have_seen_and_fetched_every_dependency() {
    let known = |name: &str, source: &str| {
        parse_registered_depofile(
            HostPlatform::Linux,
            "main.DepoFile",
            source,
            "x86_64",
            name,
            "release",
            "1",
        )
        .expect("the DepoFile should parse")
    };
    let top = known(
        "top",
        "NAME top\nVERSION 1\nSOURCE GIT /top HEAD\nDEPENDS mid\nDEPENDS low\nARTIFACT a\n",
    );
    let mid = known(
        "mid",
        "NAME mid\nVERSION 1\nSOURCE GIT /mid HEAD\nDEPENDS low\nARTIFACT a\n",
    );
    let low = known("low", "NAME low\nVERSION 1\nSOURCE GIT /low HEAD\nARTIFACT a\n");
    let request = parse_manifest("m", "depos_require(top)\n").expect("the manifest should parse");
    let mut catalog = vec![top];
    let (mut state, mut step) = Hydration::new().begin(&request[0], &catalog).expect("begin");
    let mut fetched = Vec::new();
    loop {
        match step {
            HydrationStep::Fetch(spec) => {
                if fetched.is_empty() {
                    catalog.push(mid.clone());
                    catalog.push(low.clone());
                }
                fetched.push(spec.package_id());
                state = state.fetched(spec, &catalog);
            }
            HydrationStep::Continue => {}
            HydrationStep::Done => break,
        }
        (state, step) = state.advance(&catalog).expect("advance");
    }
    let all = texts(&["top[release]@1", "mid[release]@1", "low[release]@1"]);
    assert_eq!(fetched, all);
    assert_eq!(state.seen, all);
    assert!(state.frames.is_empty());
}

#[test]
fn hydration_visits_each_package_once() {
    let base = parse_registered_depofile(
        HostPlatform::Linux,
        "main.DepoFile",
        "NAME base\nVERSION 1\nSOURCE GIT /base HEAD\nARTIFACT a\n",
        "x86_64",
        "base",
        "release",
        "1",
    )
    .expect("the DepoFile should parse");
    let app = parse_registered_depofile(
        HostPlatform::Linux,
        "main.DepoFile",
        "NAME app\nVERSION 1\nDEPENDS base\nARTIFACT a\n",
        "x86_64",
        "app",
        "release",
        "1",
    )
    .expect("the DepoFile should parse");
    let catalog = vec![base.clone(), app];
    let request = parse_manifest("m", "depos_require(app)\n").expect("the manifest should parse");
    let (state, step) = Hydration::new().begin(&request[0], &catalog).expect("begin");
    assert!(matches!(step, HydrationStep::Continue));
    let (state, step) = state.advance(&catalog).expect("advance");
    let HydrationStep::Fetch(spec) = step else {
        panic!("the dependency should be fetched");
    };
    assert_eq!(spec, base);
    let mut state = state.fetched(spec, &catalog);
    let mut steps = 0;
    loop {
        let (next, step) = state.advance(&catalog).expect("advance");
        state = next;
        steps += 1;
        if matches!(step, HydrationStep::Done) {
            break;
        }
        assert!(matches!(step, HydrationStep::Continue));
    }
    assert_eq!(steps, 3);
    let missing = parse_manifest("m", "depos_require(nope)\n").expect("the manifest should parse");
    assert!(Hydration::new().begin(&missing[0], &catalog).is_err());
}

#[test]
fn programs_are_searched_in_the_path() {
    assert_eq!(split_search_path(HostPlatform::Linux, "/a:/b"), texts(&["/a", "/b"]));
    assert_eq!(
        find_executable_in_path(HostPlatform::Linux, "git", &Some("/a:/b".to_string()), &None),
        texts(&["/a/git", "/b/git"])
    );
    let none: Vec<String> = Vec::new();
    assert_eq!(find_executable_in_path(HostPlatform::Linux, "git", &None, &None), none);
    assert_eq!(
        migrate_builtin_from_legacy(HostPlatform::Linux, "itoa"),
        Ok(vec![("include/itoa".to_string(), true)])
    );
    assert!(migrate_builtin_from_legacy(HostPlatform::Linux, "other").is_err());
}
