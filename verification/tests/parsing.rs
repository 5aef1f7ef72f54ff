//! What DepoFiles and manifests are read as, and what is refused in them.

use depos::depofile::parse_depofile;
use depos::failure::Failure;
use depos::manifest::parse_manifest;
use depos::paths::HostPlatform;
use depos::model::{PackageSpec, RequestMode, RequestSource, StageKind};

const RELEASE_NAMESPACE: &str = "release";

fn host_arch() -> &'static str {
    "x86_64"
}

fn foreign_arch() -> &'static str {
    "aarch64"
}

fn parse(path: &str, source: &str) -> Result<PackageSpec, Failure> {
    parse_depofile(HostPlatform::Linux, path, source, host_arch())
}

fn depofile_demo() -> String {
    "NAME demo\nVERSION 1.0.0\nSYSTEM_LIBS INHERIT\nTARGET demo::demo INTERFACE include\nSOURCE URL https://example.com/demo.tar.gz\nSHA256 0123456789abcdef0123456789abcdef0123456789abcdef0123456789abcdef\n".to_string()
}

#[test]
fn manifest_and_depofile_parsers_cover_known_surface() {
    let source = "depos_require(zlib VERSION 1.3.2 SOURCE DEPO)\ndepos_require(bitsery MIN_VERSION 5.0.0 NAMESPACE dev-main AS bitsery_dev)\n";
    let requests = parse_manifest("tmp/manifest.cmake", source)
        .expect("manifest parsing should succeed");
    assert_eq!(requests.len(), 2);
    assert_eq!(requests[0].source, RequestSource::Depo);
    assert_eq!(requests[1].mode, RequestMode::Minimum("5.0.0".to_string()));
    assert_eq!(requests[1].namespace, "dev-main");
    assert_eq!(requests[1].alias.as_deref(), Some("bitsery_dev"));

    let demo = depofile_demo();
    let source = demo.as_str();
    let spec = parse("tmp/spec.DepoFile", source)
        .expect("depofile parsing should succeed");
    assert_eq!(spec.name, "demo");
    assert_eq!(spec.namespace, RELEASE_NAMESPACE);
    assert_eq!(spec.targets[0].name, "demo::demo");
    assert!(spec.targets[0].link_libraries.is_empty());

    let source = &format!(
            "NAME arch_demo\nVERSION 1.0.0\nBUILD_ARCH {}\nTARGET_ARCH amd64\nARTIFACT include/demo.h\n",
            foreign_arch()
        );
    let spec = parse("tmp/arch.DepoFile", source)
        .expect("depofile arch parsing should succeed");
    assert_eq!(spec.build_arch, foreign_arch());
    assert_eq!(spec.target_arch, "x86_64");

    let source = "NAME v2_demo\nVERSION 1.0.0\nSOURCE GIT /tmp/example HEAD\nSOURCE_SUBDIR subdir\nTARGET v2_demo::v2_demo STATIC lib/libv2_demo.a INTERFACE include\nLINK v2_demo::v2_demo pthread\nBUILD_SYSTEM CMAKE\nCMAKE_DEFINE BUILD_SHARED_LIBS=OFF\n";
    let spec = parse("tmp/v2.DepoFile", source)
        .expect("v2 depofile parsing should succeed");
    assert_eq!(spec.source_subdir, Some("subdir".to_string()));
    assert_eq!(spec.targets[0].name, "v2_demo::v2_demo");
    assert_eq!(
        spec.targets[0].static_path,
        Some("lib/libv2_demo.a".to_string())
    );
    assert_eq!(spec.targets[0].include_dirs, vec!["include".to_string()]);
    assert_eq!(spec.targets[0].link_libraries, vec!["pthread".to_string()]);
    assert_eq!(spec.configure[0][0], "cmake");
    assert!(spec.configure[0]
        .iter()
        .any(|arg| arg == "-DBUILD_SHARED_LIBS=OFF"));

    let source = "NAME v2_direct_demo\nVERSION 1.0.0\nSOURCE GIT /tmp/example HEAD\nTARGET v2_direct_demo::v2_direct_demo STATIC lib/libv2_direct_demo.a INTERFACE include\nBUILD_SYSTEM CMAKE\nCMAKE_DEFINE BUILD_SHARED_LIBS=OFF\nCMAKE_BUILD cmake --build . --parallel\nCMAKE_INSTALL cmake --install .\n";
    let spec = parse("tmp/v2_direct.DepoFile", source)
        .expect("direct-command depofile parsing should succeed");
    assert_eq!(spec.build[0][0], "cmake");
    assert_eq!(spec.build[0][1], "--build");
    assert_eq!(spec.build[0][2], ".");
    assert_eq!(spec.install[0], vec!["cmake", "--install", "."]);
    assert!(spec.configure[0]
        .iter()
        .any(|arg| arg == "-DBUILD_SHARED_LIBS=OFF"));

    let source = "NAME v2_multi_role_demo\nVERSION 1.0.0\nTARGET v2_multi_role_demo::v2_multi_role_demo STATIC lib/libv2_multi_role_demo.a\nTARGET v2_multi_role_demo::v2_multi_role_demo SHARED lib/libv2_multi_role_demo.so\nTARGET v2_multi_role_demo::v2_multi_role_demo OBJECT lib/v2_multi_role_demo.o\nTARGET v2_multi_role_demo::v2_multi_role_demo INTERFACE include generated/include\n";
    let spec = parse("tmp/v2_multi_role.DepoFile", source)
        .expect("multi-role target parsing should succeed");
    assert_eq!(
        spec.targets[0].static_path,
        Some("lib/libv2_multi_role_demo.a".to_string())
    );
    assert_eq!(
        spec.targets[0].shared_path,
        Some("lib/libv2_multi_role_demo.so".to_string())
    );
    assert_eq!(
        spec.targets[0].object_path,
        Some("lib/v2_multi_role_demo.o".to_string())
    );
    assert_eq!(
        spec.targets[0].include_dirs,
        vec!["include".to_string(), "generated/include".to_string()]
    );

    let source = "NAME manual_install_demo\nVERSION 1.0.0\nSOURCE GIT /tmp/example HEAD\nBUILD_SYSTEM MANUAL\nSTAGE_TREE SOURCE include/manual_install_demo\nSTAGE_FILE SOURCE metadata/license.txt share/licenses/manual_install_demo/LICENSE\nTARGET manual_install_demo::manual_install_demo INTERFACE include\nARTIFACT share/licenses/manual_install_demo/LICENSE\n";
    let spec = parse("tmp/manual_install.DepoFile", source)
        .expect("manual install depofile parsing should succeed");
    assert_eq!(spec.stage_entries.len(), 2);
    assert_eq!(spec.stage_entries[0].kind, StageKind::Tree);
    assert_eq!(
        spec.stage_entries[0].source,
        "include/manual_install_demo".to_string()
    );
    assert_eq!(spec.stage_entries[1].kind, StageKind::File);
    assert_eq!(
        spec.stage_entries[1].destination,
        "share/licenses/manual_install_demo/LICENSE".to_string()
    );

    let source = "NAME manual_direct_demo\nVERSION 1.0.0\nSOURCE GIT /tmp/example HEAD\nBUILD_SYSTEM MANUAL\nTARGET manual_direct_demo::manual_direct_demo INTERFACE include\n";
    let spec = parse("tmp/manual_direct.DepoFile", source)
        .expect("direct manual depofile parsing should succeed");
    assert!(spec.configure.is_empty());
    assert!(spec.build.is_empty());
    assert!(spec.install.is_empty());
    assert!(spec.stage_entries.is_empty());

    let source = "NAME env_and_submodules_demo\nVERSION 1.0.0\nSOURCE GIT /tmp/example HEAD\nGIT_SUBMODULES RECURSIVE\nBUILD_SYSTEM AUTOCONF\nAUTOCONF_CONFIGURE_SH <<'EOF'\n./configure --prefix=\"${DEPO_PREFIX}\" --libdir=\"${DEPO_PREFIX}/lib\" --disable-shared\nEOF\nTARGET env_and_submodules_demo::env_and_submodules_demo STATIC lib/libenv_and_submodules_demo.a INTERFACE include\n";
    let spec = parse("tmp/env_and_submodules.DepoFile", source)
        .expect("explicit configure command and git submodules should parse");
    assert!(spec.git_submodules_recursive);
    assert_eq!(
        spec.configure,
        vec![vec![
            "sh".to_string(),
            "-eu".to_string(),
            "-c".to_string(),
            "./configure --prefix=\"${DEPO_PREFIX}\" --libdir=\"${DEPO_PREFIX}/lib\" --disable-shared\n"
                .to_string(),
        ]]
    );

    let error = {
        let source = "NAME legacy_target_surface\nVERSION 1.0.0\nTARGET legacy_target_surface::legacy_target_surface STATIC lib/liblegacy_target_surface.a include\n";
        parse("tmp/legacy_target_surface.DepoFile", source)
    }
    .expect_err("legacy compact target include syntax should fail");
    assert!(error.render().contains("TARGET requires"));

    let source = "NAME bad\nNAMESPACE dev-main\nVERSION 1.0.0\nARTIFACT include/bad.h\n";
    let error = parse("tmp/namespace_in_file.DepoFile", source)
        .expect_err("top-level NAMESPACE should be rejected");
    assert!(error.render().contains("depos register --namespace"));
}

#[test]
fn depofile_merges_target_facets_across_lines_and_rejects_duplicate_artifacts() {
    let source = "NAME target_facets\nVERSION 1.0.0\nTARGET target_facets::core STATIC lib/libtarget_facets.a\nTARGET target_facets::core SHARED lib/libtarget_facets.so\nTARGET target_facets::core OBJECT lib/target_facets.o\nTARGET target_facets::core INTERFACE include generated/include\n";
    let spec = parse("tmp/target_facets.DepoFile", source)
        .expect("multiline target facets should merge");
    assert_eq!(spec.targets.len(), 1);
    assert_eq!(
        spec.targets[0].static_path,
        Some("lib/libtarget_facets.a".to_string())
    );
    assert_eq!(
        spec.targets[0].shared_path,
        Some("lib/libtarget_facets.so".to_string())
    );
    assert_eq!(
        spec.targets[0].object_path,
        Some("lib/target_facets.o".to_string())
    );
    assert_eq!(
        spec.targets[0].include_dirs,
        vec!["include".to_string(), "generated/include".to_string()]
    );

    let source = "NAME target_facets_single_line\nVERSION 1.0.0\nTARGET target_facets_single_line::core STATIC lib/libtarget_facets_single_line.a SHARED lib/libtarget_facets_single_line.so OBJECT lib/target_facets_single_line.o INTERFACE include\n";
    let spec = parse("tmp/target_facets_single_line.DepoFile", source)
    .expect("single-line target facets should parse");
    assert_eq!(spec.targets.len(), 1);
    assert_eq!(
        spec.targets[0].static_path,
        Some("lib/libtarget_facets_single_line.a".to_string())
    );
    assert_eq!(
        spec.targets[0].shared_path,
        Some("lib/libtarget_facets_single_line.so".to_string())
    );
    assert_eq!(
        spec.targets[0].object_path,
        Some("lib/target_facets_single_line.o".to_string())
    );
    assert_eq!(spec.targets[0].include_dirs, vec!["include".to_string()]);

    let source = "NAME dup_static\nVERSION 1.0.0\nTARGET dup_static::dup STATIC lib/libdup_static.a\nTARGET dup_static::dup STATIC lib/libdup_static_again.a\n";
    let error = parse("tmp/target_duplicate_static.DepoFile", source)
    .expect_err("duplicate target STATIC facet should be rejected");
    assert!(error.render().contains("TARGET dup_static::dup repeats STATIC"));

    let source = "NAME merge_interface\nVERSION 1.0.0\nTARGET merge_interface::merge INTERFACE include\nTARGET merge_interface::merge INTERFACE generated/include\n";
    let spec = parse("tmp/target_merged_interface.DepoFile", source)
    .expect("repeated target INTERFACE facets should merge include dirs");
    assert_eq!(
        spec.targets[0].include_dirs,
        vec!["include".to_string(), "generated/include".to_string()]
    );
}

#[test]
fn depofile_parses_primary_target_and_target_interface_metadata() {
    let source = "NAME interface_metadata\nVERSION 1.0.0\nPRIMARY_TARGET interface_metadata::runtime\nTARGET interface_metadata::headers INTERFACE include\nDEFINES interface_metadata::headers BASICS_DEBUG=0 PAGE_SIZE=4096\nDEFINES interface_metadata::headers nametag_log=basics_log\nOPTIONS interface_metadata::headers -Winvalid-pch\nFEATURES interface_metadata::headers cxx_std_20\nTARGET interface_metadata::runtime STATIC lib/libinterface_metadata.a\n";
    let spec = parse("tmp/interface_metadata.DepoFile", source)
        .expect("primary target and interface metadata should parse");
    assert_eq!(
        spec.primary_target_name.as_deref(),
        Some("interface_metadata::runtime")
    );
    assert_eq!(spec.targets.len(), 2);
    assert_eq!(
        spec.targets[0].compile_definitions,
        vec![
            "BASICS_DEBUG=0".to_string(),
            "PAGE_SIZE=4096".to_string(),
            "nametag_log=basics_log".to_string()
        ]
    );
    assert_eq!(
        spec.targets[0].compile_options,
        vec!["-Winvalid-pch".to_string()]
    );
    assert_eq!(
        spec.targets[0].compile_features,
        vec!["cxx_std_20".to_string()]
    );

    let source = "NAME unknown_target_defines\nVERSION 1.0.0\nDEFINES unknown_target_defines::missing FOO=1\nTARGET unknown_target_defines::known INTERFACE include\n";
    let error = parse("tmp/unknown_target_defines.DepoFile", source)
    .expect_err("DEFINES should reject unknown target names");
    assert!(error.render().contains("declares DEFINES for unknown target"));

    let source = "NAME repeated_primary_target\nVERSION 1.0.0\nPRIMARY_TARGET repeated_primary_target::one\nPRIMARY_TARGET repeated_primary_target::two\nTARGET repeated_primary_target::one INTERFACE include\nTARGET repeated_primary_target::two INTERFACE include\n";
    let error = parse("tmp/repeated_primary_target.DepoFile", source)
    .expect_err("PRIMARY_TARGET should reject repeat assignment");
    assert!(error.render().contains("PRIMARY_TARGET is already set"));
}

#[test]
fn depofile_rejects_path_escapes_in_declared_paths() {

    let source = "NAME source_subdir_escape\nVERSION 1.0.0\nSOURCE GIT /tmp/example HEAD\nSOURCE_SUBDIR ../outside\nARTIFACT include/demo.h\n";
    let error = parse("tmp/source_subdir_escape.DepoFile", source)
    .expect_err("SOURCE_SUBDIR path escape should be rejected");
    assert!(error.render().contains("SOURCE_SUBDIR"));
    assert!(error.render().contains("must not contain '..'"));

    let source = "NAME artifact_absolute\nVERSION 1.0.0\nARTIFACT /tmp/evil\n";
    let error = parse("tmp/artifact_absolute.DepoFile", source)
        .expect_err("absolute ARTIFACT path should be rejected");
    assert!(error.render().contains("ARTIFACT"));
    assert!(error.render().contains("must be relative"));

    let source = "NAME target_path_escape\nVERSION 1.0.0\nTARGET target_path_escape::core STATIC ../libevil.a INTERFACE include\n";
    let error = parse("tmp/target_path_escape.DepoFile", source)
        .expect_err("target artifact path escape should be rejected");
    assert!(error.render().contains("TARGET target_path_escape::core STATIC path"));
    assert!(error.render().contains("must not contain '..'"));

    let source = "NAME target_include_absolute\nVERSION 1.0.0\nTARGET target_include_absolute::core INTERFACE /tmp/include\n";
    let error = parse("tmp/target_include_absolute.DepoFile", source)
    .expect_err("absolute target include path should be rejected");
    assert!(error.render().contains("TARGET target_include_absolute::core INTERFACE path"));
    assert!(error.render().contains("must be relative"));

    let source = "NAME stage_source_escape\nVERSION 1.0.0\nBUILD_SYSTEM MANUAL\nSTAGE_FILE SOURCE ../evil include/demo.h\nTARGET stage_source_escape::demo INTERFACE include\n";
    let error = parse("tmp/stage_source_escape.DepoFile", source)
    .expect_err("stage source path escape should be rejected");
    assert!(error.render().contains("STAGE_FILE source path"));
    assert!(error.render().contains("must not contain '..'"));

    let source = "NAME stage_destination_absolute\nVERSION 1.0.0\nBUILD_SYSTEM MANUAL\nSTAGE_TREE SOURCE include /tmp/evil\nTARGET stage_destination_absolute::demo INTERFACE include\n";
    let error = parse("tmp/stage_destination_absolute.DepoFile", source)
    .expect_err("absolute stage destination should be rejected");
    assert!(error.render().contains("STAGE_TREE destination path"));
    assert!(error.render().contains("must be relative"));
}

#[test]
fn depofile_rejects_build_system_directives_from_the_wrong_family() {
    let source = "NAME wrong_family\nVERSION 1.0.0\nTARGET wrong::wrong STATIC lib/libwrong.a INTERFACE include\nBUILD_SYSTEM CARGO\nCMAKE_CONFIGURE_SH <<EOF\necho nope\nEOF\n";

    let error = parse("tmp/wrong_family.DepoFile", source)
        .expect_err("wrong-family build-system directive should be rejected");
    let rendered = error.render();
    assert!(rendered.contains("CMAKE_CONFIGURE_SH requires BUILD_SYSTEM CMAKE"));
    assert!(rendered.contains("BUILD_SYSTEM CARGO"));
}

#[test]
fn depofile_rejects_build_system_specific_directives_without_build_system() {
    let source = "NAME missing_build_system\nVERSION 1.0.0\nTARGET missing::missing STATIC lib/libmissing.a INTERFACE include\nMESON_DEFINE default_library=static\n";

    let error = parse("tmp/missing_build_system.DepoFile", source)
    .expect_err("build-system directive without BUILD_SYSTEM should be rejected");
    assert!(error.render().contains("MESON_DEFINE requires BUILD_SYSTEM MESON"));
}

#[test]
fn depofile_rejects_build_system_declared_after_phase_hook() {
    let source = "NAME late_build_system\nVERSION 1.0.0\nTARGET late::late STATIC lib/liblate.a INTERFACE include\nCMAKE_CONFIGURE_SH <<EOF\necho nope\nEOF\nBUILD_SYSTEM CARGO\n";

    let error = parse("tmp/late_build_system.DepoFile", source)
        .expect_err("phase hook before BUILD_SYSTEM should be rejected");
    assert!(error.render().contains(
        "CMAKE_CONFIGURE_SH requires BUILD_SYSTEM CMAKE and BUILD_SYSTEM must appear before it"
    ));
}

#[test]
fn depofile_rejects_git_submodules_without_preceding_git_source() {
    let source = "NAME git_submodules_missing_source\nVERSION 1.0.0\nGIT_SUBMODULES RECURSIVE\nTARGET git_submodules_missing_source::git_submodules_missing_source INTERFACE include\n";
    let error = parse("tmp/git_submodules_missing_source.DepoFile", source)
    .expect_err("GIT_SUBMODULES should require SOURCE GIT");
    assert!(error.render().contains("GIT_SUBMODULES requires a preceding SOURCE GIT"));

    let source = "NAME git_submodules_url\nVERSION 1.0.0\nSOURCE URL https://example.invalid/archive.tar.gz\nGIT_SUBMODULES RECURSIVE\nTARGET git_submodules_url::git_submodules_url INTERFACE include\n";
    let error = parse("tmp/git_submodules_url.DepoFile", source)
        .expect_err("GIT_SUBMODULES should reject SOURCE URL");
    assert!(error.render()
        .contains("GIT_SUBMODULES requires a preceding SOURCE GIT, not SOURCE URL"));
}

#[test]
fn depofile_rejects_autoconf_skip_configure_with_explicit_configure_hook() {
    let source = "NAME autoconf_conflict\nVERSION 1.0.0\nTARGET autoconf_conflict::autoconf_conflict STATIC lib/libautoconf_conflict.a INTERFACE include\nBUILD_SYSTEM AUTOCONF\nAUTOCONF_SKIP_CONFIGURE\nAUTOCONF_CONFIGURE_SH <<EOF\necho nope\nEOF\n";

    let error = parse("tmp/autoconf_conflict.DepoFile", source)
        .expect_err("AUTOCONF_SKIP_CONFIGURE should conflict with AUTOCONF_CONFIGURE_SH");
    assert!(error.render()
        .contains("uses AUTOCONF_SKIP_CONFIGURE together with AUTOCONF_CONFIGURE_SH"));

    let source = "NAME autoconf_direct_conflict\nVERSION 1.0.0\nTARGET autoconf_direct_conflict::autoconf_direct_conflict STATIC lib/libautoconf_direct_conflict.a INTERFACE include\nBUILD_SYSTEM AUTOCONF\nAUTOCONF_SKIP_CONFIGURE\nAUTOCONF_CONFIGURE ./configure --prefix=${DEPO_PREFIX}\n";
    let error = parse("tmp/autoconf_direct_conflict.DepoFile", source)
    .expect_err("AUTOCONF_SKIP_CONFIGURE should conflict with AUTOCONF_CONFIGURE");
    assert!(error.render()
        .contains("uses AUTOCONF_SKIP_CONFIGURE together with AUTOCONF_CONFIGURE"));

    let source = "NAME autoconf_arg_conflict\nVERSION 1.0.0\nTARGET autoconf_arg_conflict::autoconf_arg_conflict STATIC lib/libautoconf_arg_conflict.a INTERFACE include\nBUILD_SYSTEM AUTOCONF\nAUTOCONF_SKIP_CONFIGURE\nAUTOCONF_ARG --disable-shared\n";
    let error = parse("tmp/autoconf_arg_conflict.DepoFile", source)
    .expect_err("AUTOCONF_SKIP_CONFIGURE should conflict with AUTOCONF_ARG");
    assert!(
        error.render().contains("uses AUTOCONF_SKIP_CONFIGURE together with AUTOCONF_ARG")
    );
}

#[test]
fn depofile_rejects_direct_and_shell_override_for_same_phase() {
    let source = "NAME cmake_phase_conflict\nVERSION 1.0.0\nTARGET cmake_phase_conflict::cmake_phase_conflict STATIC lib/libcmake_phase_conflict.a INTERFACE include\nBUILD_SYSTEM CMAKE\nCMAKE_BUILD cmake --build . --parallel\nCMAKE_BUILD_SH <<EOF\necho nope\nEOF\n";

    let error = parse("tmp/cmake_phase_conflict.DepoFile", source)
    .expect_err("direct and shell phase overrides should conflict");
    assert!(error.render().contains("declares both CMAKE_BUILD and CMAKE_BUILD_SH"));
}

#[test]
fn depofile_rejects_structured_and_explicit_phase_ownership_mix() {

    let source = "NAME autoconf_structured_mix\nVERSION 1.0.0\nTARGET autoconf_structured_mix::autoconf_structured_mix STATIC lib/libautoconf_structured_mix.a INTERFACE include\nBUILD_SYSTEM AUTOCONF\nAUTOCONF_ARG --disable-shared\nAUTOCONF_CONFIGURE ./configure --prefix=${DEPO_PREFIX} --libdir=${DEPO_PREFIX}/lib --disable-shared\n";
    let error = parse("tmp/autoconf_structured_mix.DepoFile", source)
    .expect_err("AUTOCONF_ARG should conflict with AUTOCONF_CONFIGURE");
    assert!(error.render()
        .contains("declares both AUTOCONF_CONFIGURE and AUTOCONF_ARG for the same phase"));

    let source = "NAME cmake_structured_mix\nVERSION 1.0.0\nTARGET cmake_structured_mix::cmake_structured_mix STATIC lib/libcmake_structured_mix.a INTERFACE include\nBUILD_SYSTEM CMAKE\nCMAKE_DEFINE BUILD_SHARED_LIBS=OFF\nCMAKE_CONFIGURE cmake -S . -B ${DEPO_BUILD_DIR} -G Ninja\n";
    let error = parse("tmp/cmake_structured_mix.DepoFile", source)
    .expect_err("CMAKE_DEFINE should conflict with CMAKE_CONFIGURE");
    assert!(error.render()
        .contains("declares both CMAKE_CONFIGURE and CMAKE_ARG/CMAKE_DEFINE for the same phase"));

    let source = "NAME meson_structured_mix\nVERSION 1.0.0\nTARGET meson_structured_mix::meson_structured_mix STATIC lib/libmeson_structured_mix.a INTERFACE include\nBUILD_SYSTEM MESON\nMESON_DEFINE default_library=static\nMESON_SETUP meson setup ${DEPO_BUILD_DIR} ${DEPO_SOURCE_DIR}\n";
    let error = parse("tmp/meson_structured_mix.DepoFile", source)
    .expect_err("MESON_DEFINE should conflict with MESON_SETUP");
    assert!(error.render()
        .contains("declares both MESON_SETUP and MESON_ARG/MESON_DEFINE for the same phase"));

    let source = "NAME cargo_structured_mix\nVERSION 1.0.0\nBUILD_SYSTEM CARGO\nCARGO_BUILD_ARG --manifest-path\nCARGO_BUILD_ARG Cargo.toml\nCARGO_BUILD cargo build --release --target-dir ${DEPO_BUILD_DIR}/cargo-target --manifest-path Cargo.toml\nSTAGE_FILE BUILD cargo-target/release/libcargo_structured_mix.a lib/libcargo_structured_mix.a\nTARGET cargo_structured_mix::cargo_structured_mix STATIC lib/libcargo_structured_mix.a\n";
    let error = parse("tmp/cargo_structured_mix.DepoFile", source)
    .expect_err("CARGO_BUILD_ARG should conflict with CARGO_BUILD");
    assert!(error.render()
        .contains("declares both CARGO_BUILD and CARGO_BUILD_ARG for the same phase"));
}

#[test]
fn checked_local_depofiles_parse_cleanly() {
    let depofiles = [
        "NAME itoa\nVERSION main\nSOURCE GIT https://github.com/jeaiii/itoa.git main\nTARGET itoa::itoa INTERFACE include\n",
        "NAME openssl\nVERSION 3.4.1\nSOURCE URL https://github.com/openssl/openssl/archive/refs/tags/openssl-3.4.1.tar.gz\nBUILD_SYSTEM AUTOCONF\nAUTOCONF_CONFIGURE ./Configure \"linux-${DEPO_TARGET_ARCH}\" --prefix=\"${DEPO_PREFIX}\" --libdir=lib --openssldir=\"${DEPO_PREFIX}/ssl\" no-quic no-tests no-docs no-shared\nAUTOCONF_BUILD make -j$(nproc) libcrypto.a libssl.a\nAUTOCONF_INSTALL make install_dev DESTDIR=\nTARGET openssl INTERFACE include\nTARGET openssl::crypto STATIC lib/libcrypto.a\nTARGET openssl::ssl STATIC lib/libssl.a\nLINK openssl openssl::crypto openssl::ssl\n",
    ];
    for source in depofiles {
        parse_depofile(HostPlatform::Linux, "main.DepoFile", source, "x86_64")
            .unwrap_or_else(|error| panic!("failed to parse: {}", error.render()));
    }
}
