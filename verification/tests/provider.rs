//! Builds that are handed to a Linux provider, and what is refused on other hosts.

use depos::depofile::parse_depofile;
use depos::failure::Failure;
use depos::paths::HostPlatform;
use depos::pipeline::validate_supported_command_pipeline;
use depos::provider::{
    bootstrap_script, configured_apple_helper, configured_provider_runtime_root,
    configured_provider_selection, ensure_provider_selection_supported, file_name_string,
    job_prepare_script, layout_prepare_script, provider_bundle_entries, provider_job,
    provider_layout, provider_materialize_script, provider_metadata, provider_runtime_root_for,
    provider_shell_quote, provider_source_bundle_fingerprint, render_bundle, runtime_hash_string,
    source_sync_stamp, validate_source_repo, BundleEntry, ProviderKind, ProviderMetadata,
    ProviderSelection,
};

fn host_arch() -> &'static str {
    "x86_64"
}

fn foreign_arch() -> &'static str {
    "aarch64"
}

fn decode_windows_command_output(bytes: &[u8]) -> String {
    if bytes.contains(&0) {
        let mut code_units = Vec::with_capacity(bytes.len().div_ceil(2));
        for chunk in bytes.chunks(2) {
            let low = chunk[0];
            let high = *chunk.get(1).unwrap_or(&0);
            code_units.push(u16::from_le_bytes([low, high]));
        }
        String::from_utf16_lossy(&code_units)
    } else {
        String::from_utf8_lossy(bytes).into_owned()
    }
}

fn build_off_linux(platform: HostPlatform, source: &str) -> Result<(), Failure> {
    let spec = parse_depofile(platform, "main.DepoFile", source, host_arch())?;
    let existing = vec![true; spec.toolchain_inputs.len()];
    validate_supported_command_pipeline(platform, &spec, host_arch(), &existing)
}

fn assert_refused(source: &str, parts: &[&str]) {
    for platform in [HostPlatform::Macos, HostPlatform::Windows] {
        let error = build_off_linux(platform, source).expect_err("the build should be refused");
        let rendered = error.render();
        for part in parts {
            assert!(rendered.contains(part), "{rendered}");
        }
    }
}

#[test]
fn decodes_utf16le_windows_command_output() {
    let bytes = "Ubuntu-24.04\r\n"
        .encode_utf16()
        .flat_map(u16::to_le_bytes)
        .collect::<Vec<_>>();
    assert_eq!(decode_windows_command_output(&bytes), "Ubuntu-24.04\r\n");
}

#[test]
fn sync_rejects_build_root_scratch_off_linux() {
    assert_refused(
        "NAME scratch_demo\nVERSION 1.0.0\nSOURCE URL file:///upstreams/scratch_demo.tar.gz\nBUILD_ROOT SCRATCH\nBUILD_SYSTEM MANUAL\nMANUAL_BUILD cargo --version\nTARGET scratch_demo::scratch_demo INTERFACE include\n",
        &["BUILD_ROOT SCRATCH is only supported on Linux"],
    );
}

#[test]
fn sync_rejects_build_root_oci_without_toolchain_rootfs_off_linux() {
    assert_refused(
        "NAME oci_demo\nVERSION 1.0.0\nSOURCE URL file:///upstreams/oci_demo.tar.gz\nBUILD_ROOT OCI docker://docker.io/library/alpine:3.20\nBUILD_SYSTEM MANUAL\nMANUAL_BUILD cargo --version\nTARGET oci_demo::oci_demo INTERFACE include\n",
        &["BUILD_ROOT OCI", "without TOOLCHAIN ROOTFS"],
    );
}

#[test]
fn sync_rejects_toolchain_rootfs_without_oci_off_linux() {
    assert_refused(
        "NAME rootfs_demo\nVERSION 1.0.0\nSOURCE URL file:///upstreams/rootfs_demo.tar.gz\nTOOLCHAIN ROOTFS\nBUILD_SYSTEM MANUAL\nMANUAL_BUILD cargo --version\nTARGET rootfs_demo::rootfs_demo INTERFACE include\n",
        &["TOOLCHAIN ROOTFS without BUILD_ROOT OCI"],
    );
}

#[test]
fn sync_rejects_non_host_native_build_request_off_linux() {
    assert_refused(
        &format!(
            "NAME cross_demo\nVERSION 1.0.0\nSOURCE URL file:///upstreams/cross_demo.tar.gz\nBUILD_ARCH {}\nTARGET_ARCH {}\nBUILD_SYSTEM MANUAL\nMANUAL_BUILD cargo --version\nTARGET cross_demo::cross_demo INTERFACE include\n",
            host_arch(),
            foreign_arch(),
        ),
        &["without BUILD_ROOT OCI"],
    );
}

#[test]
fn sync_reports_missing_direct_apple_virtualization_helper_for_oci_requests() {
    let rendered = configured_apple_helper(&None)
        .expect_err("macOS OCI provider should require a direct Apple Virtualization helper")
        .render();
    assert!(rendered.contains("direct Apple Virtualization helper"), "{rendered}");
    assert!(rendered.contains("DEPOS_APPLE_VIRTUALIZATION_HELPER"), "{rendered}");
}

#[test]
fn sync_reports_invalid_linux_provider_selection_for_oci_requests() {
    let rendered = configured_provider_selection(&Some("bogus".to_string()))
        .expect_err("invalid provider selection should be rejected")
        .render();
    assert!(rendered.contains("unsupported DEPOS_LINUX_PROVIDER"), "{rendered}");
    assert!(rendered.contains("auto, wsl2, mac-local"), "{rendered}");
}

#[test]
fn sync_reports_invalid_linux_provider_root_for_oci_requests() {
    let rendered =
        configured_provider_runtime_root(&Some("relative-root".to_string()), "/repos/depos")
            .expect_err("invalid provider root should be rejected")
            .render();
    assert!(
        rendered.contains("DEPOS_LINUX_PROVIDER_ROOT must be an absolute Linux path"),
        "{rendered}"
    );
    assert!(rendered.contains("relative-root"), "{rendered}");
}

#[test]
fn sync_rejects_mac_local_provider_selection_on_windows() {
    let selection = configured_provider_selection(&Some("mac-local".to_string()))
        .expect("mac-local is a provider selection");
    let rendered = ensure_provider_selection_supported(HostPlatform::Windows, selection)
        .expect_err("mac-local provider selection should be rejected on Windows")
        .render();
    assert!(
        rendered.contains("DEPOS_LINUX_PROVIDER=mac-local is not supported on Windows"),
        "{rendered}"
    );
    assert!(rendered.contains("use auto or wsl2"), "{rendered}");
}

#[test]
fn sync_rejects_wsl2_provider_selection_on_macos() {
    let selection = configured_provider_selection(&Some("wsl2".to_string()))
        .expect("wsl2 is a provider selection");
    let rendered = ensure_provider_selection_supported(HostPlatform::Macos, selection)
        .expect_err("wsl2 provider selection should be rejected on macOS")
        .render();
    assert!(
        rendered.contains("DEPOS_LINUX_PROVIDER=wsl2 is not supported on macOS"),
        "{rendered}"
    );
    assert!(rendered.contains("use auto or mac-local"), "{rendered}");
}

#[test]
fn providers_are_selected_by_name() {
    let select = |value: &str| configured_provider_selection(&Some(value.to_string()));
    assert_eq!(configured_provider_selection(&None), Ok(ProviderSelection::Auto));
    assert_eq!(select("auto"), Ok(ProviderSelection::Auto));
    assert_eq!(select(""), Ok(ProviderSelection::Auto));
    assert_eq!(select(" wsl2 "), Ok(ProviderSelection::Wsl2));
    assert_eq!(select("mac-local"), Ok(ProviderSelection::MacLocal));
    for platform in [HostPlatform::Linux, HostPlatform::Macos, HostPlatform::Windows] {
        assert!(ensure_provider_selection_supported(platform, ProviderSelection::Auto).is_ok());
    }
    assert_eq!(
        configured_apple_helper(&Some("/opt/helper".to_string())),
        Ok("/opt/helper".to_string())
    );
    assert_eq!(
        configured_apple_helper(&Some("helper".to_string())).map_err(|error| error.render()),
        Err("DEPOS_APPLE_VIRTUALIZATION_HELPER must be an absolute path: helper".to_string())
    );
}

#[test]
fn runtime_roots_are_cleaned_and_checked() {
    let root = |value: &str| {
        configured_provider_runtime_root(&Some(value.to_string()), "/repos/depos")
            .map_err(|error| error.render())
    };
    assert_eq!(root(" /srv/depos// "), Ok("/srv/depos".to_string()));
    assert_eq!(root("/"), Ok("/".to_string()));
    assert_eq!(root("  "), Err("provider runtime root must not be empty".to_string()));
    assert_eq!(
        root("/srv\\depos"),
        Err("provider runtime root must use '/' separators: /srv\\depos".to_string())
    );
    assert_eq!(
        root("/srv/../depos"),
        Err("provider runtime root must not contain '.' or '..': /srv/../depos".to_string())
    );
    assert_eq!(runtime_hash_string("abc"), "ba7816bf8f01cfea");
    assert_eq!(
        configured_provider_runtime_root(&None, "abc"),
        Ok("/var/tmp/depos-provider/v1/ba7816bf8f01cfea".to_string())
    );
    assert_eq!(
        provider_runtime_root_for(&None, "0"),
        Ok("/var/tmp/depos-provider/v1/0".to_string())
    );
}

#[test]
fn provider_scripts_name_every_place() {
    let layout = provider_layout(
        HostPlatform::Linux,
        "/srv/depos",
        "/repos/my depos",
    ).expect("the layout");
    assert_eq!(layout.repo_root, "/srv/depos/repo-source/my depos");
    assert_eq!(layout.binary_path, "/srv/depos/cargo-target/release/depos");
    assert_eq!(
        layout_prepare_script(&layout),
        "mkdir -p '/srv/depos' '/srv/depos/toolchain-cache' '/srv/depos/repo-source'"
    );
    let spec = parse_depofile(
        HostPlatform::Linux,
        "main.DepoFile",
        "NAME demo\nVERSION 1.0.0\nTARGET_ARCH aarch64\nARTIFACT a\n",
        host_arch(),
    )
    .expect("the DepoFile should parse");
    let job = provider_job("/jobs/1", &spec).expect("the job");
    assert_eq!(
        job.store_root,
        "/jobs/1/depos-root/store/aarch64-aarch64_v1/demo/release/1.0.0"
    );
    assert_eq!(
        job_prepare_script(&job),
        "mkdir -p '/jobs/1/depos-root/store/aarch64-aarch64_v1'"
    );
    assert_eq!(
        provider_materialize_script(&layout, &job, &spec, "/jobs/1/src"),
        "DEPOS_INTERNAL_LINUX_PROVIDER=1 DEPOS_PROVIDER_CACHE_ROOT='/srv/depos/toolchain-cache' exec '/srv/depos/cargo-target/release/depos' internal-materialize-prepared --depos-root '/jobs/1/depos-root' --name 'demo' --namespace 'release' --version '1.0.0' --source-root '/jobs/1/src' --store-root '/jobs/1/depos-root/store/aarch64-aarch64_v1/demo/release/1.0.0' --executable '/srv/depos/cargo-target/release/depos'"
    );
    let script = bootstrap_script(&layout, "f00d");
    assert!(script.contains("'/srv/depos/bootstrap-v1.stamp'"), "{script}");
    assert!(script.contains("'/srv/depos/binary-build-f00d.stamp'"), "{script}");
    assert_eq!(provider_shell_quote("it's"), "'it'\"'\"'s'");
    assert_eq!(file_name_string(HostPlatform::Linux, "/a/b"), Ok("b".to_string()));
    assert_eq!(
        file_name_string(HostPlatform::Linux, "/").map_err(|error| error.render()),
        Err("path must have a normal file name: /".to_string())
    );
    assert!(validate_source_repo("/repos/depos", true).is_ok());
    assert!(validate_source_repo("/repos/depos", false).is_err());
}

#[test]
fn fingerprints_follow_the_sources() {
    let entries = vec![
        BundleEntry { relative: "cli/src".to_string(), contents: None },
        BundleEntry { relative: "cli/src/lib.rs".to_string(), contents: Some(vec![1, 2]) },
    ];
    assert_eq!(
        render_bundle(&entries),
        [&b"dir\0cli/src\0file\0cli/src/lib.rs\0"[..], &[1, 2][..]].concat()
    );
    let mut changed = entries.clone();
    changed[1].contents = Some(vec![1, 3]);
    assert_ne!(
        provider_source_bundle_fingerprint(&entries),
        provider_source_bundle_fingerprint(&changed)
    );
    assert_eq!(
        provider_bundle_entries(false),
        vec![
            "Cargo.toml".to_string(),
            "Cargo.lock".to_string(),
            "cli/Cargo.toml".to_string(),
            "cli/src".to_string(),
        ]
    );
    assert_eq!(provider_bundle_entries(true).len(), 5);
}

#[test]
fn stamps_stand_below_the_runtime_root() {
    let stamp = |root: &str, fingerprint: &str| {
        source_sync_stamp(root, fingerprint).map_err(|error| error.render())
    };
    assert_eq!(stamp("/var/run/", "ab12"), Ok("/var/run/repo-sync-ab12.stamp".to_string()));
    assert_eq!(stamp("/", "ab12"), Ok("/repo-sync-ab12.stamp".to_string()));
    assert_eq!(
        stamp("/var/run", ""),
        Err("provider stamp version must not be empty".to_string())
    );
    assert_eq!(
        stamp("/var/run", "a b"),
        Err("provider stamp version must contain only ASCII letters, digits, '-', '_', and '.': a b".to_string())
    );
    assert_eq!(
        stamp("run", "ab12"),
        Err("provider runtime root must be an absolute Linux path: run".to_string())
    );
}

#[test]
fn providers_tell_about_themselves() {
    assert_eq!(
        provider_metadata("/var/run/", ProviderKind::Wsl2, "Ubuntu"),
        Ok(ProviderMetadata {
            kind: ProviderKind::Wsl2,
            identity: "Ubuntu".to_string(),
            runtime_root: "/var/run".to_string(),
            runtime_layout_version: "v1".to_string(),
            bootstrap_version: "v1".to_string(),
            bootstrap_stamp: "/var/run/bootstrap-v1.stamp".to_string(),
        })
    );
    let refused = |root: &str, identity: &str| {
        provider_metadata(root, ProviderKind::MacLocal, identity)
            .map_err(|error| error.render())
            .expect_err("the provider should be refused")
    };
    assert_eq!(refused("/var/run", " "), "provider_identity must not be empty");
    assert_eq!(refused("//", "depos"), "runtime_root must not be empty");
}
