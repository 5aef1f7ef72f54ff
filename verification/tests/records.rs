//! Records, digests and the places of files.

use depos::arguments::{parse_environment_arguments, parse_mount_arguments};
use depos::catalog::parse_registered_depofile;
use depos::digest::{
    hash_file_sha256, manifest_profile, materialization_build_key, profile_from_digest,
    render_build_inputs,
};
use depos::environment::Mount;
use depos::layout::{
    default_depos_root_path, export_manifest_path, host_home_dir, log_file_path,
    materialization_state_path, package_store_root, provenance_file_path, registered_depofile_path,
    registry_dir, status_file_path, HostHome,
};
use depos::model::{PackageState, PackageSystemLibs};
use depos::paths::HostPlatform;
use depos::records::{
    export_record_version, parse_export_manifest, parse_materialization_state,
    parse_source_provenance, parse_status, render_export_manifest, render_materialization_state,
    render_source_provenance, render_status, ExportManifest, MaterializationState, PackageStatus,
    SourceProvenance,
};
use depos::status::{
    collect_statuses, prune_empty_ancestors, read_or_refresh_status,
    resolve_registered_depofile_path, status_queries, status_source, unregister_depofile,
    PackageIdentity, StatusSource,
    PruneStep, StatusEvidence, StatusOptions, UnregisterOptions,
};

fn texts(values: &[&str]) -> Vec<String> {
    values.iter().map(|value| value.to_string()).collect()
}

fn status(name: &str, version: &str) -> PackageStatus {
    PackageStatus {
        name: name.to_string(),
        namespace: "release".to_string(),
        version: version.to_string(),
        lazy: true,
        system_libs: PackageSystemLibs::Never,
        state: PackageState::Green,
        depofile: "/depos/main.DepoFile".to_string(),
        message: "all declared exports are present".to_string(),
        source_ref: Some("HEAD".to_string()),
        source_commit: Some("c1".to_string()),
    }
}

fn no_home() -> HostHome {
    HostHome { home: None, user_profile: None, home_drive: None, home_path: None }
}

fn status_options(name: Option<&str>, version: Option<&str>) -> StatusOptions {
    StatusOptions {
        depos_root: "/depos".to_string(),
        name: name.map(|name| name.to_string()),
        namespace: None,
        version: version.map(|version| version.to_string()),
        refresh: false,
    }
}

#[test]
fn provenance_reads_back() {
    let provenance = SourceProvenance {
        source_ref: Some("v1.0".to_string()),
        source_commit: Some("c1".to_string()),
        source_digest: None,
    };
    let contents = render_source_provenance(&provenance);
    assert_eq!(parse_source_provenance("p", &contents), Ok(provenance));
    assert!(parse_source_provenance("p", "no such line\n").is_err());
}

#[test]
fn materialization_state_reads_back() {
    let state = MaterializationState {
        store_root: "/store/demo".to_string(),
        depofile_hash: "d1".to_string(),
        build_key: "k1".to_string(),
    };
    let contents = render_materialization_state(HostPlatform::Linux, &state);
    assert_eq!(parse_materialization_state("s", &contents), Ok(state));
    assert!(parse_materialization_state("s", "").is_err());
}

#[test]
fn exports_read_back() {
    let paths = texts(&["include/a.h", "lib/liba.a"]);
    let contents = render_export_manifest(HostPlatform::Linux, "/store/demo", &paths);
    assert_eq!(
        parse_export_manifest(HostPlatform::Linux, "e", &contents),
        Ok(ExportManifest { store_root: "/store/demo".to_string(), paths })
    );
    assert!(parse_export_manifest(HostPlatform::Linux, "e", "").is_err());
    assert_eq!(export_record_version("1.0.0.exports"), Some("1.0.0".to_string()));
    assert_eq!(export_record_version("1.0.0.status"), None);
}

#[test]
fn statuses_read_back() {
    let status = status("demo", "1.0.0");
    let contents = render_status(HostPlatform::Linux, &status);
    assert_eq!(parse_status(&contents), Ok(status));
    assert!(parse_status("NAME=demo\n").is_err());
}

#[test]
fn statuses_are_listed_in_order() {
    let evidence = vec![
        StatusEvidence::Recorded {
            contents: render_status(HostPlatform::Linux, &status("zlib", "1.0.0")),
        },
        StatusEvidence::Recorded {
            contents: render_status(HostPlatform::Linux, &status("demo", "2.0.0")),
        },
        StatusEvidence::Recorded {
            contents: render_status(HostPlatform::Linux, &status("demo", "1.0.0")),
        },
    ];
    let statuses = collect_statuses(HostPlatform::Linux, &status_options(None, None), "x86_64", &Vec::new(), &evidence)
        .expect("the statuses should be read");
    let order: Vec<(String, String)> =
        statuses.into_iter().map(|status| (status.name, status.version)).collect();
    assert_eq!(
        order,
        vec![
            ("demo".to_string(), "1.0.0".to_string()),
            ("demo".to_string(), "2.0.0".to_string()),
            ("zlib".to_string(), "1.0.0".to_string()),
        ]
    );
}

#[test]
fn status_is_asked_for_one_package_or_all() {
    let registered = vec![PackageIdentity {
        name: "zlib".to_string(),
        namespace: "release".to_string(),
        version: "1.3.2".to_string(),
    }];
    assert_eq!(status_queries(&status_options(None, None), &registered), Ok(registered.clone()));
    assert_eq!(
        status_queries(&status_options(Some("demo"), Some("1.0.0")), &registered),
        Ok(vec![PackageIdentity {
            name: "demo".to_string(),
            namespace: "release".to_string(),
            version: "1.0.0".to_string(),
        }])
    );
    assert_eq!(
        status_queries(&status_options(Some("demo"), None), &registered)
            .map_err(|error| error.render()),
        Err("status requires --name with --version and optional --namespace, or none of them".to_string())
    );
}

#[test]
fn packages_without_files_were_never_run() {
    let evidence = StatusEvidence::Observed {
        identity: PackageIdentity {
            name: "demo".to_string(),
            namespace: "release".to_string(),
            version: "1.0.0".to_string(),
        },
        depofile: "/depos/main.DepoFile".to_string(),
        source: "NAME demo\nVERSION 1.0.0\nARTIFACT demo.h\n".to_string(),
        exports_present: false,
        provenance_path: "p".to_string(),
        provenance: String::new(),
    };
    let status = read_or_refresh_status(HostPlatform::Linux, "/depos", "x86_64", &Vec::new(), &evidence)
        .expect("the status should be told");
    assert_eq!(status.state, PackageState::NeverRun);
    assert_eq!(
        status.message,
        "registered, but declared exports are not present under /depos/store/x86_64-x86_64_v1/demo/release/1.0.0"
    );
}

#[test]
fn registered_depofiles_are_looked_up_in_both_places() {
    assert_eq!(
        resolve_registered_depofile_path(
            HostPlatform::Linux,
            "/depos",
            "demo",
            "release",
            "1.0.0",
            true,
            true,
        ),
        Ok("/depos/depofiles/local/demo/release/1.0.0/main.DepoFile".to_string())
    );
    let embedded =
        resolve_registered_depofile_path(
            HostPlatform::Linux,
            "/depos",
            "demo",
            "release",
            "1.0.0",
            false,
            true,
        )
            .expect("the embedded DepoFile should be found");
    assert!(embedded.ends_with("/demo/release/1.0.0/main.DepoFile"), "{embedded}");
    assert!(!embedded.contains("/local/"), "{embedded}");
    assert!(
        resolve_registered_depofile_path(
            HostPlatform::Linux,
            "/depos",
            "demo",
            "release",
            "1.0.0",
            false,
            false,
        ).is_err()
    );
}

#[test]
fn unregistering_removes_every_record() {
    let options = UnregisterOptions {
        depos_root: "/depos".to_string(),
        name: "demo".to_string(),
        namespace: "release".to_string(),
        version: "1.0.0".to_string(),
    };
    let steps = unregister_depofile(HostPlatform::Linux, &options, &None);
    let paths: Vec<String> = steps.iter().map(|step| step.path.clone()).collect();
    assert_eq!(
        paths,
        vec![
            export_manifest_path(HostPlatform::Linux, "/depos", "demo", "release", "1.0.0"),
            "/depos/depofiles/local/demo/release/1.0.0".to_string(),
            status_file_path(HostPlatform::Linux, "/depos", "demo", "release", "1.0.0"),
            log_file_path(HostPlatform::Linux, "/depos", "demo", "release", "1.0.0"),
            provenance_file_path(HostPlatform::Linux, "/depos", "demo", "release", "1.0.0"),
            materialization_state_path(HostPlatform::Linux, "/depos", "demo", "release", "1.0.0"),
        ]
    );
    assert_eq!(prune_empty_ancestors(
        HostPlatform::Linux,
        "/depos/a",
        "/depos",
        true,
        true,
    ), PruneStep::RemoveAndAscend);
    assert_eq!(prune_empty_ancestors(
        HostPlatform::Linux,
        "/depos/a",
        "/depos",
        true,
        false,
    ), PruneStep::Stop);
    assert_eq!(prune_empty_ancestors(
        HostPlatform::Linux,
        "/depos/a",
        "/depos",
        false,
        false,
    ), PruneStep::Ascend);
    assert_eq!(prune_empty_ancestors(
        HostPlatform::Linux,
        "/depos/",
        "/depos",
        true,
        true,
    ), PruneStep::Stop);
}

#[test]
fn digests_are_those_of_sha256() {
    assert_eq!(
        hash_file_sha256(b"abc"),
        "ba7816bf8f01cfea414140de5dae2223b00361a396177a9cb410ff61f20015ad"
    );
    assert_eq!(
        hash_file_sha256(b""),
        "e3b0c44298fc1c149afbf4c8996fb92427ae41e4649b934ca495991b7852b855"
    );
    assert_eq!(manifest_profile(b"abc"), profile_from_digest(&hash_file_sha256(b"abc")));
    assert!(manifest_profile(b"abc").contains("ba7816bf8f01cfea"));
    let provenance = SourceProvenance {
        source_ref: Some("HEAD".to_string()),
        source_commit: None,
        source_digest: None,
    };
    let keys = vec![("base[release]@1.0.0".to_string(), "k".to_string())];
    let inputs = render_build_inputs("d1", &provenance, &keys);
    assert!(inputs.contains("d1"), "{inputs}");
    assert!(inputs.contains("HEAD"), "{inputs}");
    assert!(inputs.contains("base[release]@1.0.0"), "{inputs}");
    assert_eq!(
        materialization_build_key("d1", &provenance, &keys),
        hash_file_sha256(inputs.as_bytes())
    );
}

#[test]
fn files_have_their_places() {
    let spec = parse_registered_depofile(
        HostPlatform::Linux,
        "main.DepoFile",
        "NAME demo\nVERSION 1.0.0\nARTIFACT a\n",
        "x86_64",
        "demo",
        "dev",
        "1.0.0",
    )
    .expect("the DepoFile should parse");
    assert_eq!(
        package_store_root(HostPlatform::Linux, "/depos", "v", &spec),
        "/depos/store/v/demo/dev/1.0.0"
    );
    assert_eq!(
        registered_depofile_path(HostPlatform::Linux, "/depos", "demo", "dev", "1.0.0"),
        "/depos/depofiles/local/demo/dev/1.0.0/main.DepoFile"
    );
    assert_eq!(
        export_manifest_path(HostPlatform::Linux, "/depos", "demo", "dev", "1.0.0"),
        "/depos/.run/exports/demo/dev/1.0.0.exports"
    );
    assert_eq!(registry_dir(HostPlatform::Linux, "/depos", "v", "p"), "/depos/registry/v/p");
}

#[test]
fn registered_depofiles_match_their_place() {
    let refused = |name: &str, version: &str| {
        parse_registered_depofile(
            HostPlatform::Linux,
            "main.DepoFile",
            "NAME demo\nVERSION 1.0.0\nARTIFACT a\n",
            "x86_64",
            name,
            "release",
            version,
        )
        .is_err()
    };
    assert!(!refused("demo", "1.0.0"));
    assert!(refused("other", "1.0.0"));
    assert!(refused("demo", "2.0.0"));
}

#[test]
fn the_depos_root_is_below_the_home() {
    let mut host = no_home();
    assert_eq!(host_home_dir(HostPlatform::Linux, &host), None);
    host.home = Some("/home/user".to_string());
    assert_eq!(default_depos_root_path(HostPlatform::Linux, &host), "/home/user/.depos");
    let mut host = no_home();
    host.user_profile = Some("/users/user".to_string());
    assert_eq!(default_depos_root_path(HostPlatform::Linux, &host), "/users/user/.depos");
    assert_eq!(default_depos_root_path(HostPlatform::Linux, &no_home()), "./.depos");
}

#[test]
fn the_depos_root_is_below_the_user_profile_on_windows() {
    let mut host = no_home();
    host.home_drive = Some("D:".to_string());
    host.home_path = Some("\\people\\user".to_string());
    assert_eq!(
        host_home_dir(HostPlatform::Windows, &host),
        Some("D:\\people\\user".to_string())
    );
    host.home = Some("C:\\h".to_string());
    assert_eq!(host_home_dir(HostPlatform::Windows, &host), Some("C:\\h".to_string()));
    host.user_profile = Some("C:\\u".to_string());
    assert_eq!(host_home_dir(HostPlatform::Windows, &host), Some("C:\\u".to_string()));
    assert_eq!(default_depos_root_path(HostPlatform::Windows, &host), "C:\\u\\.depos");
    assert_eq!(host_home_dir(HostPlatform::Macos, &host), Some("C:\\h".to_string()));
}

#[test]
fn statuses_are_read_where_they_are_recorded() {
    let mut options = status_options(None, None);
    assert_eq!(status_source(&options, true), StatusSource::Record);
    assert_eq!(status_source(&options, false), StatusSource::Observation);
    options.refresh = true;
    assert_eq!(status_source(&options, true), StatusSource::Observation);
}

#[test]
fn mounts_and_variables_are_read_from_arguments() {
    assert_eq!(
        parse_mount_arguments(&texts(&["/a", "/b"]), &texts(&["/c", "/d"]), &texts(&["ro", "rw"])),
        Ok(vec![
            Mount { source: "/a".to_string(), destination: "/c".to_string(), read_only: true },
            Mount { source: "/b".to_string(), destination: "/d".to_string(), read_only: false },
        ])
    );
    assert!(parse_mount_arguments(&texts(&["/a"]), &texts(&[]), &texts(&["ro"])).is_err());
    assert!(parse_mount_arguments(&texts(&["/a"]), &texts(&["/b"]), &texts(&["no"])).is_err());
    assert_eq!(
        parse_environment_arguments(&texts(&["A=b=c"])),
        Ok(vec![("A".to_string(), "b=c".to_string())])
    );
    assert!(parse_environment_arguments(&texts(&["A"])).is_err());
}
