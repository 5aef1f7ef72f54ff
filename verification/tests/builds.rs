//! What is built, what is built again, and which builds are refused.

use depos::catalog::parse_registered_depofile;
use depos::copying::{
    describe_copied, describe_copy, plan_copy, plan_inner_copy, plan_stage_entries,
    symlink_target_path, validate_confined_symlink_target, CopyAction, CopyPurpose, CopySource,
    FoundLink, SourceKind,
};
use depos::depofile::parse_depofile;
use depos::download::validate_archive_entries;
use depos::exports::{
    assert_no_export_conflicts, collect_export_paths, declared_exports, export_paths_overlap,
    find_export_path_conflict, resolve_declared_export_source, resolve_declared_export_sources,
    EntryKind, ExportCandidateRoot, FoundEntry, OwnedExports, ResolvedExportSource,
};
use depos::failure::Failure;
use depos::git::{begin_git_source, continue_git_source, GitAction, GitReply, GitSource};
use depos::layout::export_manifest_path;
use depos::materialize::{
    conclude_materialization, decide_materialization, dependency_materialization_keys,
    gather_layer_outcome, materialization_status, reconcile_export_manifest, report_up_to_date,
    MaterializationEvidence, WorkerOutcome,
};
use depos::model::{PackageSpec, PackageState};
use depos::paths::HostPlatform;
use depos::pipeline::{plan_command_pipeline, validate_supported_command_pipeline, BuildRoots};
use depos::records::{ExportManifest, MaterializationState, SourceProvenance};
use depos::source::{ensure_resolved_path_within_root, resolve_source_root};
use depos::status::{unregister_depofile, Cleanup, CleanupKind, UnregisterOptions};

fn host_arch() -> &'static str {
    "x86_64"
}

fn foreign_arch() -> &'static str {
    "aarch64"
}

fn spec_of(source: &str) -> PackageSpec {
    parse_depofile(HostPlatform::Linux, "main.DepoFile", source, host_arch()).expect("the DepoFile should parse")
}

fn scratch_toolchain_lines() -> String {
    [
        "TOOLCHAIN_INPUT /bin/sh",
        "TOOLCHAIN_INPUT /usr/bin/sh",
        "TOOLCHAIN_INPUT /usr/bin/install",
        "TOOLCHAIN_INPUT /usr/lib",
        "TOOLCHAIN_INPUT /lib",
        "TOOLCHAIN_INPUT /lib64",
    ]
    .join("\n")
}

fn validate(source: &str, inputs_exist: bool) -> Result<(), Failure> {
    let spec = spec_of(source);
    let existing = vec![inputs_exist; spec.toolchain_inputs.len()];
    validate_supported_command_pipeline(HostPlatform::Linux, &spec, host_arch(), &existing)
}

fn assert_refused(source: &str, inputs_exist: bool, part: &str) {
    let rendered = validate(source, inputs_exist)
        .expect_err("the build should be refused")
        .render();
    assert!(rendered.contains(part), "{rendered}");
}

fn found(kind: EntryKind, path: &str, root: &str) -> Option<FoundEntry> {
    Some(FoundEntry {
        kind,
        resolved_path: path.to_string(),
        resolved_root: root.to_string(),
    })
}

fn candidate(label: &str, root: &str) -> ExportCandidateRoot {
    ExportCandidateRoot { label: label.to_string(), root: root.to_string() }
}

fn no_provenance() -> SourceProvenance {
    SourceProvenance { source_ref: None, source_commit: None, source_digest: None }
}

/// What is found of a package that was built before from the same inputs.
fn unchanged() -> MaterializationEvidence {
    let mut evidence = MaterializationEvidence {
        previous_state: None,
        previous_exports: Some(ExportManifest {
            store_root: "/store/demo".to_string(),
            paths: vec!["include/demo.h".to_string()],
        }),
        exports_present: true,
        canonical_store_root: "/store/demo".to_string(),
        depofile_hash: "d1".to_string(),
        provenance: SourceProvenance {
            source_ref: Some("HEAD".to_string()),
            source_commit: Some("c1".to_string()),
            source_digest: None,
        },
        dependency_keys: vec![("base[release]@1.0.0".to_string(), "k1".to_string())],
    };
    let (build_key, current) = decide_materialization(HostPlatform::Linux, &evidence);
    assert!(!current);
    evidence.previous_state = Some(MaterializationState {
        store_root: "/store/demo".to_string(),
        depofile_hash: "d1".to_string(),
        build_key,
    });
    evidence
}

#[test]
fn sync_rejects_scratch_package_without_toolchain_inputs() {
    assert_refused(
        "NAME scratch_missing_toolchain\nVERSION 1.0.0\nSYSTEM_LIBS NEVER\nBUILD_ROOT SCRATCH\nTARGET scratch_missing_toolchain::scratch_missing_toolchain INTERFACE include\nSOURCE GIT /upstreams/scratch_missing_toolchain HEAD\nBUILD_SYSTEM MANUAL\nMANUAL_INSTALL_SH <<'EOF'\n:\nEOF\n",
        true,
        "uses BUILD_ROOT SCRATCH but does not declare any TOOLCHAIN_INPUT entries",
    );
}

#[test]
fn sync_rejects_scratch_package_with_rootfs_toolchain() {
    assert_refused(
        "NAME scratch_rootfs_toolchain\nVERSION 1.0.0\nSYSTEM_LIBS NEVER\nBUILD_ROOT SCRATCH\nTOOLCHAIN ROOTFS\nTARGET scratch_rootfs_toolchain::scratch_rootfs_toolchain INTERFACE include\nSOURCE GIT /upstreams/scratch_rootfs_toolchain HEAD\nBUILD_SYSTEM MANUAL\nMANUAL_INSTALL_SH <<'EOF'\n:\nEOF\n",
        true,
        "uses BUILD_ROOT SCRATCH with TOOLCHAIN ROOTFS",
    );
}

#[test]
fn sync_rejects_scratch_package_with_relative_toolchain_input() {
    assert_refused(
        "NAME scratch_relative_toolchain\nVERSION 1.0.0\nSYSTEM_LIBS NEVER\nBUILD_ROOT SCRATCH\nTOOLCHAIN_INPUT relative/tool\nTARGET scratch_relative_toolchain::scratch_relative_toolchain INTERFACE include\nSOURCE GIT /upstreams/scratch_relative_toolchain HEAD\nBUILD_SYSTEM MANUAL\nMANUAL_INSTALL_SH <<'EOF'\n:\nEOF\n",
        true,
        "must be an absolute host path",
    );
}

#[test]
fn sync_rejects_scratch_package_with_missing_toolchain_input() {
    assert_refused(
        "NAME scratch_missing_input_path\nVERSION 1.0.0\nSYSTEM_LIBS NEVER\nBUILD_ROOT SCRATCH\nTOOLCHAIN_INPUT /missing-toolchain-path\nTARGET scratch_missing_input_path::scratch_missing_input_path INTERFACE include\nSOURCE GIT /upstreams/scratch_missing_input_path HEAD\nBUILD_SYSTEM MANUAL\nMANUAL_INSTALL_SH <<'EOF'\n:\nEOF\n",
        false,
        "does not exist on the host",
    );
}

#[test]
fn sync_rejects_foreign_scratch_command_pipeline() {
    assert_refused(
        &format!(
            "NAME foreign_scratch_demo\nVERSION 1.0.0\nSYSTEM_LIBS NEVER\nBUILD_ROOT SCRATCH\nBUILD_ARCH {}\nTARGET_ARCH {}\nTARGET foreign_scratch_demo::foreign_scratch_demo INTERFACE include\nSOURCE GIT /upstreams/foreign_scratch_demo HEAD\n{}\nBUILD_SYSTEM MANUAL\nMANUAL_INSTALL_SH <<'EOF'\ninstall -D \"${{DEPO_SOURCE_DIR}}/payload/demo.h\" \"${{DEPO_PREFIX}}/include/foreign_scratch_demo/demo.h\"\nEOF\n",
            foreign_arch(),
            foreign_arch(),
            scratch_toolchain_lines(),
        ),
        true,
        "only BUILD_ROOT OCI + TOOLCHAIN ROOTFS with BUILD_ARCH == TARGET_ARCH",
    );
}

#[test]
fn sync_rejects_cross_target_scratch_command_pipeline() {
    assert_refused(
        &format!(
            "NAME cross_target_scratch_demo\nVERSION 1.0.0\nSYSTEM_LIBS NEVER\nBUILD_ROOT SCRATCH\nBUILD_ARCH {}\nTARGET_ARCH {}\nTARGET cross_target_scratch_demo::cross_target_scratch_demo INTERFACE include\nSOURCE GIT /upstreams/cross_target_scratch_demo HEAD\n{}\nBUILD_SYSTEM MANUAL\nMANUAL_INSTALL_SH <<'EOF'\ninstall -D \"${{DEPO_SOURCE_DIR}}/payload/demo.h\" \"${{DEPO_PREFIX}}/include/cross_target_scratch_demo/demo.h\"\nEOF\n",
            host_arch(),
            foreign_arch(),
            scratch_toolchain_lines(),
        ),
        true,
        "only BUILD_ROOT OCI + TOOLCHAIN ROOTFS is restored for BUILD_ARCH != TARGET_ARCH",
    );
}

#[test]
fn sync_rejects_foreign_system_command_pipeline() {
    assert_refused(
        &format!(
            "NAME foreign_system_demo\nVERSION 1.0.0\nSYSTEM_LIBS NEVER\nBUILD_ARCH {}\nTARGET_ARCH {}\nTARGET foreign_system_demo::foreign_system_demo INTERFACE include\nSOURCE GIT /upstreams/foreign_system_demo HEAD\nBUILD_SYSTEM MANUAL\nMANUAL_INSTALL_SH <<'EOF'\nmkdir -p \"${{DEPO_PREFIX}}/include/foreign_system_demo\" && cp \"${{DEPO_SOURCE_DIR}}/payload/demo.h\" \"${{DEPO_PREFIX}}/include/foreign_system_demo/demo.h\"\nEOF\n",
            foreign_arch(),
            foreign_arch(),
        ),
        true,
        "only BUILD_ROOT OCI + TOOLCHAIN ROOTFS",
    );
}

#[test]
fn foreign_builds_in_an_image_are_accepted() {
    let source = format!(
        "NAME demo\nVERSION 1.0.0\nBUILD_ROOT OCI docker://docker.io/library/alpine:3.20\nTOOLCHAIN ROOTFS\nBUILD_ARCH {}\nTARGET_ARCH {}\nBUILD_SYSTEM MANUAL\nMANUAL_BUILD true\nARTIFACT demo.h\n",
        foreign_arch(),
        foreign_arch(),
    );
    assert!(validate(&source, true).is_ok());
}

#[test]
fn sync_rejects_manual_target_when_source_and_build_outputs_are_ambiguous() {
    let spec = spec_of(
        "NAME manual_ambiguous_demo\nVERSION 1.0.0\nSYSTEM_LIBS NEVER\nSOURCE GIT /upstreams/manual_ambiguous_demo HEAD\nBUILD_SYSTEM MANUAL\nMANUAL_BUILD_SH <<'EOF'\ninstall -d \"${DEPO_BUILD_DIR}/include/manual_ambiguous_demo\"\nprintf '%s\\n' '// build copy' > \"${DEPO_BUILD_DIR}/include/manual_ambiguous_demo/demo.h\"\nEOF\nTARGET manual_ambiguous_demo::manual_ambiguous_demo INTERFACE include\n",
    );
    let plan = plan_command_pipeline(
        HostPlatform::Linux,
        &spec,
        false,
        &BuildRoots {
            source: "/run/source".to_string(),
            build: "/run/build".to_string(),
            prefix: "/run/prefix".to_string(),
        },
    );
    let mut entries = Vec::new();
    for candidate in &plan.candidates {
        let path = format!("{}/include", candidate.root);
        entries.push(found(EntryKind::Directory, &path, &candidate.root));
    }
    let error = resolve_declared_export_sources(
        HostPlatform::Linux,
        &plan.candidates,
        &spec,
        &vec![entries],
    )
        .expect_err("sync should reject ambiguous manual direct exports");
    assert!(error.render().contains("exists in multiple candidate outputs"));
}

#[test]
fn sync_rejects_local_url_archive_with_path_traversal_entries() {
    let rendered = validate_archive_entries(
        HostPlatform::Linux,
        "payload/../escape.txt\n",
        "/downloads/url_traversal_demo.tar",
    )
    .expect_err("archive traversal entries should be rejected")
    .render();
    assert!(rendered.contains("archive"));
    assert!(rendered.contains("must not contain '..'"));
}

fn copy_source(root: &str, relative: &str, kind: SourceKind) -> CopySource {
    CopySource {
        root: root.to_string(),
        relative_path: relative.to_string(),
        kind,
        resolved_path: format!("{root}/{relative}"),
        resolved_root: root.to_string(),
    }
}

fn found_link(target: &str, resolved_target: &str) -> SourceKind {
    SourceKind::Link(FoundLink {
        target: target.to_string(),
        resolved_target: resolved_target.to_string(),
    })
}

#[test]
fn what_leads_out_of_its_root_is_not_copied() {
    let linux = HostPlatform::Linux;
    let mut from = copy_source("/src", "lib/a.so", found_link("a.so.1", "/src/lib/a.so.1"));
    assert_eq!(plan_copy(linux, CopyPurpose::Export, &from, false), Ok(CopyAction::Link));
    from.kind = found_link("../../b", "/b");
    assert_eq!(
        plan_copy(linux, CopyPurpose::Export, &from, false).map_err(|error| error.render()),
        Err("symlink '/src/lib/a.so' points outside its allowed root '/src': '../../b'".to_string())
    );
    from.kind = SourceKind::File;
    assert_eq!(plan_copy(linux, CopyPurpose::Install, &from, false), Ok(CopyAction::File));
    from.resolved_path = "/elsewhere/a.so".to_string();
    assert_eq!(
        plan_copy(linux, CopyPurpose::Install, &from, false).map_err(|error| error.render()),
        Err("manual install source 'lib/a.so' resolves outside its allowed root '/src': '/src/lib/a.so'".to_string())
    );
    assert_eq!(describe_copied(CopyPurpose::Export, "lib"), "declared export 'lib'");
    let inner = |kind: &SourceKind| plan_inner_copy(linux, "/src", "/src/lib/b", kind, "/src");
    assert_eq!(inner(&found_link("a", "/src/lib/a")), Ok(Some(CopyAction::Link)));
    assert!(inner(&found_link("/b", "/b")).is_err());
    assert_eq!(inner(&SourceKind::Directory), Ok(Some(CopyAction::Tree)));
    assert_eq!(inner(&SourceKind::File), Ok(Some(CopyAction::File)));
    assert_eq!(inner(&SourceKind::Other), Ok(None));
}

#[test]
fn sync_rejects_exported_symlink_that_escapes_source_root() {
    let link = "/downloads/src/include/symlink_escape_demo/current.h";
    assert_eq!(
        plan_copy(
            HostPlatform::Linux,
            CopyPurpose::Export,
            &copy_source("/downloads/src", "include", SourceKind::Directory),
            true,
        ),
        Ok(CopyAction::Tree)
    );
    let refusal = plan_inner_copy(
        HostPlatform::Linux,
        "/downloads/src",
        link,
        &found_link("/etc/passwd", "/etc/passwd"),
        "/downloads/src",
    )
    .expect_err("escaping symlink exports should be rejected")
    .render();
    assert!(refusal.contains("points outside its allowed root"), "{refusal}");
    assert_eq!(symlink_target_path(HostPlatform::Linux, link, "/etc/passwd"), "/etc/passwd");
    let rendered = validate_confined_symlink_target(
        HostPlatform::Linux,
        link,
        "/downloads/src",
        "/etc/passwd",
        "/etc/passwd",
        "/downloads/src",
    )
    .expect_err("escaping symlink exports should be rejected")
    .render();
    assert!(rendered.contains("points outside its allowed root"));
    assert!(rendered.contains("current.h"));
}

#[test]
fn sync_rejects_source_subdir_symlink_that_escapes_source_root() {
    let spec = spec_of(
        "NAME source_subdir_escape\nVERSION 1.0.0\nSOURCE GIT /upstreams/source_subdir_escape HEAD\nSOURCE_SUBDIR escaped\nTARGET source_subdir_escape::source_subdir_escape INTERFACE include\n",
    );
    let rendered = resolve_source_root(
        HostPlatform::Linux,
        "/downloads/src",
        &spec,
        &Some(("/tmp/escaped-source-subdir".to_string(), "/downloads/src".to_string())),
    )
    .expect_err("SOURCE_SUBDIR symlink escape should be rejected")
    .render();
    assert!(rendered.contains("SOURCE_SUBDIR"), "{rendered}");
    assert!(rendered.contains("resolves outside its allowed root"), "{rendered}");
}

#[test]
fn source_subdirs_are_resolved_below_the_sources() {
    let mut spec = spec_of("NAME demo\nVERSION 1.0.0\nSOURCE_SUBDIR part\nARTIFACT demo.h\n");
    assert_eq!(
        resolve_source_root(
            HostPlatform::Linux,
            "/src",
            &spec,
            &Some(("/real/src/part".to_string(), "/real/src".to_string())),
        ),
        Ok("/real/src/part".to_string())
    );
    assert_eq!(
        resolve_source_root(HostPlatform::Linux, "/src", &spec, &None).map_err(
            |error| error.render(),
        ),
        Err("package 'demo[release]@1.0.0' declares SOURCE_SUBDIR 'part', but '/src/part' does not exist".to_string())
    );
    spec.source_subdir = None;
    assert_eq!(resolve_source_root(
        HostPlatform::Linux,
        "/src",
        &spec,
        &None,
    ), Ok("/src".to_string()));
}

#[test]
fn sync_rejects_staged_symlink_that_escapes_source_root() {
    let spec = spec_of(
        "NAME staged_symlink_escape_demo\nVERSION 1.0.0\nBUILD_SYSTEM MANUAL\nSTAGE_FILE SOURCE payload/escape.h include/staged_symlink_escape_demo/escape.h\nTARGET staged_symlink_escape_demo::staged_symlink_escape_demo INTERFACE include\nSOURCE GIT /upstreams/staged_symlink_escape_demo HEAD\n",
    );
    let copies = plan_stage_entries("/run/source", "/run/build", &spec.stage_entries);
    assert_eq!(copies.len(), 1);
    assert_eq!(copies[0].root, "/run/source");
    assert!(!copies[0].allow_directory);
    let rendered = ensure_resolved_path_within_root(
        HostPlatform::Linux,
        &format!("{}/{}", copies[0].root, copies[0].source),
        &copies[0].root,
        &format!("manual install source '{}'", copies[0].source),
        "/etc/passwd",
        "/run/source",
    )
    .expect_err("staged escaping symlink should be rejected")
    .render();
    assert!(rendered.contains("resolves outside its allowed root"));
    assert!(rendered.contains("escape.h"));
}

#[test]
fn sync_rejects_export_path_through_intermediate_symlink_directory() {
    let rendered = resolve_declared_export_source(
        HostPlatform::Linux,
        &vec![candidate("source", "/downloads/src")],
        "escape/demo.h",
        false,
        &vec![found(
            EntryKind::File,
            "/tmp/escaped-export-directory/demo.h",
            "/downloads/src",
        )],
    )
    .expect_err("intermediate export symlink directory should be rejected")
    .render();
    assert!(rendered.contains("declared export"), "{rendered}");
    assert!(rendered.contains("resolves outside its allowed root"), "{rendered}");
}

#[test]
fn sync_rejects_stage_source_path_through_intermediate_symlink_directory() {
    let rendered = ensure_resolved_path_within_root(
        HostPlatform::Linux,
        "/run/source/escape/demo.h",
        "/run/source",
        "manual install source 'escape/demo.h'",
        "/tmp/escaped-stage-directory/demo.h",
        "/run/source",
    )
    .expect_err("intermediate stage source symlink directory should be rejected")
    .render();
    assert!(rendered.contains("manual install source"), "{rendered}");
    assert!(rendered.contains("resolves outside its allowed root"), "{rendered}");
}

#[test]
fn sync_replaces_stale_owned_exports_and_unregister_cleans_store() {
    let previous = Some(ExportManifest {
        store_root: "/store/owned_demo".to_string(),
        paths: vec!["include/owned_demo/one.h".to_string()],
    });
    let current = vec!["include/owned_demo/two.h".to_string()];
    assert_eq!(
        reconcile_export_manifest(HostPlatform::Linux, &previous, "/store/owned_demo", &current),
        vec!["include/owned_demo/one.h".to_string()]
    );
    let none: Vec<String> = Vec::new();
    assert_eq!(
        reconcile_export_manifest(
            HostPlatform::Linux,
            &previous,
            "/store/owned_demo",
            &previous.clone().unwrap().paths,
        ),
        none
    );
    assert_eq!(reconcile_export_manifest(
        HostPlatform::Linux,
        &None,
        "/store/owned_demo",
        &current,
    ), none);
    assert_eq!(
        reconcile_export_manifest(
            HostPlatform::Linux,
            &previous,
            "/elsewhere",
            &previous.clone().unwrap().paths,
        ),
        vec!["include/owned_demo/one.h".to_string()]
    );

    let root = "/home/user/.depos";
    let store_root = "/home/user/.depos/store/v/owned_demo/release/1.0.0";
    let second_header = format!("{store_root}/include/owned_demo/two.h");
    let unrelated = format!("{root}/store/v/include/unrelated/keep.h");
    let record =
        export_manifest_path(HostPlatform::Linux, root, "owned_demo", "release", "1.0.0");
    let depofile = format!("{root}/depofiles/local/owned_demo/release/1.0.0/main.DepoFile");
    let mut files =
        vec![second_header.clone(), unrelated.clone(), record.clone(), depofile.clone()];
    let steps = unregister_depofile(
        HostPlatform::Linux,
        &UnregisterOptions {
            depos_root: root.to_string(),
            name: "owned_demo".to_string(),
            namespace: "release".to_string(),
            version: "1.0.0".to_string(),
        },
        &Some(ExportManifest { store_root: store_root.to_string(), paths: current }),
    );
    assert_eq!(
        steps[0],
        Cleanup {
            path: second_header,
            kind: CleanupKind::AsFound,
            stop_at: store_root.to_string(),
            prune_always: false,
        }
    );
    for step in &steps {
        let below = format!("{}/", step.path);
        files.retain(|file| {
            let inside = step.kind != CleanupKind::File && file.starts_with(&below);
            *file != step.path && !inside
        });
    }
    assert_eq!(files, vec![unrelated]);
    assert_eq!(record, format!("{root}/.run/exports/owned_demo/release/1.0.0.exports"));
}

#[test]
fn sync_rematerializes_when_the_depofile_changes() {
    let mut evidence = unchanged();
    assert!(decide_materialization(HostPlatform::Linux, &evidence).1);
    evidence.depofile_hash = "d2".to_string();
    assert!(!decide_materialization(HostPlatform::Linux, &evidence).1);
}

#[test]
fn sync_rematerializes_local_dependents_when_dependency_materialization_changes() {
    let mut evidence = unchanged();
    let (key, current) = decide_materialization(HostPlatform::Linux, &evidence);
    assert!(current);
    assert_eq!(
        report_up_to_date("/store/demo"),
        "materialization already up to date under /store/demo"
    );
    evidence.dependency_keys[0].1 = "k2".to_string();
    let (changed_key, current) = decide_materialization(HostPlatform::Linux, &evidence);
    assert!(!current);
    assert_ne!(key, changed_key);
}

#[test]
fn builds_are_repeated_where_sources_or_files_changed() {
    let mut evidence = unchanged();
    evidence.provenance.source_commit = Some("c2".to_string());
    assert!(!decide_materialization(HostPlatform::Linux, &evidence).1);
    let mut evidence = unchanged();
    evidence.exports_present = false;
    assert!(!decide_materialization(HostPlatform::Linux, &evidence).1);
    let mut evidence = unchanged();
    evidence.canonical_store_root = "/elsewhere".to_string();
    assert!(!decide_materialization(HostPlatform::Linux, &evidence).1);
    let mut evidence = unchanged();
    evidence.previous_exports = None;
    assert!(!decide_materialization(HostPlatform::Linux, &evidence).1);
}

#[test]
fn sync_skips_up_to_date_exact_commit_local_package_without_refetching() {
    let commit = "0123456789abcdef0123456789abcdef01234567";
    let source = GitSource {
        platform: HostPlatform::Linux,
        url: "/upstreams/exact_demo".to_string(),
        reference: commit.to_string(),
        submodules_recursive: false,
        source_root: "/downloads/src".to_string(),
    };
    let turn = begin_git_source(&source, true, true);
    let turn = continue_git_source(
        &source,
        &turn.stage,
        &GitReply { output: Some("/upstreams/exact_demo".to_string()), success: true },
    )
    .expect("the remote should match");
    let turn = continue_git_source(
        &source,
        &turn.stage,
        &GitReply { output: Some(format!("{commit}\n")), success: true },
    )
    .expect("the commit should be there");
    assert_eq!(turn.action, GitAction::Finish(commit.to_string()));
    assert!(turn.note.contains("reuse exact git commit"), "{}", turn.note);
}

#[test]
fn sync_allows_overlapping_export_paths_in_isolated_package_roots() {
    let spec = parse_registered_depofile(
        HostPlatform::Linux,
        "main.DepoFile",
        "NAME conflict_contender\nVERSION 1.0.0\nTARGET conflict_contender::conflict_contender INTERFACE include\nSOURCE GIT /upstreams/conflict_contender HEAD\n",
        host_arch(),
        "conflict_contender",
        "release",
        "1.0.0",
    )
    .expect("the DepoFile should parse");
    let planned = vec!["include/conflict/demo.h".to_string()];
    let mut owner = OwnedExports {
        name: "conflict_owner".to_string(),
        namespace: "release".to_string(),
        version: "1.0.0".to_string(),
        manifest: ExportManifest {
            store_root: "/store/v/conflict_owner/release/1.0.0".to_string(),
            paths: planned.clone(),
        },
    };
    let store_root = "/store/v/conflict_contender/release/1.0.0";
    assert!(assert_no_export_conflicts(
        HostPlatform::Linux,
        &spec,
        store_root,
        &planned,
        &vec![owner.clone()],
    ).is_ok());

    owner.manifest.store_root = store_root.to_string();
    assert_eq!(
        assert_no_export_conflicts(HostPlatform::Linux, &spec, store_root, &planned, &vec![owner])
            .map_err(|error| error.render()),
        Err("package 'conflict_contender[release]@1.0.0' export 'include/conflict/demo.h' conflicts with 'conflict_owner[release]@1.0.0' owning 'include/conflict/demo.h' under /store/v/conflict_contender/release/1.0.0".to_string())
    );
}

#[test]
fn export_paths_overlap_in_both_directions() {
    assert!(export_paths_overlap(HostPlatform::Linux, "include", "include/demo.h"));
    assert!(export_paths_overlap(HostPlatform::Linux, "include/demo.h", "include"));
    assert!(export_paths_overlap(HostPlatform::Linux, "include/demo.h", "include/./demo.h"));
    assert!(!export_paths_overlap(HostPlatform::Linux, "include/a.h", "include/b.h"));
    assert_eq!(
        find_export_path_conflict(
            HostPlatform::Linux,
            &vec!["lib/a".to_string(), "include".to_string()],
            &vec!["share".to_string(), "include/demo.h".to_string()],
        ),
        Some(("include".to_string(), "include/demo.h".to_string()))
    );
    assert_eq!(find_export_path_conflict(
        HostPlatform::Linux,
        &vec!["lib/a".to_string()],
        &vec!["lib/b".to_string()],
    ), None);
}

#[test]
fn declared_exports_are_artifacts_and_target_files() {
    let spec = spec_of(
        "NAME demo\nVERSION 1.0.0\nARTIFACT share/LICENSE\nTARGET demo::demo STATIC lib/libdemo.a SHARED lib/libdemo.so INTERFACE include\n",
    );
    assert_eq!(
        declared_exports(&spec),
        vec![
            ("share/LICENSE".to_string(), false),
            ("include".to_string(), true),
            ("lib/libdemo.a".to_string(), false),
            ("lib/libdemo.so".to_string(), false),
        ]
    );
}

#[test]
fn exports_are_taken_from_the_one_place_that_has_them() {
    let candidates = vec![candidate("source", "/src"), candidate("build", "/build")];
    assert_eq!(
        resolve_declared_export_source(
            HostPlatform::Linux,
            &candidates,
            "lib/a.a",
            false,
            &vec![None, found(EntryKind::File, "/build/lib/a.a", "/build")],
        ),
        Ok(ResolvedExportSource {
            root: "/build".to_string(),
            relative_path: "lib/a.a".to_string(),
            allow_directory: false,
        })
    );
    let refused = |entry: Option<FoundEntry>| {
        resolve_declared_export_source(
            HostPlatform::Linux,
            &candidates,
            "lib/a.a",
            false,
            &vec![entry, None],
        )
            .expect_err("the export should be refused")
            .render()
    };
    assert_eq!(
        refused(None),
        "declared export 'lib/a.a' is missing from all candidate outputs (source=/src, build=/build)"
    );
    assert_eq!(
        refused(found(EntryKind::Directory, "/src/lib/a.a", "/src")),
        "declared file export 'lib/a.a' resolved to directory '/src/lib/a.a' in source output"
    );
    assert_eq!(
        refused(found(EntryKind::Other, "/src/lib/a.a", "/src")),
        "declared export 'lib/a.a' resolved to unsupported file type '/src/lib/a.a' in source output"
    );
}

#[test]
fn exported_directories_list_their_files() {
    let listing = vec![
        ("a.h".to_string(), EntryKind::File),
        ("sub".to_string(), EntryKind::Directory),
        ("sub/b.h".to_string(), EntryKind::Symlink),
        ("pipe".to_string(), EntryKind::Other),
    ];
    assert_eq!(
        collect_export_paths(
            HostPlatform::Linux,
            "/src",
            "include",
            true,
            EntryKind::Directory,
            &listing,
        ),
        Ok(vec!["include/a.h".to_string(), "include/sub/b.h".to_string()])
    );
    assert_eq!(
        collect_export_paths(
            HostPlatform::Linux,
            "/src",
            "include",
            false,
            EntryKind::Directory,
            &listing,
        )
            .map_err(|error| error.render()),
        Err("declared file export '/src/include' resolved to a directory".to_string())
    );
    assert_eq!(
        collect_export_paths(HostPlatform::Linux, "/src", "pipe", false, EntryKind::Other, &listing)
            .map_err(|error| error.render()),
        Err("declared export 'pipe' is not a regular file, directory, or symlink under '/src'".to_string())
    );
}

#[test]
fn copies_are_planned_and_described() {
    assert_eq!(
        plan_copy(
            HostPlatform::Linux,
            CopyPurpose::Install,
            &copy_source("/src", "dir", SourceKind::Directory),
            false,
        )
            .map_err(|error| error.render()),
        Err("manual install file source '/src/dir' resolved to a directory".to_string())
    );
    assert_eq!(
        plan_copy(
            HostPlatform::Linux,
            CopyPurpose::Install,
            &copy_source("/src", "pipe", SourceKind::Other),
            true,
        )
            .map_err(|error| error.render()),
        Err("manual install source 'pipe' is not a regular file, directory, or symlink under '/src'".to_string())
    );
    assert_eq!(
        describe_copy(CopyPurpose::Export, CopyAction::File, "/a", "/b", ""),
        "copy file /a -> /b\n"
    );
    assert_eq!(
        describe_copy(CopyPurpose::Install, CopyAction::Tree, "/a", "/b", ""),
        "install dir /a -> /b\n"
    );
    assert_eq!(
        describe_copy(CopyPurpose::Install, CopyAction::Link, "/a", "/b", "c"),
        "copy symlink /a -> /b (c)\n"
    );
    assert_eq!(symlink_target_path(HostPlatform::Linux, "/src/lib/a.so", "a.so.1"), "/src/lib/a.so.1");
    assert!(validate_confined_symlink_target(
        HostPlatform::Linux,
        "/src/a",
        "/src",
        "b",
        "/src/b",
        "/src",
    ).is_ok());
}

#[test]
fn dependency_keys_are_sorted_and_need_a_state() {
    let zeta = parse_registered_depofile(
        HostPlatform::Linux,
        "main.DepoFile",
        "NAME zeta\nVERSION 1\nARTIFACT a\n",
        host_arch(),
        "zeta",
        "release",
        "1",
    )
    .expect("the DepoFile should parse");
    let alpha = parse_registered_depofile(
        HostPlatform::Linux,
        "main.DepoFile",
        "NAME alpha\nVERSION 1\nARTIFACT a\n",
        host_arch(),
        "alpha",
        "release",
        "1",
    )
    .expect("the DepoFile should parse");
    let dependencies = vec![zeta, alpha];
    assert_eq!(
        dependency_materialization_keys(
            &dependencies,
            &vec![Some("kz".to_string()), Some("ka".to_string())],
        ),
        Ok(vec![
            ("alpha[release]@1".to_string(), "ka".to_string()),
            ("zeta[release]@1".to_string(), "kz".to_string()),
        ])
    );
    assert_eq!(
        dependency_materialization_keys(&dependencies, &vec![None, Some("ka".to_string())])
            .map_err(|error| error.render()),
        Err("local dependency 'zeta[release]@1' is missing materialization state".to_string())
    );
}

#[test]
fn builds_end_green_or_failed() {
    let spec = spec_of("NAME demo\nVERSION 1.0.0\nARTIFACT demo.h\n");
    let result = conclude_materialization("/store/demo", true);
    assert_eq!(result, Ok("all declared exports are present under /store/demo".to_string()));
    let status = materialization_status(&spec, "/main.DepoFile", &no_provenance(), &result);
    assert_eq!(status.state, PackageState::Green);
    assert_eq!(status.message, "all declared exports are present under /store/demo");

    let result = conclude_materialization("/store/demo", false);
    let status = materialization_status(&spec, "/main.DepoFile", &no_provenance(), &result);
    assert_eq!(status.state, PackageState::Failed);
    assert!(status.message.contains("declared exports are still missing under /store/demo"));
}

#[test]
fn layers_report_their_first_failure() {
    let ids = vec!["a".to_string(), "b".to_string()];
    assert!(gather_layer_outcome(&ids, vec![WorkerOutcome::Done, WorkerOutcome::Done]).is_ok());
    let failed = Failure { messages: vec!["broken".to_string()] };
    let rendered = gather_layer_outcome(&ids, vec![WorkerOutcome::Done, WorkerOutcome::Failed(failed)])
        .expect_err("the layer should fail")
        .render();
    assert!(rendered.contains("broken"), "{rendered}");
    let rendered = gather_layer_outcome(&ids, vec![WorkerOutcome::Panicked, WorkerOutcome::Done])
        .expect_err("the layer should fail")
        .render();
    assert!(rendered.contains("panicked"), "{rendered}");
}
