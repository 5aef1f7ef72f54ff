//! Registering packages, resolving manifests and rendering the registry.

use depos::arch::default_variant;
use depos::catalog::{builtin_catalog, parse_registered_depofile};
use depos::environment::build_command_variables;
use depos::failure::Failure;
use depos::materialize::local_materialization_layers;
use depos::model::{PackageSpec, PackageState};
use depos::paths::HostPlatform;
use depos::pipeline::prepare_phase_arguments;
use depos::records::SourceProvenance;
use depos::registry::{
    plan_registry, required_paths_of_selected, sync_registry, RegistryFiles, RegistryPlan,
};
use depos::status::{
    collect_statuses, read_or_refresh_status, register_depofile, unregister_depofile,
    CleanupKind, PackageIdentity, RegisterOptions, StatusEvidence, StatusOptions,
    UnregisterOptions,
};

const RELEASE_NAMESPACE: &str = "release";
const ROOT: &str = "/home/user/.depos";

fn host_arch() -> &'static str {
    "x86_64"
}

fn foreign_arch() -> &'static str {
    "aarch64"
}

fn depofile_demo() -> String {
    "NAME demo\nVERSION 1.0.0\nSYSTEM_LIBS INHERIT\nTARGET demo::demo INTERFACE include\nSOURCE URL https://example.com/demo.tar.gz\nSHA256 0123456789abcdef0123456789abcdef0123456789abcdef0123456789abcdef\n".to_string()
}

fn local(name: &str, namespace: &str, version: &str, source: &str) -> PackageSpec {
    let path = format!("{ROOT}/depofiles/local/{name}/{namespace}/{version}/main.DepoFile");
    parse_registered_depofile(HostPlatform::Linux, &path, source, host_arch(), name, namespace, version)
        .expect("the DepoFile should parse")
}

fn catalog(locals: Vec<PackageSpec>) -> Vec<PackageSpec> {
    let mut catalog = builtin_catalog(HostPlatform::Linux, host_arch());
    catalog.extend(locals);
    catalog
}

fn plan(manifest: &str, catalog: &Vec<PackageSpec>) -> Result<RegistryPlan, Failure> {
    let path = format!("{ROOT}/manifests/example.cmake");
    plan_registry(HostPlatform::Linux, ROOT, &path, manifest, catalog, host_arch())
}

fn sync(manifest: &str, catalog: &Vec<PackageSpec>) -> Result<RegistryFiles, Failure> {
    let plan = plan(manifest, catalog)?;
    let mut provenances = Vec::new();
    for _ in 0..plan.selected.len() {
        provenances.push(SourceProvenance {
            source_ref: None,
            source_commit: None,
            source_digest: None,
        });
    }
    let path = format!("{ROOT}/manifests/example.cmake");
    let required =
        required_paths_of_selected(HostPlatform::Linux, ROOT, &plan.variant, &plan.selected);
    let present = vec![true; required.len()];
    sync_registry(HostPlatform::Linux, ROOT, &path, plan, &present, &provenances)
}

fn observed(registered_path: &str, spec_name: &str, namespace: &str, version: &str, source: &str, exports_present: bool) -> StatusEvidence {
    StatusEvidence::Observed {
        identity: PackageIdentity {
            name: spec_name.to_string(),
            namespace: namespace.to_string(),
            version: version.to_string(),
        },
        depofile: registered_path.to_string(),
        source: source.to_string(),
        exports_present,
        provenance_path: format!("{ROOT}/.run/provenance/{spec_name}/{namespace}/{version}.provenance"),
        provenance: String::new(),
    }
}

#[test]
fn sync_generates_registry_for_materialized_packages() {
    let files = sync(
        "depos_require(bitsery)\ndepos_require(itoa)\ndepos_require(zlib VERSION 1.3.2)\n",
        &catalog(Vec::new()),
    )
    .expect("sync should succeed");

    let targets = files.targets;
    assert!(targets.contains("add_library(bitsery::bitsery ALIAS _depos_bitsery_release_5_2_3_t0)"));
    assert!(targets.contains("add_library(itoa::itoa ALIAS _depos_itoa_release_main_t0)"));
    assert!(targets.contains("add_library(zlib::zlib ALIAS _depos_zlib_release_1_3_2_t0)"));
    assert!(targets.contains("/zlib/release/1.3.2/lib/libz.a"));

    let lock = files.lock;
    assert!(lock.contains("bitsery[release]@5.2.3|AUTO|LATEST|_|_"));
    assert!(lock.contains("itoa[release]@main|AUTO|LATEST|_|_"));
    assert!(lock.contains("zlib[release]@1.3.2|AUTO|EXACT|1.3.2|_"));
}

#[test]
fn sync_emits_interface_metadata_and_honors_primary_target() {
    let provider = local(
        "provider",
        RELEASE_NAMESPACE,
        "1.0.0",
        "NAME provider\nVERSION 1.0.0\nSOURCE GIT /repos/provider HEAD\nPRIMARY_TARGET provider::runtime\nTARGET provider::headers INTERFACE include\nDEFINES provider::headers PROVIDER_HEADER_ONLY=1 PAGE_SIZE=4096\nOPTIONS provider::headers -Winvalid-pch\nFEATURES provider::headers cxx_std_20\nTARGET provider::runtime STATIC lib/libprovider.a\n",
    );
    let consumer = local(
        "consumer",
        RELEASE_NAMESPACE,
        "1.0.0",
        "NAME consumer\nVERSION 1.0.0\nSOURCE GIT /repos/consumer HEAD\nDEPENDS provider VERSION 1.0.0\nTARGET consumer::consumer INTERFACE include\n",
    );
    let files = sync(
        "depos_require(consumer VERSION 1.0.0)\n",
        &catalog(vec![provider, consumer]),
    )
    .expect("sync should succeed");

    let targets = files.targets;
    assert!(
        targets.contains("INTERFACE_COMPILE_DEFINITIONS \"PROVIDER_HEADER_ONLY=1;PAGE_SIZE=4096\"")
    );
    assert!(targets.contains("INTERFACE_COMPILE_OPTIONS \"-Winvalid-pch\""));
    assert!(targets.contains("INTERFACE_COMPILE_FEATURES \"cxx_std_20\""));
    assert!(targets.contains("INTERFACE_LINK_LIBRARIES \"_depos_provider_release_1_0_0_t1\""));
    assert!(!targets.contains("INTERFACE_LINK_LIBRARIES \"_depos_provider_release_1_0_0_t0\"\n"));
}

#[test]
fn register_refreshes_green_status_and_unregister_cleans_up() {
    let variant = default_variant(host_arch());
    let source = depofile_demo();
    let registration = register_depofile(
        HostPlatform::Linux,
        &RegisterOptions {
            depos_root: ROOT.to_string(),
            file: format!("{ROOT}/tmp/demo.DepoFile"),
            namespace: RELEASE_NAMESPACE.to_string(),
        },
        &source,
        host_arch(),
    )
    .expect("register should succeed");
    assert_eq!(
        registration.registered_path,
        format!("{ROOT}/depofiles/local/demo/release/1.0.0/main.DepoFile")
    );

    let evidence = observed(
        &registration.registered_path,
        "demo",
        RELEASE_NAMESPACE,
        "1.0.0",
        &source,
        true,
    );
    let status = read_or_refresh_status(HostPlatform::Linux, ROOT, host_arch(), &catalog(Vec::new()), &evidence)
        .expect("register should succeed");
    assert_eq!(status.state, PackageState::Green);

    let statuses = collect_statuses(
        HostPlatform::Linux,
        &StatusOptions {
            depos_root: ROOT.to_string(),
            name: Some("demo".to_string()),
            namespace: None,
            version: Some("1.0.0".to_string()),
            refresh: false,
        },
        host_arch(),
        &catalog(Vec::new()),
        &vec![evidence],
    )
    .expect("status should succeed");
    assert_eq!(statuses.len(), 1);
    assert_eq!(statuses[0].state, PackageState::Green);
    assert!(statuses[0].message.contains(&format!("store/{variant}")));

    let options = UnregisterOptions {
        depos_root: ROOT.to_string(),
        name: "demo".to_string(),
        namespace: RELEASE_NAMESPACE.to_string(),
        version: "1.0.0".to_string(),
    };
    let steps = unregister_depofile(HostPlatform::Linux, &options, &None);
    assert!(steps.iter().any(|step| step.kind == CleanupKind::Directory
        && registration.registered_path == format!("{}/main.DepoFile", step.path)));
}

#[test]
fn register_assigns_namespace_from_registry_options() {
    let source = depofile_demo();
    let registration = register_depofile(
        HostPlatform::Linux,
        &RegisterOptions {
            depos_root: ROOT.to_string(),
            file: format!("{ROOT}/tmp/demo.DepoFile"),
            namespace: "dev-main".to_string(),
        },
        &source,
        host_arch(),
    )
    .expect("register with explicit namespace should succeed");
    assert_eq!(
        registration.registered_path,
        format!("{ROOT}/depofiles/local/demo/dev-main/1.0.0/main.DepoFile")
    );

    let evidence = observed(&registration.registered_path, "demo", "dev-main", "1.0.0", &source, true);
    let status = read_or_refresh_status(HostPlatform::Linux, ROOT, host_arch(), &catalog(Vec::new()), &evidence)
        .expect("register with explicit namespace should succeed");
    assert_eq!(status.namespace, "dev-main");
    assert_eq!(status.state, PackageState::Green);
}

#[test]
fn register_quarantines_missing_dependency() {
    let source = "NAME app\nVERSION 1.0.0\nTARGET app::app INTERFACE include\nDEPENDS missing VERSION 1.2.3\n";
    let registration = register_depofile(
        HostPlatform::Linux,
        &RegisterOptions {
            depos_root: ROOT.to_string(),
            file: format!("{ROOT}/tmp/app.DepoFile"),
            namespace: RELEASE_NAMESPACE.to_string(),
        },
        source,
        host_arch(),
    )
    .expect("register should succeed");
    let evidence = observed(
        &registration.registered_path,
        "app",
        RELEASE_NAMESPACE,
        "1.0.0",
        source,
        false,
    );
    let app = local("app", RELEASE_NAMESPACE, "1.0.0", source);
    let status = read_or_refresh_status(HostPlatform::Linux, ROOT, host_arch(), &catalog(vec![app]), &evidence)
        .expect("register should succeed");
    assert_eq!(status.state, PackageState::Quarantined);
    assert!(status.message.contains("missing"));
}

#[test]
fn sync_emits_target_specific_link_libraries() {
    let link_demo = local(
        "link_demo",
        RELEASE_NAMESPACE,
        "1.0.0",
        "NAME link_demo\nVERSION 1.0.0\nSYSTEM_LIBS NEVER\nTARGET link_demo::aggregate INTERFACE include\nTARGET link_demo::core STATIC lib/liblink_demo.a\nLINK link_demo::aggregate link_demo::core::static m pthread\nSOURCE GIT /upstreams/link_demo HEAD\nBUILD_SYSTEM MANUAL\nMANUAL_INSTALL_SH <<'EOF'\nmkdir -p \"${DEPO_PREFIX}/include/link_demo\" \"${DEPO_PREFIX}/lib\" && cp \"${DEPO_SOURCE_DIR}/payload/demo.h\" \"${DEPO_PREFIX}/include/link_demo/demo.h\" && cp \"${DEPO_SOURCE_DIR}/payload/liblink_demo.a\" \"${DEPO_PREFIX}/lib/liblink_demo.a\"\nEOF\n",
    );
    let files = sync(
        "depos_require(link_demo VERSION 1.0.0)\n",
        &catalog(vec![link_demo]),
    )
    .expect("sync should emit target-specific links");

    let targets = files.targets;
    assert!(targets
        .contains("add_library(link_demo::aggregate ALIAS _depos_link_demo_release_1_0_0_t0)"));
    assert!(targets.contains(
        "add_library(link_demo::aggregate::interface ALIAS _depos_link_demo_release_1_0_0_t0__interface)"
    ));
    assert!(
        targets.contains("add_library(link_demo::core ALIAS _depos_link_demo_release_1_0_0_t1)")
    );
    assert!(targets.contains(
        "add_library(link_demo::core::static ALIAS _depos_link_demo_release_1_0_0_t1__static)"
    ));
    assert!(targets.contains(
        "add_library(link_demo::core::interface ALIAS _depos_link_demo_release_1_0_0_t1__interface)"
    ));
    assert!(targets.contains("INTERFACE_INCLUDE_DIRECTORIES"));
    assert!(targets.contains("/link_demo/release/1.0.0/include"));
    assert!(targets.contains(
        "INTERFACE_LINK_LIBRARIES \"_depos_link_demo_release_1_0_0_t1__static;m;pthread\""
    ));
    assert!(targets
        .contains("INTERFACE_LINK_LIBRARIES \"_depos_link_demo_release_1_0_0_t1__interface\""));
    assert_eq!(
        targets.matches("INTERFACE_INCLUDE_DIRECTORIES").count(),
        1,
        "{targets}"
    );
}

#[test]
fn sync_emits_generated_aliases_for_multi_role_target() {
    let multi_role_demo = local(
        "multi_role_demo",
        RELEASE_NAMESPACE,
        "1.0.0",
        "NAME multi_role_demo\nVERSION 1.0.0\nSYSTEM_LIBS NEVER\nSOURCE GIT /upstreams/multi_role_demo HEAD\nTARGET multi_role_demo::multi_role_demo STATIC lib/libmulti_role_demo.a SHARED lib/libmulti_role_demo.so INTERFACE include\n",
    );
    let files = sync(
        "depos_require(multi_role_demo VERSION 1.0.0)\n",
        &catalog(vec![multi_role_demo]),
    )
    .expect("sync should emit generated multi-role aliases");

    let targets = files.targets;
    assert!(targets.contains(
        "add_library(multi_role_demo::multi_role_demo ALIAS _depos_multi_role_demo_release_1_0_0_t0)"
    ));
    assert!(targets.contains(
        "add_library(multi_role_demo::multi_role_demo::interface ALIAS _depos_multi_role_demo_release_1_0_0_t0__interface)"
    ));
    assert!(targets.contains(
        "add_library(multi_role_demo::multi_role_demo::static ALIAS _depos_multi_role_demo_release_1_0_0_t0__static)"
    ));
    assert!(targets.contains(
        "add_library(multi_role_demo::multi_role_demo::shared ALIAS _depos_multi_role_demo_release_1_0_0_t0__shared)"
    ));
    assert!(targets.contains(
        "INTERFACE_LINK_LIBRARIES \"_depos_multi_role_demo_release_1_0_0_t0__interface\""
    ));
}

#[test]
fn sync_materializes_local_packages_in_dependency_order() {
    let base = local(
        "base",
        RELEASE_NAMESPACE,
        "1.0.0",
        "NAME base\nVERSION 1.0.0\nSYSTEM_LIBS NEVER\nTARGET base::base INTERFACE include\nSOURCE GIT /upstreams/base_dep HEAD\nBUILD_SYSTEM MANUAL\nMANUAL_INSTALL_SH <<'EOF'\nmkdir -p \"${DEPO_PREFIX}/include/base\" && cp \"${DEPO_SOURCE_DIR}/payload/base.h\" \"${DEPO_PREFIX}/include/base/base.h\"\nEOF\n",
    );
    let dependent = local(
        "dependent",
        RELEASE_NAMESPACE,
        "1.0.0",
        "NAME dependent\nVERSION 1.0.0\nSYSTEM_LIBS NEVER\nDEPENDS base VERSION 1.0.0\nTARGET dependent::dependent INTERFACE include\nSOURCE GIT /upstreams/dependent_dep HEAD\nBUILD_SYSTEM MANUAL\nMANUAL_INSTALL_SH <<'EOF'\ntest -f \"$DEPO_DEP_BASE_RELEASE_ROOT/include/base/base.h\" && mkdir -p \"${DEPO_PREFIX}/include/dependent\" && cp \"${DEPO_SOURCE_DIR}/payload/dependent.h\" \"${DEPO_PREFIX}/include/dependent/dependent.h\"\nEOF\n",
    );
    let catalog = catalog(vec![dependent, base]);
    let plan = plan("depos_require(dependent VERSION 1.0.0)\n", &catalog)
        .expect("sync should materialize local dependencies before dependents");

    assert!(plan
        .selected
        .iter()
        .any(|package| package.spec.package_id() == "base[release]@1.0.0"));
    assert!(plan
        .selected
        .iter()
        .any(|package| package.spec.package_id() == "dependent[release]@1.0.0"));
    let layers = local_materialization_layers(&catalog, &plan.selected)
        .expect("the layers should be found");
    assert_eq!(layers.len(), 2);
    assert_eq!(layers[0].len(), 1);
    assert_eq!(layers[0][0].spec.package_id(), "base[release]@1.0.0");
    assert_eq!(layers[1].len(), 1);
    assert_eq!(layers[1][0].spec.package_id(), "dependent[release]@1.0.0");
}

#[test]
fn sync_materializes_dependencies_before_dependents() {
    let provider = local(
        "zzz_provider",
        RELEASE_NAMESPACE,
        "1.0.0",
        "NAME zzz_provider\nVERSION 1.0.0\nSYSTEM_LIBS NEVER\nTARGET zzz_provider::zzz_provider INTERFACE include\nSOURCE GIT /upstreams/zzz_provider HEAD\nBUILD_SYSTEM MANUAL\nMANUAL_INSTALL_SH <<'EOF'\nmkdir -p \"${DEPO_PREFIX}/include/zzz_provider\" && cp \"${DEPO_SOURCE_DIR}/payload/provider.h\" \"${DEPO_PREFIX}/include/zzz_provider/provider.h\"\nEOF\n",
    );
    let consumer = local(
        "aaa_consumer",
        RELEASE_NAMESPACE,
        "1.0.0",
        "NAME aaa_consumer\nVERSION 1.0.0\nSYSTEM_LIBS NEVER\nDEPENDS zzz_provider VERSION 1.0.0\nTARGET aaa_consumer::aaa_consumer INTERFACE include\nSOURCE GIT /upstreams/aaa_consumer HEAD\nBUILD_SYSTEM MANUAL\nMANUAL_INSTALL_SH <<'EOF'\ntest -f \"$DEPO_DEP_ZZZ_PROVIDER_RELEASE_ROOT/include/zzz_provider/provider.h\" && mkdir -p \"${DEPO_PREFIX}/include/aaa_consumer\" && cp \"${DEPO_SOURCE_DIR}/payload/consumer.h\" \"${DEPO_PREFIX}/include/aaa_consumer/consumer.h\"\nEOF\n",
    );
    let catalog = catalog(vec![consumer, provider]);
    let plan = plan("depos_require(aaa_consumer VERSION 1.0.0)\n", &catalog)
        .expect("sync should materialize dependency packages before dependents");
    assert_eq!(plan.selected[0].spec.name, "zzz_provider");
    assert_eq!(plan.selected[1].spec.name, "aaa_consumer");
    let layers = local_materialization_layers(&catalog, &plan.selected)
        .expect("the layers should be found");
    assert_eq!(layers[0][0].spec.name, "zzz_provider");
    assert_eq!(layers[1][0].spec.name, "aaa_consumer");
}

#[test]
fn sync_inherits_dependency_namespace_and_interpolates_dep_roots() {
    let base = local(
        "base",
        "dev-main",
        "1.0.0",
        "NAME base\nVERSION 1.0.0\nSOURCE GIT /upstreams/base_dev HEAD\nTARGET base::base INTERFACE include\n",
    );
    let dependent = local(
        "dependent",
        "dev-main",
        "1.0.0",
        "NAME dependent\nVERSION 1.0.0\nDEPENDS base VERSION 1.0.0\nSOURCE GIT /upstreams/dependent_dev HEAD\nBUILD_SYSTEM MANUAL\nMANUAL_BUILD /usr/bin/test -f ${dep:base}/include/base/base.h\nTARGET dependent::dependent INTERFACE include\n",
    );
    let plan = plan(
        "depos_require(dependent NAMESPACE dev-main VERSION 1.0.0)\n",
        &catalog(vec![base, dependent]),
    )
    .expect("sync should inherit dependency namespace and interpolate dep roots");
    assert_eq!(plan.selected.len(), 2);
    assert_eq!(plan.selected[0].spec.package_id(), "base[dev-main]@1.0.0");
    assert_eq!(plan.selected[1].spec.package_id(), "dependent[dev-main]@1.0.0");

    let dependent = &plan.selected[1].spec;
    let variables = build_command_variables(dependent, &vec![plan.selected[0].spec.clone()])
        .expect("the variables should be found");
    let argv = prepare_phase_arguments("build", &dependent.build[0], &variables, 4)
        .expect("the command should be expanded");
    assert_eq!(
        argv,
        vec![
            "/usr/bin/test".to_string(),
            "-f".to_string(),
            "/depos/base/dev-main/1.0.0/include/base/base.h".to_string(),
        ]
    );
}

#[test]
fn sync_rejects_parallel_namespaces_without_alias_when_public_targets_collide() {
    let release = local(
        "twin",
        RELEASE_NAMESPACE,
        "1.0.0",
        "NAME twin\nVERSION 1.0.0\nTARGET twin::core INTERFACE include\nSOURCE GIT /upstreams/twin_release HEAD\n",
    );
    let dev = local(
        "twin",
        "dev-main",
        "git.dev",
        "NAME twin\nVERSION git.dev\nTARGET twin::core INTERFACE include\nSOURCE GIT /upstreams/twin_dev HEAD\n",
    );
    let error = sync(
        "depos_require(twin VERSION 1.0.0)\ndepos_require(twin NAMESPACE dev-main VERSION git.dev)\n",
        &catalog(vec![release, dev]),
    )
    .expect_err("parallel namespaces with the same public targets should require aliasing");
    let error_text = error.render();
    assert!(error_text.contains("public target 'twin::core'"));
    assert!(error_text.contains("twin[release]@1.0.0"));
    assert!(error_text.contains("twin[dev-main]@git.dev"));
}

#[test]
fn sync_supports_parallel_namespaces_with_manifest_aliasing() {
    let release = local(
        "twin",
        RELEASE_NAMESPACE,
        "1.0.0",
        "NAME twin\nVERSION 1.0.0\nTARGET twin::core INTERFACE include\nSOURCE GIT /upstreams/twin_release_alias HEAD\n",
    );
    let dev = local(
        "twin",
        "dev-main",
        "git.dev",
        "NAME twin\nVERSION git.dev\nTARGET twin::core INTERFACE include\nSOURCE GIT /upstreams/twin_dev_alias HEAD\n",
    );
    let files = sync(
        "depos_require(twin VERSION 1.0.0)\ndepos_require(twin NAMESPACE dev-main VERSION git.dev AS twin_dev)\n",
        &catalog(vec![release, dev]),
    )
    .expect("parallel namespaces should succeed when the dev namespace is aliased");

    let targets = files.targets;
    assert!(targets.contains("add_library(twin::core ALIAS _depos_twin_release_1_0_0_t0)"));
    assert!(targets.contains("add_library(twin_dev::core ALIAS _depos_twin_dev_main_git_dev_t0)"));

    let lock = files.lock;
    assert!(lock.contains("twin[release]@1.0.0|AUTO|EXACT|1.0.0|_"));
    assert!(lock.contains("twin[dev-main]@git.dev|AUTO|EXACT|git.dev|twin_dev"));
}

#[test]
fn sync_rejects_manifest_with_multiple_target_arches() {
    let host_mix_demo = local(
        "host_mix_demo",
        RELEASE_NAMESPACE,
        "1.0.0",
        "NAME host_mix_demo\nVERSION 1.0.0\nTARGET host_mix_demo::host_mix_demo INTERFACE include\nSOURCE GIT /upstreams/host_mix_demo HEAD\n",
    );
    let foreign_mix_demo = local(
        "foreign_mix_demo",
        RELEASE_NAMESPACE,
        "1.0.0",
        &format!(
            "NAME foreign_mix_demo\nVERSION 1.0.0\nBUILD_ARCH {}\nTARGET_ARCH {}\nTARGET foreign_mix_demo::foreign_mix_demo INTERFACE include\nSOURCE GIT /upstreams/foreign_mix_demo HEAD\n",
            host_arch(),
            foreign_arch(),
        ),
    );
    let error = plan(
        "depos_require(host_mix_demo VERSION 1.0.0)\ndepos_require(foreign_mix_demo VERSION 1.0.0)\n",
        &catalog(vec![host_mix_demo, foreign_mix_demo]),
    )
    .expect_err("mixed target architectures should be rejected");
    let error_text = error.render();
    assert!(
        error_text.contains("multiple TARGET_ARCH values"),
        "{error_text}"
    );
}
