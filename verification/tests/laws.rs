//! What holds of the library as a whole, on chosen values.

use depos::catalog::parse_registered_depofile;
use depos::manifest::parse_manifest;
use depos::materialize::local_materialization_layers;
use depos::paths::HostPlatform;
use depos::model::{PackageRequest, PackageSpec, RequestMode};
use depos::records::SourceProvenance;
use depos::registry::{
    plan_registry, registry_dir_from_manifest, required_paths_of_selected, sync_registry,
    validate_materialized_packages,
};
use depos::resolve::{resolve_requests, topologically_order_resolved};
use depos::targets::{collect_bindings, ensure_public_target_collisions};
use depos::text::Order;
use depos::version::{compare_versions, select_package};

fn package(name: &str, namespace: &str, version: &str, lines: &str) -> PackageSpec {
    parse_registered_depofile(
        HostPlatform::Linux,
        "main.DepoFile",
        &format!("NAME {name}\nVERSION {version}\n{lines}TARGET {name}::{name} INTERFACE include\n"),
        "x86_64",
        name,
        namespace,
        version,
    )
    .expect("the DepoFile should parse")
}

fn requests(manifest: &str) -> Vec<PackageRequest> {
    parse_manifest("manifest.cmake", manifest).expect("the manifest should parse")
}

fn diamond() -> Vec<PackageSpec> {
    vec![
        package("app", "release", "1.0", "DEPENDS left\nDEPENDS right\n"),
        package("right", "release", "1.0", "DEPENDS base MIN_VERSION 1.5\n"),
        package("left", "release", "1.0", "DEPENDS base\n"),
        package("base", "release", "1.0", ""),
        package("base", "release", "2.0", ""),
    ]
}

#[test]
fn dependencies_come_before_those_that_need_them() {
    let resolved = resolve_requests(&diamond(), &requests("depos_require(app)\n"))
        .expect("the request should be resolved");
    let names: Vec<String> =
        resolved.iter().map(|package| package.spec.package_id()).collect();
    let at = |id: &str| names.iter().position(|name| name == id).expect("selected");
    assert_eq!(names.len(), 4);
    assert!(at("base[release]@2.0") < at("left[release]@1.0"));
    assert!(at("base[release]@2.0") < at("right[release]@1.0"));
    assert!(at("left[release]@1.0") < at("app[release]@1.0"));
    let ordered = topologically_order_resolved(&resolved).expect("there is no cycle");
    assert_eq!(ordered.len(), resolved.len());
}

#[test]
fn cycles_are_refused() {
    let catalog = vec![
        package("a", "release", "1.0", "DEPENDS b\n"),
        package("b", "release", "1.0", "DEPENDS a\n"),
    ];
    let rendered = resolve_requests(&catalog, &requests("depos_require(a)\n"))
        .expect_err("the cycle should be found")
        .render();
    assert!(rendered.contains("cycle"), "{rendered}");
}

#[test]
fn missing_and_unfit_packages_are_refused() {
    assert!(resolve_requests(&diamond(), &requests("depos_require(nope)\n")).is_err());
    assert!(resolve_requests(&diamond(), &requests("depos_require(base VERSION 3.0)\n")).is_err());
    assert!(resolve_requests(
        &diamond(),
        &requests("depos_require(base VERSION 1.0)\ndepos_require(base VERSION 2.0)\n"),
    )
    .is_err());
}

#[test]
fn the_greatest_acceptable_version_is_selected() {
    let candidates = vec![
        package("base", "release", "1.9", ""),
        package("base", "release", "1.10", ""),
        package("base", "release", "1.2", ""),
    ];
    let version = |mode: &RequestMode| {
        select_package(&candidates, mode).map(|spec| spec.version).map_err(|error| error.render())
    };
    assert_eq!(version(&RequestMode::Latest), Ok("1.10".to_string()));
    assert_eq!(version(&RequestMode::Exact("1.2".to_string())), Ok("1.2".to_string()));
    assert_eq!(version(&RequestMode::Minimum("1.3".to_string())), Ok("1.10".to_string()));
    assert!(version(&RequestMode::Minimum("2".to_string())).is_err());
    for (left, right) in [("1.2", "1.10"), ("a", "1"), ("1.0", "1.0"), ("1", "1.0")] {
        let reversed = match compare_versions(right, left) {
            Order::Less => Order::Greater,
            Order::Equal => Order::Equal,
            Order::Greater => Order::Less,
        };
        assert_eq!(compare_versions(left, right), reversed);
        assert_eq!(compare_versions(left, left), Order::Equal);
    }
}

#[test]
fn layers_hold_each_local_package_once_behind_its_dependencies() {
    let catalog = diamond();
    let resolved = resolve_requests(&catalog, &requests("depos_require(app)\n"))
        .expect("the request should be resolved");
    let layers = local_materialization_layers(&catalog, &resolved).expect("layers");
    let names: Vec<Vec<String>> = layers
        .iter()
        .map(|layer| layer.iter().map(|package| package.spec.name.clone()).collect())
        .collect();
    assert_eq!(
        names,
        vec![
            vec!["base".to_string()],
            vec!["left".to_string(), "right".to_string()],
            vec!["app".to_string()],
        ]
    );
}

#[test]
fn public_names_of_accepted_selections_are_distinct() {
    let resolved = resolve_requests(&diamond(), &requests("depos_require(app)\n"))
        .expect("the request should be resolved");
    assert!(ensure_public_target_collisions(&resolved).is_ok());
    let mut names: Vec<String> =
        collect_bindings(&resolved).into_iter().map(|binding| binding.0).collect();
    let count = names.len();
    names.sort();
    names.dedup();
    assert_eq!(names.len(), count);
}

#[test]
fn registries_of_equal_manifests_stand_at_one_place() {
    let catalog = diamond();
    let dir = |manifest: &str, source: &str| {
        registry_dir_from_manifest(
            HostPlatform::Linux,
            "/depos",
            manifest,
            source,
            &catalog,
            "x86_64",
        )
            .expect("the registry should be planned")
    };
    let first = dir("/a.cmake", "depos_require(app)\n");
    assert_eq!(first, dir("/b.cmake", "depos_require(app)\n"));
    assert_ne!(first, dir("/a.cmake", "depos_require(left)\n"));
    assert!(first.starts_with("/depos/registry/x86_64-x86_64_v1/"), "{first}");
}

#[test]
fn selections_without_their_files_are_refused() {
    let catalog = diamond();
    let plan = plan_registry(
        HostPlatform::Linux,
        "/depos",
        "/m.cmake",
        "depos_require(left)\n",
        &catalog,
        "x86_64",
    )
        .expect("the registry should be planned");
    let required = required_paths_of_selected(
        HostPlatform::Linux,
        "/depos",
        &plan.variant,
        &plan.selected,
    );
    assert_eq!(required.len(), 2);
    assert_eq!(required[0].package_id, "base[release]@2.0");
    assert_eq!(required[0].relative_path, "include");
    assert!(validate_materialized_packages(&required, &vec![true, true]).is_ok());
    let rendered = validate_materialized_packages(&required, &vec![true, false])
        .expect_err("the file is missing")
        .render();
    assert!(rendered.contains("left[release]@1.0"), "{rendered}");
}

#[test]
fn the_last_of_equal_candidates_is_selected() {
    let candidates = vec![
        package("base", "release", "1.2.0", "LAZY\n"),
        package("base", "release", "1.10.0", "LAZY\n"),
        package("base", "release", "1.10.0", ""),
        package("base", "release", "1.9.9", "LAZY\n"),
    ];
    let spec = select_package(&candidates, &RequestMode::Latest).expect("there are candidates");
    assert_eq!(spec.version, "1.10.0");
    assert!(!spec.lazy);
}

#[test]
fn aliases_are_those_of_all_requests_in_order() {
    let resolved = resolve_requests(
        &diamond(),
        &requests(
            "depos_require(base AS zeta)\ndepos_require(left)\ndepos_require(base AS alpha)\ndepos_require(base AS zeta)\n",
        ),
    )
    .expect("the requests should be resolved");
    let base = resolved
        .iter()
        .find(|package| package.spec.name == "base")
        .expect("base is asked for");
    assert_eq!(base.aliases, vec!["alpha".to_string(), "zeta".to_string()]);
    assert!(base.expose_default);
    let left = resolved
        .iter()
        .find(|package| package.spec.name == "left")
        .expect("left is asked for");
    assert!(left.expose_default);
    assert!(left.aliases.is_empty());
    assert!(!resolved.iter().any(|package| package.spec.name == "right"));
}

#[test]
fn registries_are_refused_where_files_are_missing() {
    let plan = plan_registry(
        HostPlatform::Linux,
        "/depos",
        "/m.cmake",
        "depos_require(base VERSION 1.0)\n",
        &diamond(),
        "x86_64",
    )
    .expect("the manifest should be planned");
    let provenances = vec![SourceProvenance {
        source_ref: None,
        source_commit: None,
        source_digest: None,
    }];
    let rendered = sync_registry(
        HostPlatform::Linux,
        "/depos",
        "/m.cmake",
        plan,
        &vec![false],
        &provenances,
    )
    .expect_err("the include directory is missing")
    .render();
    assert!(rendered.contains("required path 'include' is missing"), "{rendered}");
}
