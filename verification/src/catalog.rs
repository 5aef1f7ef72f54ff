//! The packages that can be selected: the built-in ones, those registered by hand and those
//! found in the sources of others.

use vstd::prelude::*;
use crate::arch;
use crate::depofile;
use crate::depofile::parse_depofile;
use crate::failure::{failure, outcome, within, Failure, Messages};
use crate::model::{
    BuildRoot, BuildRootView, BuildSystem, PackageOrigin, PackageRequest,
    PackageRequestView, PackageSpec, PackageSpecView, PackageSystemLibs, StageEntryView,
    TargetSpec, TargetSpecView, Text, ToolchainSource, DEFAULT_NAMESPACE,
};
use crate::names;
use crate::names::{ensure_namespace_name, ensure_package_name};
use crate::paths;
use crate::paths::{join_path, paths_equal, HostPlatform};
use crate::resolve;
use crate::resolve::candidates_for_key;
use crate::text;
use crate::text::{cat6, cat7, contains_text, put, same, Dup};
use crate::version;
use crate::version::select_package;

verus! {

/// The static library of the built-in zlib.
pub open spec fn zlib_library(platform: HostPlatform) -> Text {
    if platform == HostPlatform::Windows {
        "lib/zs.lib"@
    } else {
        "lib/libz.a"@
    }
}

pub fn builtin_zlib_static_library_path(platform: HostPlatform) -> (path: &'static str)
    ensures
        path@ == zlib_library(platform),
{
    if platform == HostPlatform::Windows {
        "lib/zs.lib"
    } else {
        "lib/libz.a"
    }
}

/// A built-in package: one target with headers under `include`, and a static library where it
/// has one.
pub open spec fn builtin(
    host: Text,
    name: Text,
    version: Text,
    target: Text,
    library: Option<Text>,
) -> PackageSpecView {
    PackageSpecView {
        name,
        namespace: DEFAULT_NAMESPACE@,
        version,
        primary_target_name: None,
        source_subdir: None,
        lazy: false,
        system_libs: PackageSystemLibs::Never,
        artifacts: Seq::empty(),
        targets: seq![
            TargetSpecView {
                interface_declared: true,
                include_dirs: seq!["include"@],
                static_path: library,
                ..TargetSpecView::named(target)
            },
        ],
        depends: Seq::empty(),
        fetch: None,
        git_submodules_recursive: false,
        configure: Seq::empty(),
        build: Seq::empty(),
        install: Seq::empty(),
        stage_entries: Seq::empty(),
        build_root: BuildRootView::System,
        toolchain: ToolchainSource::System,
        toolchain_inputs: Seq::empty(),
        build_arch: host,
        target_arch: host,
        build_system: BuildSystem::Manual,
        origin: PackageOrigin::Builtin,
    }
}

fn builtin_package(
    host: &str,
    name: &str,
    version: &str,
    target: &str,
    library: Option<String>,
) -> (spec: PackageSpec)
    ensures
        spec.deep_view() == builtin(host@, name@, version@, target@, library.deep_view()),
{
    let mut target = TargetSpec::new(target.to_owned());
    target.interface_declared = true;
    put(&mut target.include_dirs, "include".to_owned());
    assert(target.include_dirs.deep_view() == seq!["include"@]);
    target.static_path = library;
    let spec = PackageSpec {
        name: name.to_owned(),
        namespace: DEFAULT_NAMESPACE.to_owned(),
        version: version.to_owned(),
        primary_target_name: None,
        source_subdir: None,
        lazy: false,
        system_libs: PackageSystemLibs::Never,
        artifacts: Vec::new(),
        targets: vec![target],
        depends: Vec::new(),
        fetch: None,
        git_submodules_recursive: false,
        configure: Vec::new(),
        build: Vec::new(),
        install: Vec::new(),
        stage_entries: Vec::new(),
        build_root: BuildRoot::System,
        toolchain: ToolchainSource::System,
        toolchain_inputs: Vec::new(),
        build_arch: host.to_owned(),
        target_arch: host.to_owned(),
        build_system: BuildSystem::Manual,
        origin: PackageOrigin::Builtin,
    };
    assert(spec.artifacts.deep_view() == Seq::<Text>::empty());
    assert(spec.targets.deep_view() == seq![target.deep_view()]);
    assert(spec.depends.deep_view() == Seq::<PackageRequestView>::empty());
    assert(spec.configure.deep_view() == Seq::<Seq<Text>>::empty());
    assert(spec.build.deep_view() == Seq::<Seq<Text>>::empty());
    assert(spec.install.deep_view() == Seq::<Seq<Text>>::empty());
    assert(spec.stage_entries.deep_view() == Seq::<StageEntryView>::empty());
    assert(spec.toolchain_inputs.deep_view() == Seq::<Text>::empty());
    spec
}

/// The built-in packages.
pub open spec fn builtins(platform: HostPlatform, host: Text) -> Seq<PackageSpecView> {
    seq![
        builtin(host, "bitsery"@, "5.2.3"@, "bitsery::bitsery"@, None),
        builtin(host, "itoa"@, "main"@, "itoa::itoa"@, None),
        builtin(host, "zlib"@, "1.3.2"@, "zlib::zlib"@, Some(zlib_library(platform))),
    ]
}

pub fn builtin_catalog(platform: HostPlatform, host: &str) -> (catalog: Vec<PackageSpec>)
    ensures
        catalog.deep_view() == builtins(platform, host@),
{
    let library = Some(builtin_zlib_static_library_path(platform).to_owned());
    let catalog = vec![
        builtin_package(host, "bitsery", "5.2.3", "bitsery::bitsery", None),
        builtin_package(host, "itoa", "main", "itoa::itoa", None),
        builtin_package(host, "zlib", "1.3.2", "zlib::zlib", library),
    ];
    assert(catalog.deep_view() == builtins(platform, host@));
    catalog
}

/// `request` as a package in `namespace` makes it.
pub open spec fn inherited(request: PackageRequestView, namespace: Text) -> PackageRequestView {
    if request.inherit_namespace {
        PackageRequestView { namespace, ..request }
    } else {
        request
    }
}

/// A package as it stands once it is registered in a namespace.
pub open spec fn registered_in(spec: PackageSpecView, namespace: Text) -> PackageSpecView {
    PackageSpecView {
        namespace,
        depends: spec.depends.map_values(
            |request: PackageRequestView| inherited(request, namespace),
        ),
        ..spec
    }
}

/// The package that a registered DepoFile describes: its name and version must be those that
/// it is stored under, and its namespace is the one that it is stored under.
pub open spec fn registered_spec(
    platform: HostPlatform,
    path: Text,
    source: Text,
    host: Text,
    name: Text,
    namespace: Text,
    version: Text,
) -> Result<PackageSpecView, Messages> {
    match names::package_name_check(name) {
        Err(messages) => Err(messages),
        Ok(_) => match names::namespace_check(namespace) {
            Err(messages) => Err(messages),
            Ok(_) => match depofile::depofile_spec(platform, path, source, host) {
                Err(messages) => Err(messages),
                Ok(spec) => if spec.name != name {
                    Err(
                        seq![
                            "registered DepoFile "@ + path + " declares NAME "@ + spec.name
                                + ", but is stored under "@ + name,
                        ],
                    )
                } else if spec.version != version {
                    Err(
                        seq![
                            "registered DepoFile "@ + path + " declares VERSION "@ + spec.version
                                + ", but is stored under "@ + version,
                        ],
                    )
                } else {
                    Ok(registered_in(spec, namespace))
                },
            },
        },
    }
}

fn inherit_namespace(requests: &Vec<PackageRequest>, namespace: &str) -> (result: Vec<
    PackageRequest,
>)
    ensures
        result.deep_view() == requests.deep_view().map_values(
            |request: PackageRequestView| inherited(request, namespace@),
        ),
{
    let ghost all = requests.deep_view().map_values(
        |request: PackageRequestView| inherited(request, namespace@),
    );
    let mut result: Vec<PackageRequest> = Vec::new();
    let mut index: usize = 0;
    assert(result.deep_view() == all.take(0));
    while index < requests.len()
        invariant
            index <= requests.len(),
            all == requests.deep_view().map_values(
                |request: PackageRequestView| inherited(request, namespace@),
            ),
            result.deep_view() == all.take(index as int),
        decreases requests.len() - index,
    {
        let mut request = requests[index].dup();
        assert(requests.deep_view()[index as int] == requests[index as int].deep_view());
        if request.inherit_namespace {
            request.namespace = namespace.to_owned();
        }
        put(&mut result, request);
        index = index + 1;
        assert(result.deep_view() == all.take(index as int));
    }
    assert(all.take(index as int) == all);
    result
}

/// Parses the DepoFile at `path`, which is registered under the given name, namespace and
/// version.
pub fn parse_registered_depofile(
    platform: HostPlatform,
    path: &str,
    source: &str,
    host: &str,
    expected_name: &str,
    expected_namespace: &str,
    expected_version: &str,
) -> (result: Result<PackageSpec, Failure>)
    requires
        arch::supported_arch(host@),
    ensures
        outcome(result) == registered_spec(
            platform,
            path@,
            source@,
            host@,
            expected_name@,
            expected_namespace@,
            expected_version@,
        ),
{
    ensure_package_name(expected_name)?;
    ensure_namespace_name(expected_namespace)?;
    let spec = parse_depofile(platform, path, source, host)?;
    if !same(&spec.name, expected_name) {
        return Err(
            failure(
                cat6(
                    "registered DepoFile ",
                    path,
                    " declares NAME ",
                    &spec.name,
                    ", but is stored under ",
                    expected_name,
                ),
            ),
        );
    }
    if !same(&spec.version, expected_version) {
        return Err(
            failure(
                cat6(
                    "registered DepoFile ",
                    path,
                    " declares VERSION ",
                    &spec.version,
                    ", but is stored under ",
                    expected_version,
                ),
            ),
        );
    }
    let depends = inherit_namespace(&spec.depends, expected_namespace);
    Ok(PackageSpec { namespace: expected_namespace.to_owned(), depends, ..spec })
}

/// The package that one dependency of `spec` selects.
pub open spec fn dependency_spec(
    catalog: Seq<PackageSpecView>,
    spec: PackageSpecView,
    request: PackageRequestView,
    purpose: Text,
) -> Result<PackageSpecView, Messages> {
    let found = resolve::candidates(catalog, request.key());
    if found.len() == 0 {
        Err(
            seq![
                "package '"@ + spec.id() + "' depends on missing package '"@ + request.name + "["@
                    + request.namespace + "]'"@,
            ],
        )
    } else {
        match version::selection(found, request.mode) {
            Err(messages) => Err(
                seq![
                    "package '"@ + spec.id() + "' could not resolve dependency '"@ + request.name
                        + "["@ + request.namespace + "]'"@ + purpose,
                ] + messages,
            ),
            Ok(selected) => Ok(selected),
        }
    }
}

fn select_dependency(
    catalog: &Vec<PackageSpec>,
    spec: &PackageSpec,
    request: &PackageRequest,
    purpose: &str,
) -> (result: Result<PackageSpec, Failure>)
    ensures
        outcome(result) == dependency_spec(
            catalog.deep_view(),
            spec.deep_view(),
            request.deep_view(),
            purpose@,
        ),
{
    let found = candidates_for_key(catalog, &request.identity_key());
    if found.len() == 0 {
        return Err(
            failure(
                cat7(
                    "package '",
                    &spec.package_id(),
                    "' depends on missing package '",
                    &request.name,
                    "[",
                    &request.namespace,
                    "]'",
                ),
            ),
        );
    }
    match select_package(&found, &request.mode) {
        Ok(selected) => Ok(selected),
        Err(inner) => {
            let mut message = cat7(
                "package '",
                &spec.package_id(),
                "' could not resolve dependency '",
                &request.name,
                "[",
                &request.namespace,
                "]'",
            );
            message.append(purpose);
            Err(within(message, inner))
        },
    }
}

/// The packages that the dependencies of `spec` from position `from` on select, put behind
/// `done`.
pub open spec fn dependency_specs_from(
    catalog: Seq<PackageSpecView>,
    spec: PackageSpecView,
    from: int,
    done: Seq<PackageSpecView>,
) -> Result<Seq<PackageSpecView>, Messages>
    decreases spec.depends.len() - from,
{
    if from >= spec.depends.len() {
        Ok(done)
    } else {
        match dependency_spec(catalog, spec, spec.depends[from], ""@) {
            Err(messages) => Err(messages),
            Ok(selected) => dependency_specs_from(catalog, spec, from + 1, done.push(selected)),
        }
    }
}

/// The packages that the dependencies of `spec` select.
pub open spec fn dependency_specs(catalog: Seq<PackageSpecView>, spec: PackageSpecView) -> Result<
    Seq<PackageSpecView>,
    Messages,
> {
    dependency_specs_from(catalog, spec, 0, Seq::empty())
}

pub fn resolve_dependency_specs(catalog: &Vec<PackageSpec>, spec: &PackageSpec) -> (result: Result<
    Vec<PackageSpec>,
    Failure,
>)
    ensures
        outcome(result) == dependency_specs(catalog.deep_view(), spec.deep_view()),
{
    let mut done: Vec<PackageSpec> = Vec::new();
    let mut index: usize = 0;
    assert(done.deep_view() == Seq::<PackageSpecView>::empty());
    while index < spec.depends.len()
        invariant
            index <= spec.depends.len(),
            dependency_specs(catalog.deep_view(), spec.deep_view()) == dependency_specs_from(
                catalog.deep_view(),
                spec.deep_view(),
                index as int,
                done.deep_view(),
            ),
        decreases spec.depends.len() - index,
    {
        assert(spec.deep_view().depends[index as int] == spec.depends[index as int].deep_view());
        let selected = select_dependency(catalog, spec, &spec.depends[index], "")?;
        put(&mut done, selected);
        index = index + 1;
    }
    Ok(done)
}

/// Why a dependency cannot be met by a catalog, where it cannot.
pub open spec fn missing_reason(
    catalog: Seq<PackageSpecView>,
    request: PackageRequestView,
) -> Option<
    Text,
> {
    let found = resolve::candidates(catalog, request.key());
    let name = request.name + "["@ + request.namespace + "]"@;
    if found.len() == 0 {
        Some(name)
    } else if version::selection(found, request.mode) is Err {
        Some(name + " ("@ + request.mode.version() + ")"@)
    } else {
        None
    }
}

pub fn dependency_missing_reason(
    catalog: &Vec<PackageSpec>,
    dependency: &PackageRequest,
) -> (reason: Option<
    String,
>)
    ensures
        reason.deep_view() == missing_reason(catalog.deep_view(), dependency.deep_view()),
{
    let found = candidates_for_key(catalog, &dependency.identity_key());
    if found.len() == 0 {
        return Some(text::cat4(&dependency.name, "[", &dependency.namespace, "]"));
    }
    match select_package(&found, &dependency.mode) {
        Ok(_) => None,
        Err(_) => Some(
            cat7(
                &dependency.name,
                "[",
                &dependency.namespace,
                "]",
                " (",
                dependency.mode.version_str(),
                ")",
            ),
        ),
    }
}

/// The reasons why dependencies of a package cannot be met, among the first `count`.
pub open spec fn missing_reasons(
    catalog: Seq<PackageSpecView>,
    requests: Seq<PackageRequestView>,
    count: int,
) -> Seq<Text>
    decreases count,
{
    if count <= 0 {
        Seq::empty()
    } else {
        let before = missing_reasons(catalog, requests, count - 1);
        match missing_reason(catalog, requests[count - 1]) {
            Some(reason) => before.push(reason),
            None => before,
        }
    }
}

pub fn missing_dependencies(
    catalog: &Vec<PackageSpec>,
    requests: &Vec<PackageRequest>,
) -> (reasons: Vec<
    String,
>)
    ensures
        reasons.deep_view() == missing_reasons(
            catalog.deep_view(),
            requests.deep_view(),
            requests.len() as int,
        ),
{
    let mut reasons: Vec<String> = Vec::new();
    let mut count: usize = 0;
    assert(reasons.deep_view() == Seq::<Text>::empty());
    while count < requests.len()
        invariant
            count <= requests.len(),
            reasons.deep_view() == missing_reasons(
                catalog.deep_view(),
                requests.deep_view(),
                count as int,
            ),
        decreases requests.len() - count,
    {
        assert(requests.deep_view()[count as int] == requests[count as int].deep_view());
        if let Some(reason) = dependency_missing_reason(catalog, &requests[count]) {
            put(&mut reasons, reason);
        }
        count = count + 1;
    }
    reasons
}

/// What stands at the place where an embedded DepoFile would be put.
#[derive(Clone, Copy, Debug, PartialEq, Eq, Structural)]
pub enum EmbeddedSlot {
    Free,
    SameContents,
    OtherContents,
}

/// What to do with a DepoFile found in the sources of a package.
#[derive(Clone, Copy, Debug, PartialEq, Eq, Structural)]
pub enum EmbeddedAction {
    Skip,
    Copy,
}

impl DeepView for EmbeddedAction {
    type V = EmbeddedAction;

    open spec fn deep_view(&self) -> EmbeddedAction {
        *self
    }
}

/// What to do with a DepoFile found in the sources of `owner`: the one of the owner itself and
/// those that are registered by hand are skipped, and two that differ are refused.
pub open spec fn embedded_decision(
    owner: PackageSpecView,
    found: PackageSpecView,
    overridden: bool,
    slot: EmbeddedSlot,
    destination: Text,
    path: Text,
) -> Result<EmbeddedAction, Messages> {
    if (found.name == owner.name && found.version == owner.version) || overridden {
        Ok(EmbeddedAction::Skip)
    } else {
        match slot {
            EmbeddedSlot::Free => Ok(EmbeddedAction::Copy),
            EmbeddedSlot::SameContents => Ok(EmbeddedAction::Skip),
            EmbeddedSlot::OtherContents => Err(
                seq![
                    "embedded DepoFile conflict for '"@ + found.name + "["@ + owner.namespace
                        + "]@"@ + found.version + "' while preparing package '"@ + owner.id()
                        + "': "@ + destination + " and "@ + path + " differ"@,
                ],
            ),
        }
    }
}

pub fn decide_embedded(
    owner: &PackageSpec,
    found: &PackageSpec,
    overridden: bool,
    slot: EmbeddedSlot,
    destination: &str,
    path: &str,
) -> (result: Result<EmbeddedAction, Failure>)
    ensures
        outcome(result) == embedded_decision(
            owner.deep_view(),
            found.deep_view(),
            overridden,
            slot,
            destination@,
            path@,
        ),
{
    if (same(&found.name, &owner.name) && same(&found.version, &owner.version)) || overridden {
        return Ok(EmbeddedAction::Skip);
    }
    match slot {
        EmbeddedSlot::Free => Ok(EmbeddedAction::Copy),
        EmbeddedSlot::SameContents => Ok(EmbeddedAction::Skip),
        EmbeddedSlot::OtherContents => {
            let mut message = cat7(
                "embedded DepoFile conflict for '",
                &found.name,
                "[",
                &owner.namespace,
                "]@",
                &found.version,
                "' while preparing package '",
            );
            message.append(&owner.package_id());
            message.append("': ");
            message.append(destination);
            message.append(" and ");
            message.append(path);
            message.append(" differ");
            Err(failure(message))
        },
    }
}

/// A package whose dependencies are being looked through, with the catalog as it was when that
/// began.
#[derive(Clone, Debug, PartialEq, Eq)]
pub struct HydrationFrame {
    pub spec: PackageSpec,
    pub catalog: Vec<PackageSpec>,
    pub next: usize,
}

/// The model of [`HydrationFrame`].
pub struct HydrationFrameView {
    pub spec: PackageSpecView,
    pub catalog: Seq<PackageSpecView>,
    pub next: nat,
}

impl DeepView for HydrationFrame {
    type V = HydrationFrameView;

    open spec fn deep_view(&self) -> HydrationFrameView {
        HydrationFrameView {
            spec: self.spec.deep_view(),
            catalog: self.catalog.deep_view(),
            next: self.next as nat,
        }
    }
}

/// How far the search for embedded DepoFiles has come: the packages on the way from the
/// request to here, and the ids of all packages seen.
#[derive(Clone, Debug, PartialEq, Eq)]
pub struct Hydration {
    pub frames: Vec<HydrationFrame>,
    pub seen: Vec<String>,
}

/// The model of [`Hydration`].
pub struct HydrationView {
    pub frames: Seq<HydrationFrameView>,
    pub seen: Seq<Text>,
}

impl DeepView for Hydration {
    type V = HydrationView;

    open spec fn deep_view(&self) -> HydrationView {
        HydrationView { frames: self.frames.deep_view(), seen: self.seen.deep_view() }
    }
}

/// What is to be done next in the search for embedded DepoFiles.
#[derive(Clone, Debug, PartialEq, Eq)]
pub enum HydrationStep {
    /// Fetch the sources of the package, register what they hold and load the catalog anew.
    Fetch(PackageSpec),
    /// Go on.
    Continue,
    /// Nothing is left to do.
    Done,
}

/// The model of [`HydrationStep`].
pub enum HydrationStepView {
    Fetch(PackageSpecView),
    Continue,
    Done,
}

impl DeepView for HydrationStep {
    type V = HydrationStepView;

    open spec fn deep_view(&self) -> HydrationStepView {
        match self {
            HydrationStep::Fetch(spec) => HydrationStepView::Fetch(spec.deep_view()),
            HydrationStep::Continue => HydrationStepView::Continue,
            HydrationStep::Done => HydrationStepView::Done,
        }
    }
}

/// What it takes to look into a package: nothing where it was seen, else its sources where it
/// has any.
pub open spec fn entered(
    state: HydrationView,
    spec: PackageSpecView,
    catalog: Seq<PackageSpecView>,
) -> (HydrationView, HydrationStepView) {
    if state.seen.contains(spec.id()) {
        (state, HydrationStepView::Continue)
    } else {
        let seen = state.seen.push(spec.id());
        if spec.fetch is Some {
            (HydrationView { seen, ..state }, HydrationStepView::Fetch(spec))
        } else {
            (
                HydrationView {
                    frames: state.frames.push(HydrationFrameView { spec, catalog, next: 0 }),
                    seen,
                },
                HydrationStepView::Continue,
            )
        }
    }
}

/// The package that a request selects for the search.
pub open spec fn hydration_root(
    catalog: Seq<PackageSpecView>,
    request: PackageRequestView,
) -> Result<
    PackageSpecView,
    Messages,
> {
    let found = resolve::candidates(catalog, request.key());
    let name = request.name + "["@ + request.namespace
        + "]' while preparing embedded source DepoFiles"@;
    if found.len() == 0 {
        Err(seq!["no registered package named '"@ + name])
    } else {
        match version::selection(found, request.mode) {
            Err(messages) => Err(seq!["failed to resolve package '"@ + name] + messages),
            Ok(spec) => Ok(spec),
        }
    }
}

/// The next step of the search.
pub open spec fn hydration_step(state: HydrationView, catalog: Seq<PackageSpecView>) -> Result<
    (HydrationView, HydrationStepView),
    Messages,
> {
    if state.frames.len() == 0 {
        Ok((state, HydrationStepView::Done))
    } else {
        let top = state.frames.last();
        let below = state.frames.drop_last();
        if top.next >= top.spec.depends.len() {
            Ok((HydrationView { frames: below, ..state }, HydrationStepView::Continue))
        } else {
            match dependency_spec(
                top.catalog,
                top.spec,
                top.spec.depends[top.next as int],
                " while preparing embedded source DepoFiles"@,
            ) {
                Err(messages) => Err(messages),
                Ok(spec) => Ok(
                    entered(
                        HydrationView {
                            frames: below.push(HydrationFrameView { next: top.next + 1, ..top }),
                            ..state
                        },
                        spec,
                        catalog,
                    ),
                ),
            }
        }
    }
}

impl Hydration {
    /// A search that has not begun.
    pub fn new() -> (state: Hydration)
        ensures
            state.deep_view() == (HydrationView { frames: Seq::empty(), seen: Seq::empty() }),
    {
        let state = Hydration { frames: Vec::new(), seen: Vec::new() };
        assert(state.frames.deep_view() == Seq::<HydrationFrameView>::empty());
        assert(state.seen.deep_view() == Seq::<Text>::empty());
        state
    }

    fn enter(self, spec: PackageSpec, catalog: &Vec<PackageSpec>) -> (result: (
        Hydration,
        HydrationStep,
    ))
        ensures
            (result.0.deep_view(), result.1.deep_view()) == entered(
                self.deep_view(),
                spec.deep_view(),
                catalog.deep_view(),
            ),
    {
        let mut state = self;
        let id = spec.package_id();
        if contains_text(&state.seen, &id) {
            return (state, HydrationStep::Continue);
        }
        put(&mut state.seen, id);
        if spec.fetch.is_some() {
            return (state, HydrationStep::Fetch(spec));
        }
        put(&mut state.frames, HydrationFrame { spec, catalog: catalog.dup(), next: 0 });
        (state, HydrationStep::Continue)
    }

    /// Begins with what a request of the manifest selects.
    pub fn begin(self, request: &PackageRequest, catalog: &Vec<PackageSpec>) -> (result: Result<
        (Hydration, HydrationStep),
        Failure,
    >)
        ensures
            outcome(result) == match hydration_root(catalog.deep_view(), request.deep_view()) {
                Err(messages) => Err(messages),
                Ok(spec) => Ok(entered(self.deep_view(), spec, catalog.deep_view())),
            },
    {
        let found = candidates_for_key(catalog, &request.identity_key());
        let name = text::cat4(
            &request.name,
            "[",
            &request.namespace,
            "]' while preparing embedded source DepoFiles",
        );
        if found.len() == 0 {
            return Err(failure(text::cat2("no registered package named '", &name)));
        }
        match select_package(&found, &request.mode) {
            Ok(spec) => Ok(self.enter(spec, catalog)),
            Err(inner) => Err(
                within(text::cat2("failed to resolve package '", &name), inner),
            ),
        }
    }

    /// Goes on once the sources of `spec` are fetched and the catalog is loaded anew.
    pub fn fetched(self, spec: PackageSpec, catalog: &Vec<PackageSpec>) -> (state: Hydration)
        ensures
            state.deep_view() == (HydrationView {
                frames: self.deep_view().frames.push(
                    HydrationFrameView {
                        spec: spec.deep_view(),
                        catalog: catalog.deep_view(),
                        next: 0,
                    },
                ),
                seen: self.deep_view().seen,
            }),
    {
        let mut state = self;
        put(&mut state.frames, HydrationFrame { spec, catalog: catalog.dup(), next: 0 });
        state
    }

    /// Takes the next step.
    pub fn advance(self, catalog: &Vec<PackageSpec>) -> (result: Result<
        (Hydration, HydrationStep),
        Failure,
    >)
        ensures
            outcome(result) == hydration_step(self.deep_view(), catalog.deep_view()),
    {
        let ghost before = self.deep_view();
        let mut state = self;
        let mut top = match state.frames.pop() {
            None => {
                assert(state.frames.deep_view() == before.frames);
                return Ok((state, HydrationStep::Done));
            },
            Some(top) => top,
        };
        assert(state.frames.deep_view() == before.frames.drop_last());
        assert(top.deep_view() == before.frames.last());
        if top.next >= top.spec.depends.len() {
            return Ok((state, HydrationStep::Continue));
        }
        assert(top.deep_view().spec.depends[top.next as int]
            == top.spec.depends[top.next as int].deep_view());
        let spec = select_dependency(
            &top.catalog,
            &top.spec,
            &top.spec.depends[top.next],
            " while preparing embedded source DepoFiles",
        )?;
        top.next = top.next + 1;
        put(&mut state.frames, top);
        Ok(state.enter(spec, catalog))
    }
}

/// Where the sources of a package may hold DepoFiles: below the fetched sources and below the
/// declared part of them, as far as these are directories, and neither twice.
pub open spec fn embedded_roots(
    platform: HostPlatform,
    fetched: Text,
    source_root: Text,
    fetched_has: bool,
    part_has: bool,
) -> Seq<Text> {
    let whole = paths::joined_path(platform, fetched, "depofiles"@);
    let part = paths::joined_path(platform, source_root, "depofiles"@);
    let first = if fetched_has {
        seq![whole]
    } else {
        Seq::empty()
    };
    if part_has && !(fetched_has && paths::same_path(platform, whole, part)) {
        first.push(part)
    } else {
        first
    }
}

pub fn embedded_depofile_roots(
    platform: HostPlatform,
    fetched_source_root: &str,
    source_root: &str,
    fetched_has: bool,
    part_has: bool,
) -> (roots: Vec<String>)
    ensures
        roots.deep_view() == embedded_roots(
            platform,
            fetched_source_root@,
            source_root@,
            fetched_has,
            part_has,
        ),
{
    let whole = join_path(platform, fetched_source_root, "depofiles");
    let part = join_path(platform, source_root, "depofiles");
    let repeated = fetched_has && paths_equal(platform, &whole, &part);
    let mut roots: Vec<String> = Vec::new();
    assert(roots.deep_view() == Seq::<Text>::empty());
    if fetched_has {
        put(&mut roots, whole);
    }
    if part_has && !repeated {
        put(&mut roots, part);
    }
    roots
}

/// Whether a file is a DepoFile, by its name: it has the extension of one, and more than that.
pub open spec fn is_depofile_name(name: Text) -> bool {
    text::has_suffix(name, ".DepoFile"@) && name.len() > ".DepoFile"@.len()
}

pub fn names_depofile(name: &str) -> (yes: bool)
    ensures
        yes == is_depofile_name(name@),
{
    match text::strip_suffix(name, ".DepoFile") {
        Some(rest) => !rest.as_str().is_empty(),
        None => false,
    }
}

} // verus!
