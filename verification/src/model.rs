//! The data of the library and its mathematical model: every type below has a view in which
//! texts and paths are sequences of characters and lists are sequences.

use vstd::prelude::*;
use crate::failure::{failure, outcome, Failure, Messages};
use crate::paths;
use crate::paths::HostPlatform;
use crate::text;
use crate::text::{cat2, cat5, order_texts, same, Dup, Order};

verus! {

/// The model of a text or a path.
pub type Text = Seq<char>;

/// The namespace of requests that name none.
pub const DEFAULT_NAMESPACE: &'static str = "release";

/// Whether a package may use the libraries of the host system.
#[derive(Clone, Copy, Debug, PartialEq, Eq, Structural)]
pub enum PackageSystemLibs {
    Inherit,
    Never,
    Allow,
}

/// Where a requested package is to come from.
#[derive(Clone, Copy, Debug, PartialEq, Eq, Structural)]
pub enum RequestSource {
    Auto,
    Depo,
    System,
}

/// What kind of library an artifact of a target is.
#[derive(Clone, Copy, Debug, PartialEq, Eq, Structural)]
pub enum TargetKind {
    Interface,
    Static,
    Shared,
    Object,
}

/// Whether a stage entry copies one file or a whole tree.
#[derive(Clone, Copy, Debug, PartialEq, Eq, Structural)]
pub enum StageKind {
    File,
    Tree,
}

/// The root that a stage entry copies from.
#[derive(Clone, Copy, Debug, PartialEq, Eq, Structural)]
pub enum StageSourceRoot {
    Source,
    Build,
}

/// Where the tools of a build come from.
#[derive(Clone, Copy, Debug, PartialEq, Eq, Structural)]
pub enum ToolchainSource {
    System,
    Rootfs,
}

/// The build system that drives a package.
#[derive(Clone, Copy, Debug, PartialEq, Eq, Structural)]
pub enum BuildSystem {
    Cmake,
    Meson,
    Autoconf,
    Cargo,
    Manual,
}

/// Where a package description comes from.
#[derive(Clone, Copy, Debug, PartialEq, Eq, Structural)]
pub enum PackageOrigin {
    Builtin,
    Local,
}

/// The state that a registered package is in.
#[derive(Clone, Copy, Debug, PartialEq, Eq, Structural)]
pub enum PackageState {
    NeverRun,
    Green,
    Quarantined,
    Failed,
}

impl DeepView for PackageSystemLibs {
    type V = PackageSystemLibs;

    open spec fn deep_view(&self) -> PackageSystemLibs {
        *self
    }
}

impl DeepView for RequestSource {
    type V = RequestSource;

    open spec fn deep_view(&self) -> RequestSource {
        *self
    }
}

impl DeepView for TargetKind {
    type V = TargetKind;

    open spec fn deep_view(&self) -> TargetKind {
        *self
    }
}

impl DeepView for StageSourceRoot {
    type V = StageSourceRoot;

    open spec fn deep_view(&self) -> StageSourceRoot {
        *self
    }
}

impl DeepView for BuildSystem {
    type V = BuildSystem;

    open spec fn deep_view(&self) -> BuildSystem {
        *self
    }
}

impl DeepView for PackageState {
    type V = PackageState;

    open spec fn deep_view(&self) -> PackageState {
        *self
    }
}

impl PackageSystemLibs {
    /// The word for `self` in DepoFiles and status files.
    pub open spec fn word(self) -> Text {
        match self {
            PackageSystemLibs::Inherit => "INHERIT"@,
            PackageSystemLibs::Never => "NEVER"@,
            PackageSystemLibs::Allow => "ALLOW"@,
        }
    }

    /// What a word stands for, or the message that refuses it.
    pub open spec fn read(value: Text) -> Result<PackageSystemLibs, Messages> {
        if value == "INHERIT"@ {
            Ok(PackageSystemLibs::Inherit)
        } else if value == "NEVER"@ {
            Ok(PackageSystemLibs::Never)
        } else if value == "ALLOW"@ {
            Ok(PackageSystemLibs::Allow)
        } else {
            Err(seq!["unsupported SYSTEM_LIBS value "@ + value])
        }
    }

    pub fn parse(value: &str) -> (result: Result<Self, Failure>)
        ensures
            outcome(result) == Self::read(value@),
    {
        if same(value, "INHERIT") {
            Ok(PackageSystemLibs::Inherit)
        } else if same(value, "NEVER") {
            Ok(PackageSystemLibs::Never)
        } else if same(value, "ALLOW") {
            Ok(PackageSystemLibs::Allow)
        } else {
            Err(failure(cat2("unsupported SYSTEM_LIBS value ", value)))
        }
    }

    pub fn as_str(&self) -> (word: &'static str)
        ensures
            word@ == self.word(),
    {
        match self {
            PackageSystemLibs::Inherit => "INHERIT",
            PackageSystemLibs::Never => "NEVER",
            PackageSystemLibs::Allow => "ALLOW",
        }
    }

    /// Reading the word for a value gives the value back.
    pub proof fn lemma_word_reads_back(self)
        ensures
            Self::read(self.word()) == Ok::<PackageSystemLibs, Messages>(self),
    {
        reveal_strlit("INHERIT");
        reveal_strlit("NEVER");
        reveal_strlit("ALLOW");
        assert("INHERIT"@.len() == 7 && "NEVER"@.len() == 5);
        assert("NEVER"@[0] == 'N' && "ALLOW"@[0] == 'A');
    }
}

impl RequestSource {
    /// The word for `self` in manifests and DepoFiles.
    pub open spec fn word(self) -> Text {
        match self {
            RequestSource::Auto => "AUTO"@,
            RequestSource::Depo => "DEPO"@,
            RequestSource::System => "SYSTEM"@,
        }
    }

    /// What a word stands for, or the message that refuses it.
    pub open spec fn read(value: Text) -> Result<RequestSource, Messages> {
        if value == "AUTO"@ {
            Ok(RequestSource::Auto)
        } else if value == "DEPO"@ {
            Ok(RequestSource::Depo)
        } else if value == "SYSTEM"@ {
            Ok(RequestSource::System)
        } else {
            Err(seq!["unsupported SOURCE value "@ + value])
        }
    }

    pub fn parse(value: &str) -> (result: Result<Self, Failure>)
        ensures
            outcome(result) == Self::read(value@),
    {
        if same(value, "AUTO") {
            Ok(RequestSource::Auto)
        } else if same(value, "DEPO") {
            Ok(RequestSource::Depo)
        } else if same(value, "SYSTEM") {
            Ok(RequestSource::System)
        } else {
            Err(failure(cat2("unsupported SOURCE value ", value)))
        }
    }

    pub fn as_str(&self) -> (word: &'static str)
        ensures
            word@ == self.word(),
    {
        match self {
            RequestSource::Auto => "AUTO",
            RequestSource::Depo => "DEPO",
            RequestSource::System => "SYSTEM",
        }
    }

    /// Reading the word for a value gives the value back.
    pub proof fn lemma_word_reads_back(self)
        ensures
            Self::read(self.word()) == Ok::<RequestSource, Messages>(self),
    {
        reveal_strlit("AUTO");
        reveal_strlit("DEPO");
        reveal_strlit("SYSTEM");
        assert("DEPO"@[0] == 'D' && "AUTO"@[0] == 'A');
        assert("AUTO"@.len() == 4 && "DEPO"@.len() == 4 && "SYSTEM"@.len() == 6);
    }
}

impl TargetKind {
    /// The kind as CMake names it.
    pub open spec fn word(self) -> Text {
        match self {
            TargetKind::Interface => "INTERFACE"@,
            TargetKind::Static => "STATIC"@,
            TargetKind::Shared => "SHARED"@,
            TargetKind::Object => "OBJECT"@,
        }
    }

    pub fn cmake_imported_type(&self) -> (word: &'static str)
        ensures
            word@ == self.word(),
    {
        match self {
            TargetKind::Interface => "INTERFACE",
            TargetKind::Static => "STATIC",
            TargetKind::Shared => "SHARED",
            TargetKind::Object => "OBJECT",
        }
    }
}

impl StageKind {
    /// The directive that declares an entry of this kind.
    pub open spec fn word(self) -> Text {
        match self {
            StageKind::File => "STAGE_FILE"@,
            StageKind::Tree => "STAGE_TREE"@,
        }
    }

    pub fn directive_name(&self) -> (word: &'static str)
        ensures
            word@ == self.word(),
    {
        match self {
            StageKind::File => "STAGE_FILE",
            StageKind::Tree => "STAGE_TREE",
        }
    }
}

impl BuildSystem {
    /// The word that selects this build system.
    pub open spec fn word(self) -> Text {
        match self {
            BuildSystem::Cmake => "CMAKE"@,
            BuildSystem::Meson => "MESON"@,
            BuildSystem::Autoconf => "AUTOCONF"@,
            BuildSystem::Cargo => "CARGO"@,
            BuildSystem::Manual => "MANUAL"@,
        }
    }

    pub fn directive_name(&self) -> (word: &'static str)
        ensures
            word@ == self.word(),
    {
        match self {
            BuildSystem::Cmake => "CMAKE",
            BuildSystem::Meson => "MESON",
            BuildSystem::Autoconf => "AUTOCONF",
            BuildSystem::Cargo => "CARGO",
            BuildSystem::Manual => "MANUAL",
        }
    }
}

impl PackageState {
    /// The word for `self` in status files.
    pub open spec fn word(self) -> Text {
        match self {
            PackageState::NeverRun => "never_run"@,
            PackageState::Green => "green"@,
            PackageState::Quarantined => "quarantined"@,
            PackageState::Failed => "failed"@,
        }
    }

    /// What a word stands for, or the message that refuses it.
    pub open spec fn read(value: Text) -> Result<PackageState, Messages> {
        if value == "never_run"@ {
            Ok(PackageState::NeverRun)
        } else if value == "green"@ {
            Ok(PackageState::Green)
        } else if value == "quarantined"@ {
            Ok(PackageState::Quarantined)
        } else if value == "failed"@ {
            Ok(PackageState::Failed)
        } else {
            Err(seq!["unsupported status state "@ + value])
        }
    }

    pub fn parse(value: &str) -> (result: Result<Self, Failure>)
        ensures
            outcome(result) == Self::read(value@),
    {
        if same(value, "never_run") {
            Ok(PackageState::NeverRun)
        } else if same(value, "green") {
            Ok(PackageState::Green)
        } else if same(value, "quarantined") {
            Ok(PackageState::Quarantined)
        } else if same(value, "failed") {
            Ok(PackageState::Failed)
        } else {
            Err(failure(cat2("unsupported status state ", value)))
        }
    }

    pub fn as_str(&self) -> (word: &'static str)
        ensures
            word@ == self.word(),
    {
        match self {
            PackageState::NeverRun => "never_run",
            PackageState::Green => "green",
            PackageState::Quarantined => "quarantined",
            PackageState::Failed => "failed",
        }
    }

    /// Reading the word for a value gives the value back.
    pub proof fn lemma_word_reads_back(self)
        ensures
            Self::read(self.word()) == Ok::<PackageState, Messages>(self),
    {
        reveal_strlit("never_run");
        reveal_strlit("green");
        reveal_strlit("quarantined");
        reveal_strlit("failed");
        assert("never_run"@.len() == 9 && "green"@.len() == 5);
        assert("quarantined"@.len() == 11 && "failed"@.len() == 6);
    }
}

/// Which version of a package is asked for.
#[derive(Clone, Debug, PartialEq, Eq)]
pub enum RequestMode {
    Latest,
    Exact(String),
    Minimum(String),
}

/// The model of [`RequestMode`].
pub enum RequestModeView {
    Latest,
    Exact(Text),
    Minimum(Text),
}

impl DeepView for RequestMode {
    type V = RequestModeView;

    open spec fn deep_view(&self) -> RequestModeView {
        match self {
            RequestMode::Latest => RequestModeView::Latest,
            RequestMode::Exact(version) => RequestModeView::Exact(version@),
            RequestMode::Minimum(version) => RequestModeView::Minimum(version@),
        }
    }
}

impl RequestModeView {
    /// The word for the kind of request.
    pub open spec fn kind(self) -> Text {
        match self {
            RequestModeView::Latest => "LATEST"@,
            RequestModeView::Exact(_) => "EXACT"@,
            RequestModeView::Minimum(_) => "MINIMUM"@,
        }
    }

    /// The version that is named, empty where none is.
    pub open spec fn version(self) -> Text {
        match self {
            RequestModeView::Latest => ""@,
            RequestModeView::Exact(version) => version,
            RequestModeView::Minimum(version) => version,
        }
    }
}

impl RequestMode {
    pub fn kind_str(&self) -> (word: &'static str)
        ensures
            word@ == self.deep_view().kind(),
    {
        match self {
            RequestMode::Latest => "LATEST",
            RequestMode::Exact(_) => "EXACT",
            RequestMode::Minimum(_) => "MINIMUM",
        }
    }

    pub fn version_str(&self) -> (version: &str)
        ensures
            version@ == self.deep_view().version(),
    {
        match self {
            RequestMode::Latest => "",
            RequestMode::Exact(version) => version.as_str(),
            RequestMode::Minimum(version) => version.as_str(),
        }
    }
}

impl Dup for RequestMode {
    fn dup(&self) -> (copy: Self) {
        match self {
            RequestMode::Latest => RequestMode::Latest,
            RequestMode::Exact(version) => RequestMode::Exact(version.clone()),
            RequestMode::Minimum(version) => RequestMode::Minimum(version.clone()),
        }
    }
}

/// A name within a namespace: what identifies a package whatever its version.
pub struct PackageKeyView {
    pub name: Text,
    pub namespace: Text,
}

/// What identifies a package whatever its version.
#[derive(Clone, Debug, PartialEq, Eq)]
pub struct PackageKey {
    pub name: String,
    pub namespace: String,
}

impl DeepView for PackageKey {
    type V = PackageKeyView;

    open spec fn deep_view(&self) -> PackageKeyView {
        PackageKeyView { name: self.name@, namespace: self.namespace@ }
    }
}

impl Dup for PackageKey {
    fn dup(&self) -> (copy: Self) {
        PackageKey { name: self.name.clone(), namespace: self.namespace.clone() }
    }
}

impl PackageKey {
    pub fn new(name: &str, namespace: &str) -> (key: Self)
        ensures
            key.deep_view() == (PackageKeyView { name: name@, namespace: namespace@ }),
    {
        PackageKey { name: name.to_owned(), namespace: namespace.to_owned() }
    }

    /// Decides whether the key is that of `name` in `namespace`.
    pub fn is(&self, name: &str, namespace: &str) -> (yes: bool)
        ensures
            yes == (self.deep_view() == PackageKeyView { name: name@, namespace: namespace@ }),
    {
        same(&self.name, name) && same(&self.namespace, namespace)
    }
}

/// How two keys stand to each other: by name, then by namespace.
pub open spec fn key_order(a: PackageKeyView, b: PackageKeyView) -> Order {
    match text::text_order(a.name, b.name) {
        Order::Equal => text::text_order(a.namespace, b.namespace),
        order => order,
    }
}

/// A request for a package.
#[derive(Clone, Debug, PartialEq, Eq)]
pub struct PackageRequest {
    pub name: String,
    pub namespace: String,
    pub inherit_namespace: bool,
    pub mode: RequestMode,
    pub source: RequestSource,
    pub alias: Option<String>,
}

/// The model of [`PackageRequest`].
pub struct PackageRequestView {
    pub name: Text,
    pub namespace: Text,
    pub inherit_namespace: bool,
    pub mode: RequestModeView,
    pub source: RequestSource,
    pub alias: Option<Text>,
}

impl DeepView for PackageRequest {
    type V = PackageRequestView;

    open spec fn deep_view(&self) -> PackageRequestView {
        PackageRequestView {
            name: self.name@,
            namespace: self.namespace@,
            inherit_namespace: self.inherit_namespace,
            mode: self.mode.deep_view(),
            source: self.source,
            alias: self.alias.deep_view(),
        }
    }
}

impl PackageRequestView {
    /// What the request identifies.
    pub open spec fn key(self) -> PackageKeyView {
        PackageKeyView { name: self.name, namespace: self.namespace }
    }
}

impl Dup for PackageRequest {
    fn dup(&self) -> (copy: Self) {
        PackageRequest {
            name: self.name.clone(),
            namespace: self.namespace.clone(),
            inherit_namespace: self.inherit_namespace,
            mode: self.mode.dup(),
            source: self.source,
            alias: self.alias.dup(),
        }
    }
}

/// A CMake target that a package exports.
#[derive(Clone, Debug, PartialEq, Eq)]
pub struct TargetSpec {
    pub name: String,
    pub interface_declared: bool,
    pub include_dirs: Vec<String>,
    pub static_path: Option<String>,
    pub shared_path: Option<String>,
    pub object_path: Option<String>,
    pub link_libraries: Vec<String>,
    pub compile_definitions: Vec<String>,
    pub compile_options: Vec<String>,
    pub compile_features: Vec<String>,
}

/// The model of [`TargetSpec`].
pub struct TargetSpecView {
    pub name: Text,
    pub interface_declared: bool,
    pub include_dirs: Seq<Text>,
    pub static_path: Option<Text>,
    pub shared_path: Option<Text>,
    pub object_path: Option<Text>,
    pub link_libraries: Seq<Text>,
    pub compile_definitions: Seq<Text>,
    pub compile_options: Seq<Text>,
    pub compile_features: Seq<Text>,
}

impl DeepView for TargetSpec {
    type V = TargetSpecView;

    open spec fn deep_view(&self) -> TargetSpecView {
        TargetSpecView {
            name: self.name@,
            interface_declared: self.interface_declared,
            include_dirs: self.include_dirs.deep_view(),
            static_path: self.static_path.deep_view(),
            shared_path: self.shared_path.deep_view(),
            object_path: self.object_path.deep_view(),
            link_libraries: self.link_libraries.deep_view(),
            compile_definitions: self.compile_definitions.deep_view(),
            compile_options: self.compile_options.deep_view(),
            compile_features: self.compile_features.deep_view(),
        }
    }
}

impl TargetSpecView {
    /// A target of which nothing but the name is known.
    pub open spec fn named(name: Text) -> TargetSpecView {
        TargetSpecView {
            name,
            interface_declared: false,
            include_dirs: Seq::empty(),
            static_path: None,
            shared_path: None,
            object_path: None,
            link_libraries: Seq::empty(),
            compile_definitions: Seq::empty(),
            compile_options: Seq::empty(),
            compile_features: Seq::empty(),
        }
    }

    /// The library files of the target with their kinds, in the order static, shared, object.
    pub open spec fn artifacts(self) -> Seq<(TargetKind, Text)> {
        let none = Seq::<(TargetKind, Text)>::empty();
        let statics = match self.static_path {
            Some(path) => none.push((TargetKind::Static, path)),
            None => none,
        };
        let shareds = match self.shared_path {
            Some(path) => statics.push((TargetKind::Shared, path)),
            None => statics,
        };
        match self.object_path {
            Some(path) => shareds.push((TargetKind::Object, path)),
            None => shareds,
        }
    }
}

impl TargetSpec {
    pub fn new(name: String) -> (target: Self)
        ensures
            target.deep_view() == TargetSpecView::named(name@),
    {
        let target = TargetSpec {
            name,
            interface_declared: false,
            include_dirs: Vec::new(),
            static_path: None,
            shared_path: None,
            object_path: None,
            link_libraries: Vec::new(),
            compile_definitions: Vec::new(),
            compile_options: Vec::new(),
            compile_features: Vec::new(),
        };
        assert(target.include_dirs.deep_view() == Seq::<Text>::empty());
        assert(target.link_libraries.deep_view() == Seq::<Text>::empty());
        assert(target.compile_definitions.deep_view() == Seq::<Text>::empty());
        assert(target.compile_options.deep_view() == Seq::<Text>::empty());
        assert(target.compile_features.deep_view() == Seq::<Text>::empty());
        target
    }

    pub fn artifact_paths(&self) -> (paths: Vec<(TargetKind, String)>)
        ensures
            paths.deep_view() == self.deep_view().artifacts(),
    {
        let mut paths: Vec<(TargetKind, String)> = Vec::new();
        assert(paths.deep_view() == Seq::<(TargetKind, Text)>::empty());
        if let Some(path) = &self.static_path {
            text::put(&mut paths, (TargetKind::Static, path.clone()));
        }
        if let Some(path) = &self.shared_path {
            text::put(&mut paths, (TargetKind::Shared, path.clone()));
        }
        if let Some(path) = &self.object_path {
            text::put(&mut paths, (TargetKind::Object, path.clone()));
        }
        paths
    }
}

impl Dup for TargetSpec {
    fn dup(&self) -> (copy: Self) {
        TargetSpec {
            name: self.name.clone(),
            interface_declared: self.interface_declared,
            include_dirs: self.include_dirs.dup(),
            static_path: self.static_path.dup(),
            shared_path: self.shared_path.dup(),
            object_path: self.object_path.dup(),
            link_libraries: self.link_libraries.dup(),
            compile_definitions: self.compile_definitions.dup(),
            compile_options: self.compile_options.dup(),
            compile_features: self.compile_features.dup(),
        }
    }
}

/// A file or tree to copy into the store once the build is done.
#[derive(Clone, Debug, PartialEq, Eq)]
pub struct StageEntry {
    pub kind: StageKind,
    pub source_root: StageSourceRoot,
    pub source: String,
    pub destination: String,
}

/// The model of [`StageEntry`].
pub struct StageEntryView {
    pub kind: StageKind,
    pub source_root: StageSourceRoot,
    pub source: Text,
    pub destination: Text,
}

impl DeepView for StageEntry {
    type V = StageEntryView;

    open spec fn deep_view(&self) -> StageEntryView {
        StageEntryView {
            kind: self.kind,
            source_root: self.source_root,
            source: self.source@,
            destination: self.destination@,
        }
    }
}

impl Dup for StageEntry {
    fn dup(&self) -> (copy: Self) {
        StageEntry {
            kind: self.kind,
            source_root: self.source_root,
            source: self.source.clone(),
            destination: self.destination.clone(),
        }
    }
}

/// Where the sources of a package are fetched from.
#[derive(Clone, Debug, PartialEq, Eq)]
pub enum FetchSpec {
    Url { url: String, sha256: Option<String> },
    Git { url: String, reference: String },
}

/// The model of [`FetchSpec`].
pub enum FetchSpecView {
    Url { url: Text, sha256: Option<Text> },
    Git { url: Text, reference: Text },
}

impl DeepView for FetchSpec {
    type V = FetchSpecView;

    open spec fn deep_view(&self) -> FetchSpecView {
        match self {
            FetchSpec::Url { url, sha256 } => FetchSpecView::Url {
                url: url@,
                sha256: sha256.deep_view(),
            },
            FetchSpec::Git { url, reference } => FetchSpecView::Git {
                url: url@,
                reference: reference@,
            },
        }
    }
}

impl Dup for FetchSpec {
    fn dup(&self) -> (copy: Self) {
        match self {
            FetchSpec::Url { url, sha256 } => FetchSpec::Url {
                url: url.clone(),
                sha256: sha256.dup(),
            },
            FetchSpec::Git { url, reference } => FetchSpec::Git {
                url: url.clone(),
                reference: reference.clone(),
            },
        }
    }
}

/// The file system that a build runs in.
#[derive(Clone, Debug, PartialEq, Eq)]
pub enum BuildRoot {
    System,
    Scratch,
    Oci(String),
}

/// The model of [`BuildRoot`].
pub enum BuildRootView {
    System,
    Scratch,
    Oci(Text),
}

impl DeepView for BuildRoot {
    type V = BuildRootView;

    open spec fn deep_view(&self) -> BuildRootView {
        match self {
            BuildRoot::System => BuildRootView::System,
            BuildRoot::Scratch => BuildRootView::Scratch,
            BuildRoot::Oci(reference) => BuildRootView::Oci(reference@),
        }
    }
}

impl Dup for BuildRoot {
    fn dup(&self) -> (copy: Self) {
        match self {
            BuildRoot::System => BuildRoot::System,
            BuildRoot::Scratch => BuildRoot::Scratch,
            BuildRoot::Oci(reference) => BuildRoot::Oci(reference.clone()),
        }
    }
}

/// The description of one version of a package.
#[derive(Clone, Debug, PartialEq, Eq)]
pub struct PackageSpec {
    pub name: String,
    pub namespace: String,
    pub version: String,
    pub primary_target_name: Option<String>,
    pub source_subdir: Option<String>,
    pub lazy: bool,
    pub system_libs: PackageSystemLibs,
    pub artifacts: Vec<String>,
    pub targets: Vec<TargetSpec>,
    pub depends: Vec<PackageRequest>,
    pub fetch: Option<FetchSpec>,
    pub git_submodules_recursive: bool,
    pub configure: Vec<Vec<String>>,
    pub build: Vec<Vec<String>>,
    pub install: Vec<Vec<String>>,
    pub stage_entries: Vec<StageEntry>,
    pub build_root: BuildRoot,
    pub toolchain: ToolchainSource,
    pub toolchain_inputs: Vec<String>,
    pub build_arch: String,
    pub target_arch: String,
    pub build_system: BuildSystem,
    pub origin: PackageOrigin,
}

/// The model of [`PackageSpec`].
pub struct PackageSpecView {
    pub name: Text,
    pub namespace: Text,
    pub version: Text,
    pub primary_target_name: Option<Text>,
    pub source_subdir: Option<Text>,
    pub lazy: bool,
    pub system_libs: PackageSystemLibs,
    pub artifacts: Seq<Text>,
    pub targets: Seq<TargetSpecView>,
    pub depends: Seq<PackageRequestView>,
    pub fetch: Option<FetchSpecView>,
    pub git_submodules_recursive: bool,
    pub configure: Seq<Seq<Text>>,
    pub build: Seq<Seq<Text>>,
    pub install: Seq<Seq<Text>>,
    pub stage_entries: Seq<StageEntryView>,
    pub build_root: BuildRootView,
    pub toolchain: ToolchainSource,
    pub toolchain_inputs: Seq<Text>,
    pub build_arch: Text,
    pub target_arch: Text,
    pub build_system: BuildSystem,
    pub origin: PackageOrigin,
}

impl DeepView for PackageSpec {
    type V = PackageSpecView;

    open spec fn deep_view(&self) -> PackageSpecView {
        PackageSpecView {
            name: self.name@,
            namespace: self.namespace@,
            version: self.version@,
            primary_target_name: self.primary_target_name.deep_view(),
            source_subdir: self.source_subdir.deep_view(),
            lazy: self.lazy,
            system_libs: self.system_libs,
            artifacts: self.artifacts.deep_view(),
            targets: self.targets.deep_view(),
            depends: self.depends.deep_view(),
            fetch: self.fetch.deep_view(),
            git_submodules_recursive: self.git_submodules_recursive,
            configure: self.configure.deep_view(),
            build: self.build.deep_view(),
            install: self.install.deep_view(),
            stage_entries: self.stage_entries.deep_view(),
            build_root: self.build_root.deep_view(),
            toolchain: self.toolchain,
            toolchain_inputs: self.toolchain_inputs.deep_view(),
            build_arch: self.build_arch@,
            target_arch: self.target_arch@,
            build_system: self.build_system,
            origin: self.origin,
        }
    }
}

impl Dup for PackageSpec {
    fn dup(&self) -> (copy: Self) {
        PackageSpec {
            name: self.name.clone(),
            namespace: self.namespace.clone(),
            version: self.version.clone(),
            primary_target_name: self.primary_target_name.dup(),
            source_subdir: self.source_subdir.dup(),
            lazy: self.lazy,
            system_libs: self.system_libs,
            artifacts: self.artifacts.dup(),
            targets: self.targets.dup(),
            depends: self.depends.dup(),
            fetch: self.fetch.dup(),
            git_submodules_recursive: self.git_submodules_recursive,
            configure: self.configure.dup(),
            build: self.build.dup(),
            install: self.install.dup(),
            stage_entries: self.stage_entries.dup(),
            build_root: self.build_root.dup(),
            toolchain: self.toolchain,
            toolchain_inputs: self.toolchain_inputs.dup(),
            build_arch: self.build_arch.clone(),
            target_arch: self.target_arch.clone(),
            build_system: self.build_system,
            origin: self.origin,
        }
    }
}

/// The position of the first target named `name` at or behind `from`.
pub open spec fn target_position(targets: Seq<TargetSpecView>, name: Text, from: int) -> Option<int>
    decreases targets.len() - from,
{
    if from >= targets.len() {
        None
    } else if targets[from].name == name {
        Some(from)
    } else {
        target_position(targets, name, from + 1)
    }
}

/// Finds the first target named `name`.
pub fn find_target(targets: &Vec<TargetSpec>, name: &str) -> (position: Option<usize>)
    ensures
        match position {
            Some(index) => index < targets.len() && target_position(targets.deep_view(), name@, 0)
                == Some(index as int),
            None => target_position(targets.deep_view(), name@, 0) is None,
        },
{
    let mut index: usize = 0;
    while index < targets.len()
        invariant
            index <= targets.len(),
            target_position(targets.deep_view(), name@, 0) == target_position(
                targets.deep_view(),
                name@,
                index as int,
            ),
        decreases targets.len() - index,
    {
        if same(&targets[index].name, name) {
            return Some(index);
        }
        index = index + 1;
    }
    None
}

impl PackageSpecView {
    /// How messages name the package.
    pub open spec fn id(self) -> Text {
        self.name + "["@ + self.namespace + "]@"@ + self.version
    }

    /// What identifies the package whatever its version.
    pub open spec fn key(self) -> PackageKeyView {
        PackageKeyView { name: self.name, namespace: self.namespace }
    }

    /// The position of the target that stands for the package: the one named as primary, else
    /// the first.
    pub open spec fn primary_index(self) -> Option<int> {
        match self.primary_target_name {
            Some(name) => target_position(self.targets, name, 0),
            None => if self.targets.len() > 0 {
                Some(0int)
            } else {
                None
            },
        }
    }

    /// The name of the target that stands for the package.
    pub open spec fn primary(self) -> Option<Text> {
        match self.primary_index() {
            Some(index) => Some(self.targets[index].name),
            None => None,
        }
    }
}

impl PackageRequest {
    pub fn identity_key(&self) -> (key: PackageKey)
        ensures
            key.deep_view() == self.deep_view().key(),
    {
        PackageKey::new(&self.name, &self.namespace)
    }
}

/// Compares what identifies two packages.
pub fn order_keys(a: &PackageKey, b: &PackageKey) -> (order: Order)
    ensures
        order == key_order(a.deep_view(), b.deep_view()),
{
    match order_texts(&a.name, &b.name) {
        Order::Equal => order_texts(&a.namespace, &b.namespace),
        order => order,
    }
}

/// Every path that the package declares as exported, in the order declared.
pub open spec fn declared_paths(targets: Seq<TargetSpecView>) -> Seq<Text>
    decreases targets.len(),
{
    if targets.len() == 0 {
        Seq::empty()
    } else {
        let target = targets.last();
        declared_paths(targets.drop_last()) + target.include_dirs + target.artifacts().map_values(
            |artifact: (TargetKind, Text)| artifact.1,
        )
    }
}

impl PackageSpecView {
    /// The paths that must be in the store once the package is materialized.
    pub open spec fn required(self, platform: HostPlatform) -> Seq<Text> {
        paths::distinct_paths(platform, self.artifacts + declared_paths(self.targets))
    }
}

impl PackageSpec {
    pub fn package_id(&self) -> (id: String)
        ensures
            id@ == self.deep_view().id(),
    {
        cat5(&self.name, "[", &self.namespace, "]@", &self.version)
    }

    pub fn identity_key(&self) -> (key: PackageKey)
        ensures
            key.deep_view() == self.deep_view().key(),
    {
        PackageKey::new(&self.name, &self.namespace)
    }

    pub fn primary_target_index(&self) -> (position: Option<usize>)
        ensures
            match position {
                Some(index) => index < self.targets.len() && self.deep_view().primary_index()
                    == Some(index as int),
                None => self.deep_view().primary_index() is None,
            },
    {
        match &self.primary_target_name {
            Some(name) => find_target(&self.targets, name),
            None => if self.targets.len() > 0 {
                Some(0)
            } else {
                None
            },
        }
    }

    pub fn primary_target(&self) -> (name: Option<String>)
        ensures
            name.deep_view() == self.deep_view().primary(),
    {
        match self.primary_target_index() {
            Some(index) => Some(self.targets[index].name.clone()),
            None => None,
        }
    }

    pub fn required_paths(&self, platform: HostPlatform) -> (result: Vec<String>)
        ensures
            result.deep_view() == self.deep_view().required(platform),
    {
        let mut all = self.artifacts.dup();
        let ghost start = self.artifacts.deep_view();
        let ghost targets = self.targets.deep_view();
        let mut index: usize = 0;
        assert(targets.take(0) == Seq::<TargetSpecView>::empty());
        assert(all.deep_view() == start + declared_paths(targets.take(0)));
        while index < self.targets.len()
            invariant
                index <= self.targets.len(),
                targets == self.targets.deep_view(),
                all.deep_view() == start + declared_paths(targets.take(index as int)),
            decreases self.targets.len() - index,
        {
            let target = &self.targets[index];
            let ghost before = all.deep_view();
            text::put_all(&mut all, &target.include_dirs);
            let ghost included = all.deep_view();
            let artifacts = target.artifact_paths();
            let ghost files = target.deep_view().artifacts().map_values(
                |artifact: (TargetKind, Text)| artifact.1,
            );
            let mut next: usize = 0;
            assert(all.deep_view() == included + files.take(0));
            while next < artifacts.len()
                invariant
                    next <= artifacts.len(),
                    artifacts.deep_view() == target.deep_view().artifacts(),
                    files == target.deep_view().artifacts().map_values(
                        |artifact: (TargetKind, Text)| artifact.1,
                    ),
                    all.deep_view() == included + files.take(next as int),
                decreases artifacts.len() - next,
            {
                text::put(&mut all, artifacts[next].1.clone());
                assert(artifacts.deep_view()[next as int].1 == artifacts[next as int].1@);
                next = next + 1;
                assert(all.deep_view() == included + files.take(next as int));
            }
            assert(files.take(next as int) == files);
            proof {
                let grown = targets.take(index as int + 1);
                assert(grown.drop_last() == targets.take(index as int));
                assert(grown.last() == target.deep_view());
                assert(all.deep_view() == start + declared_paths(grown));
            }
            index = index + 1;
        }
        assert(targets.take(index as int) == targets);
        paths::dedup_paths(platform, &all)
    }
}

} // verus!
