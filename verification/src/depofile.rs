//! DepoFiles: the descriptions that packages are registered with.

use vstd::prelude::*;
use crate::arch;
use crate::arch::normalize_arch_name;
use crate::build_system;
use crate::build_system::{
    default_cmake_cross_configure_args, synthesize_build_system_commands,
    BuildSystemCommandInputs, BuildSystemCommands, CommandInputsView, CommandsView,
};
use crate::directives;
use crate::directives::{depofile_directives, DepofileDirective, DirectiveView};
use crate::failure::{failure, outcome, Failure, Messages};
use crate::grammar;
use crate::grammar::{
    block_body, complain, ensure_empty, expect_single_token, parse_build_system,
    parse_dependency_request, parse_phase_command, parse_stage_entry, parse_target_line,
    parse_target_values_directive, require_build_system,
};
use crate::model;
use crate::model::{
    find_target, BuildRoot, BuildRootView, BuildSystem, FetchSpec, FetchSpecView, PackageOrigin,
    PackageRequest, PackageRequestView, PackageSpec, PackageSpecView, PackageSystemLibs,
    StageEntry, StageEntryView, StageKind, TargetSpec, TargetSpecView, Text, ToolchainSource,
    DEFAULT_NAMESPACE,
};
use crate::names;
use crate::names::ensure_package_name;
use crate::paths;
use crate::paths::{dedup_paths, ensure_relative_confined_path, HostPlatform};
use crate::text;
use crate::text::{
    cat2, cat3, cat4, cat5, cat6, chars_of, decimal, dedup_strings, order_texts, put, put_all,
    same, Dup, Order,
};
use crate::tokens;
use crate::tokens::tokenize_arguments;

verus! {

/// What the directives read so far say of a package.
#[derive(Clone, Debug, PartialEq, Eq)]
pub struct Draft {
    pub name: Option<String>,
    pub version: Option<String>,
    pub primary_target_name: Option<String>,
    pub source_subdir: Option<String>,
    pub lazy: bool,
    pub system_libs: PackageSystemLibs,
    pub artifacts: Vec<String>,
    pub targets: Vec<TargetSpec>,
    pub links: Vec<(String, Vec<String>)>,
    pub definitions: Vec<(String, Vec<String>)>,
    pub options: Vec<(String, Vec<String>)>,
    pub features: Vec<(String, Vec<String>)>,
    pub depends: Vec<PackageRequest>,
    pub fetch: Option<FetchSpec>,
    pub git_submodules_recursive: bool,
    pub stage_entries: Vec<StageEntry>,
    pub build_root: BuildRoot,
    pub toolchain: ToolchainSource,
    pub toolchain_inputs: Vec<String>,
    pub build_arch: String,
    pub target_arch: String,
    pub build_system: Option<BuildSystem>,
    pub build_system_line: usize,
    pub args: Vec<String>,
    pub defines: Vec<String>,
    pub build_args: Vec<String>,
    pub install_args: Vec<String>,
    pub skip_configure: bool,
    pub configure_direct: Option<Vec<String>>,
    pub build_direct: Option<Vec<String>>,
    pub install_direct: Option<Vec<String>>,
    pub configure_script: Option<String>,
    pub build_script: Option<String>,
    pub install_script: Option<String>,
}

/// The model of [`Draft`].
pub struct DraftView {
    pub name: Option<Text>,
    pub version: Option<Text>,
    pub primary_target_name: Option<Text>,
    pub source_subdir: Option<Text>,
    pub lazy: bool,
    pub system_libs: PackageSystemLibs,
    pub artifacts: Seq<Text>,
    pub targets: Seq<TargetSpecView>,
    pub links: Seq<(Text, Seq<Text>)>,
    pub definitions: Seq<(Text, Seq<Text>)>,
    pub options: Seq<(Text, Seq<Text>)>,
    pub features: Seq<(Text, Seq<Text>)>,
    pub depends: Seq<PackageRequestView>,
    pub fetch: Option<FetchSpecView>,
    pub git_submodules_recursive: bool,
    pub stage_entries: Seq<StageEntryView>,
    pub build_root: BuildRootView,
    pub toolchain: ToolchainSource,
    pub toolchain_inputs: Seq<Text>,
    pub build_arch: Text,
    pub target_arch: Text,
    pub build_system: Option<BuildSystem>,
    pub build_system_line: nat,
    pub args: Seq<Text>,
    pub defines: Seq<Text>,
    pub build_args: Seq<Text>,
    pub install_args: Seq<Text>,
    pub skip_configure: bool,
    pub configure_direct: Option<Seq<Text>>,
    pub build_direct: Option<Seq<Text>>,
    pub install_direct: Option<Seq<Text>>,
    pub configure_script: Option<Text>,
    pub build_script: Option<Text>,
    pub install_script: Option<Text>,
}

impl DeepView for Draft {
    type V = DraftView;

    open spec fn deep_view(&self) -> DraftView {
        DraftView {
            name: self.name.deep_view(),
            version: self.version.deep_view(),
            primary_target_name: self.primary_target_name.deep_view(),
            source_subdir: self.source_subdir.deep_view(),
            lazy: self.lazy,
            system_libs: self.system_libs,
            artifacts: self.artifacts.deep_view(),
            targets: self.targets.deep_view(),
            links: self.links.deep_view(),
            definitions: self.definitions.deep_view(),
            options: self.options.deep_view(),
            features: self.features.deep_view(),
            depends: self.depends.deep_view(),
            fetch: self.fetch.deep_view(),
            git_submodules_recursive: self.git_submodules_recursive,
            stage_entries: self.stage_entries.deep_view(),
            build_root: self.build_root.deep_view(),
            toolchain: self.toolchain,
            toolchain_inputs: self.toolchain_inputs.deep_view(),
            build_arch: self.build_arch@,
            target_arch: self.target_arch@,
            build_system: self.build_system,
            build_system_line: self.build_system_line as nat,
            args: self.args.deep_view(),
            defines: self.defines.deep_view(),
            build_args: self.build_args.deep_view(),
            install_args: self.install_args.deep_view(),
            skip_configure: self.skip_configure,
            configure_direct: self.configure_direct.deep_view(),
            build_direct: self.build_direct.deep_view(),
            install_direct: self.install_direct.deep_view(),
            configure_script: self.configure_script.deep_view(),
            build_script: self.build_script.deep_view(),
            install_script: self.install_script.deep_view(),
        }
    }
}

/// The state before the first directive, on a host of architecture `host`.
pub open spec fn blank(host: Text) -> DraftView {
    DraftView {
        name: None,
        version: None,
        primary_target_name: None,
        source_subdir: None,
        lazy: false,
        system_libs: PackageSystemLibs::Inherit,
        artifacts: Seq::empty(),
        targets: Seq::empty(),
        links: Seq::empty(),
        definitions: Seq::empty(),
        options: Seq::empty(),
        features: Seq::empty(),
        depends: Seq::empty(),
        fetch: None,
        git_submodules_recursive: false,
        stage_entries: Seq::empty(),
        build_root: BuildRootView::System,
        toolchain: ToolchainSource::System,
        toolchain_inputs: Seq::empty(),
        build_arch: host,
        target_arch: host,
        build_system: None,
        build_system_line: 0,
        args: Seq::empty(),
        defines: Seq::empty(),
        build_args: Seq::empty(),
        install_args: Seq::empty(),
        skip_configure: false,
        configure_direct: None,
        build_direct: None,
        install_direct: None,
        configure_script: None,
        build_script: None,
        install_script: None,
    }
}

fn blank_draft(host: &str) -> (draft: Draft)
    ensures
        draft.deep_view() == blank(host@),
{
    let draft = Draft {
        name: None,
        version: None,
        primary_target_name: None,
        source_subdir: None,
        lazy: false,
        system_libs: PackageSystemLibs::Inherit,
        artifacts: Vec::new(),
        targets: Vec::new(),
        links: Vec::new(),
        definitions: Vec::new(),
        options: Vec::new(),
        features: Vec::new(),
        depends: Vec::new(),
        fetch: None,
        git_submodules_recursive: false,
        stage_entries: Vec::new(),
        build_root: BuildRoot::System,
        toolchain: ToolchainSource::System,
        toolchain_inputs: Vec::new(),
        build_arch: host.to_owned(),
        target_arch: host.to_owned(),
        build_system: None,
        build_system_line: 0,
        args: Vec::new(),
        defines: Vec::new(),
        build_args: Vec::new(),
        install_args: Vec::new(),
        skip_configure: false,
        configure_direct: None,
        build_direct: None,
        install_direct: None,
        configure_script: None,
        build_script: None,
        install_script: None,
    };
    assert(draft.artifacts.deep_view() == Seq::<Text>::empty());
    assert(draft.targets.deep_view() == Seq::<TargetSpecView>::empty());
    assert(draft.links.deep_view() == Seq::<(Text, Seq<Text>)>::empty());
    assert(draft.definitions.deep_view() == Seq::<(Text, Seq<Text>)>::empty());
    assert(draft.options.deep_view() == Seq::<(Text, Seq<Text>)>::empty());
    assert(draft.features.deep_view() == Seq::<(Text, Seq<Text>)>::empty());
    assert(draft.depends.deep_view() == Seq::<PackageRequestView>::empty());
    assert(draft.stage_entries.deep_view() == Seq::<StageEntryView>::empty());
    assert(draft.toolchain_inputs.deep_view() == Seq::<Text>::empty());
    assert(draft.args.deep_view() == Seq::<Text>::empty());
    assert(draft.defines.deep_view() == Seq::<Text>::empty());
    assert(draft.build_args.deep_view() == Seq::<Text>::empty());
    assert(draft.install_args.deep_view() == Seq::<Text>::empty());
    draft
}

/// What a build system's own directive sets.
#[derive(Clone, Copy, Debug, PartialEq, Eq, Structural)]
pub enum Slot {
    Arg,
    Define,
    BuildArg,
    InstallArg,
    SkipConfigure,
    Configure,
    Build,
    Install,
    ConfigureScript,
    BuildScript,
    InstallScript,
}

/// The build system that a directive belongs to and what it sets there; none for the
/// directives that every package may use.
pub open spec fn hook_of(keyword: Text) -> Option<(BuildSystem, Slot)> {
    if keyword == "CMAKE_ARG"@ {
        Some((BuildSystem::Cmake, Slot::Arg))
    } else if keyword == "CMAKE_DEFINE"@ {
        Some((BuildSystem::Cmake, Slot::Define))
    } else if keyword == "MESON_ARG"@ {
        Some((BuildSystem::Meson, Slot::Arg))
    } else if keyword == "MESON_DEFINE"@ {
        Some((BuildSystem::Meson, Slot::Define))
    } else if keyword == "AUTOCONF_ARG"@ {
        Some((BuildSystem::Autoconf, Slot::Arg))
    } else if keyword == "AUTOCONF_SKIP_CONFIGURE"@ {
        Some((BuildSystem::Autoconf, Slot::SkipConfigure))
    } else if keyword == "CARGO_BUILD_ARG"@ {
        Some((BuildSystem::Cargo, Slot::BuildArg))
    } else if keyword == "CARGO_INSTALL_ARG"@ {
        Some((BuildSystem::Cargo, Slot::InstallArg))
    } else if keyword == "CMAKE_CONFIGURE_SH"@ {
        Some((BuildSystem::Cmake, Slot::ConfigureScript))
    } else if keyword == "CMAKE_CONFIGURE"@ {
        Some((BuildSystem::Cmake, Slot::Configure))
    } else if keyword == "CMAKE_BUILD_SH"@ {
        Some((BuildSystem::Cmake, Slot::BuildScript))
    } else if keyword == "CMAKE_BUILD"@ {
        Some((BuildSystem::Cmake, Slot::Build))
    } else if keyword == "CMAKE_INSTALL_SH"@ {
        Some((BuildSystem::Cmake, Slot::InstallScript))
    } else if keyword == "CMAKE_INSTALL"@ {
        Some((BuildSystem::Cmake, Slot::Install))
    } else if keyword == "MESON_SETUP_SH"@ {
        Some((BuildSystem::Meson, Slot::ConfigureScript))
    } else if keyword == "MESON_SETUP"@ {
        Some((BuildSystem::Meson, Slot::Configure))
    } else if keyword == "MESON_COMPILE_SH"@ {
        Some((BuildSystem::Meson, Slot::BuildScript))
    } else if keyword == "MESON_COMPILE"@ {
        Some((BuildSystem::Meson, Slot::Build))
    } else if keyword == "MESON_INSTALL_SH"@ {
        Some((BuildSystem::Meson, Slot::InstallScript))
    } else if keyword == "MESON_INSTALL"@ {
        Some((BuildSystem::Meson, Slot::Install))
    } else if keyword == "AUTOCONF_CONFIGURE_SH"@ {
        Some((BuildSystem::Autoconf, Slot::ConfigureScript))
    } else if keyword == "AUTOCONF_CONFIGURE"@ {
        Some((BuildSystem::Autoconf, Slot::Configure))
    } else if keyword == "AUTOCONF_BUILD_SH"@ {
        Some((BuildSystem::Autoconf, Slot::BuildScript))
    } else if keyword == "AUTOCONF_BUILD"@ {
        Some((BuildSystem::Autoconf, Slot::Build))
    } else if keyword == "AUTOCONF_INSTALL_SH"@ {
        Some((BuildSystem::Autoconf, Slot::InstallScript))
    } else if keyword == "AUTOCONF_INSTALL"@ {
        Some((BuildSystem::Autoconf, Slot::Install))
    } else if keyword == "CARGO_BUILD_SH"@ {
        Some((BuildSystem::Cargo, Slot::BuildScript))
    } else if keyword == "CARGO_BUILD"@ {
        Some((BuildSystem::Cargo, Slot::Build))
    } else if keyword == "CARGO_INSTALL_SH"@ {
        Some((BuildSystem::Cargo, Slot::InstallScript))
    } else if keyword == "CARGO_INSTALL"@ {
        Some((BuildSystem::Cargo, Slot::Install))
    } else if keyword == "MANUAL_PREPARE_SH"@ {
        Some((BuildSystem::Manual, Slot::ConfigureScript))
    } else if keyword == "MANUAL_PREPARE"@ {
        Some((BuildSystem::Manual, Slot::Configure))
    } else if keyword == "MANUAL_BUILD_SH"@ {
        Some((BuildSystem::Manual, Slot::BuildScript))
    } else if keyword == "MANUAL_BUILD"@ {
        Some((BuildSystem::Manual, Slot::Build))
    } else if keyword == "MANUAL_INSTALL_SH"@ {
        Some((BuildSystem::Manual, Slot::InstallScript))
    } else if keyword == "MANUAL_INSTALL"@ {
        Some((BuildSystem::Manual, Slot::Install))
    } else {
        None
    }
}

fn find_hook(keyword: &str) -> (hook: Option<(BuildSystem, Slot)>)
    ensures
        hook == hook_of(keyword@),
{
    if same(keyword, "CMAKE_ARG") {
        Some((BuildSystem::Cmake, Slot::Arg))
    } else if same(keyword, "CMAKE_DEFINE") {
        Some((BuildSystem::Cmake, Slot::Define))
    } else if same(keyword, "MESON_ARG") {
        Some((BuildSystem::Meson, Slot::Arg))
    } else if same(keyword, "MESON_DEFINE") {
        Some((BuildSystem::Meson, Slot::Define))
    } else if same(keyword, "AUTOCONF_ARG") {
        Some((BuildSystem::Autoconf, Slot::Arg))
    } else if same(keyword, "AUTOCONF_SKIP_CONFIGURE") {
        Some((BuildSystem::Autoconf, Slot::SkipConfigure))
    } else if same(keyword, "CARGO_BUILD_ARG") {
        Some((BuildSystem::Cargo, Slot::BuildArg))
    } else if same(keyword, "CARGO_INSTALL_ARG") {
        Some((BuildSystem::Cargo, Slot::InstallArg))
    } else if same(keyword, "CMAKE_CONFIGURE_SH") {
        Some((BuildSystem::Cmake, Slot::ConfigureScript))
    } else if same(keyword, "CMAKE_CONFIGURE") {
        Some((BuildSystem::Cmake, Slot::Configure))
    } else if same(keyword, "CMAKE_BUILD_SH") {
        Some((BuildSystem::Cmake, Slot::BuildScript))
    } else if same(keyword, "CMAKE_BUILD") {
        Some((BuildSystem::Cmake, Slot::Build))
    } else if same(keyword, "CMAKE_INSTALL_SH") {
        Some((BuildSystem::Cmake, Slot::InstallScript))
    } else if same(keyword, "CMAKE_INSTALL") {
        Some((BuildSystem::Cmake, Slot::Install))
    } else if same(keyword, "MESON_SETUP_SH") {
        Some((BuildSystem::Meson, Slot::ConfigureScript))
    } else if same(keyword, "MESON_SETUP") {
        Some((BuildSystem::Meson, Slot::Configure))
    } else if same(keyword, "MESON_COMPILE_SH") {
        Some((BuildSystem::Meson, Slot::BuildScript))
    } else if same(keyword, "MESON_COMPILE") {
        Some((BuildSystem::Meson, Slot::Build))
    } else if same(keyword, "MESON_INSTALL_SH") {
        Some((BuildSystem::Meson, Slot::InstallScript))
    } else if same(keyword, "MESON_INSTALL") {
        Some((BuildSystem::Meson, Slot::Install))
    } else if same(keyword, "AUTOCONF_CONFIGURE_SH") {
        Some((BuildSystem::Autoconf, Slot::ConfigureScript))
    } else if same(keyword, "AUTOCONF_CONFIGURE") {
        Some((BuildSystem::Autoconf, Slot::Configure))
    } else if same(keyword, "AUTOCONF_BUILD_SH") {
        Some((BuildSystem::Autoconf, Slot::BuildScript))
    } else if same(keyword, "AUTOCONF_BUILD") {
        Some((BuildSystem::Autoconf, Slot::Build))
    } else if same(keyword, "AUTOCONF_INSTALL_SH") {
        Some((BuildSystem::Autoconf, Slot::InstallScript))
    } else if same(keyword, "AUTOCONF_INSTALL") {
        Some((BuildSystem::Autoconf, Slot::Install))
    } else if same(keyword, "CARGO_BUILD_SH") {
        Some((BuildSystem::Cargo, Slot::BuildScript))
    } else if same(keyword, "CARGO_BUILD") {
        Some((BuildSystem::Cargo, Slot::Build))
    } else if same(keyword, "CARGO_INSTALL_SH") {
        Some((BuildSystem::Cargo, Slot::InstallScript))
    } else if same(keyword, "CARGO_INSTALL") {
        Some((BuildSystem::Cargo, Slot::Install))
    } else if same(keyword, "MANUAL_PREPARE_SH") {
        Some((BuildSystem::Manual, Slot::ConfigureScript))
    } else if same(keyword, "MANUAL_PREPARE") {
        Some((BuildSystem::Manual, Slot::Configure))
    } else if same(keyword, "MANUAL_BUILD_SH") {
        Some((BuildSystem::Manual, Slot::BuildScript))
    } else if same(keyword, "MANUAL_BUILD") {
        Some((BuildSystem::Manual, Slot::Build))
    } else if same(keyword, "MANUAL_INSTALL_SH") {
        Some((BuildSystem::Manual, Slot::InstallScript))
    } else if same(keyword, "MANUAL_INSTALL") {
        Some((BuildSystem::Manual, Slot::Install))
    } else {
        None
    }
}

/// The draft after a build system's own directive.
pub open spec fn hook_step(
    path: Text,
    draft: DraftView,
    d: DirectiveView,
    system: BuildSystem,
    slot: Slot,
) -> Result<DraftView, Messages> {
    let line = d.line_number;
    match grammar::system_check(path, line, d.keyword, draft.build_system, system) {
        Err(messages) => Err(messages),
        Ok(_) => match slot {
            Slot::SkipConfigure => match grammar::no_arguments(
                path,
                line,
                d.keyword,
                d.remainder,
            ) {
                Err(messages) => Err(messages),
                Ok(_) => Ok(DraftView { skip_configure: true, ..draft }),
            },
            Slot::Arg | Slot::Define | Slot::BuildArg | Slot::InstallArg => match grammar::single_token(
                path,
                line,
                d.keyword,
                d.remainder,
            ) {
                Err(messages) => Err(messages),
                Ok(value) => Ok(
                    match slot {
                        Slot::Arg => DraftView { args: draft.args.push(value), ..draft },
                        Slot::Define => DraftView { defines: draft.defines.push(value), ..draft },
                        Slot::BuildArg => DraftView {
                            build_args: draft.build_args.push(value),
                            ..draft
                        },
                        _ => DraftView { install_args: draft.install_args.push(value), ..draft },
                    },
                ),
            },
            Slot::Configure | Slot::Build | Slot::Install => match grammar::phase_command(
                path,
                line,
                d.keyword,
                d.remainder,
            ) {
                Err(messages) => Err(messages),
                Ok(command) => Ok(
                    match slot {
                        Slot::Configure => DraftView { configure_direct: Some(command), ..draft },
                        Slot::Build => DraftView { build_direct: Some(command), ..draft },
                        _ => DraftView { install_direct: Some(command), ..draft },
                    },
                ),
            },
            _ => match grammar::required_block(path, line, d.keyword, d.block) {
                Err(messages) => Err(messages),
                Ok(script) => Ok(
                    match slot {
                        Slot::ConfigureScript => DraftView {
                            configure_script: Some(script),
                            ..draft
                        },
                        Slot::BuildScript => DraftView { build_script: Some(script), ..draft },
                        _ => DraftView { install_script: Some(script), ..draft },
                    },
                ),
            },
        },
    }
}

impl Draft {
    /// Takes in a build system's own directive.
    fn apply_hook(
        self,
        path: &str,
        d: &DepofileDirective,
        system: BuildSystem,
        slot: Slot,
    ) -> (result: Result<Draft, Failure>)
        ensures
            outcome(result) == hook_step(
                path@,
                self.deep_view(),
                d.deep_view(),
                system,
                slot,
            ),
    {
        let mut draft = self;
        let line = d.line_number;
        let keyword: &str = d.keyword.as_str();
        require_build_system(path, line, keyword, draft.build_system, system)?;
        match slot {
            Slot::SkipConfigure => {
                ensure_empty(path, line, keyword, &d.remainder)?;
                draft.skip_configure = true;
            },
            Slot::Arg => {
                let value = expect_single_token(path, line, keyword, &d.remainder)?;
                put(&mut draft.args, value);
            },
            Slot::Define => {
                let value = expect_single_token(path, line, keyword, &d.remainder)?;
                put(&mut draft.defines, value);
            },
            Slot::BuildArg => {
                let value = expect_single_token(path, line, keyword, &d.remainder)?;
                put(&mut draft.build_args, value);
            },
            Slot::InstallArg => {
                let value = expect_single_token(path, line, keyword, &d.remainder)?;
                put(&mut draft.install_args, value);
            },
            Slot::Configure => {
                draft.configure_direct = Some(
                    parse_phase_command(path, line, keyword, &d.remainder)?,
                );
            },
            Slot::Build => {
                draft.build_direct = Some(parse_phase_command(path, line, keyword, &d.remainder)?);
            },
            Slot::Install => {
                draft.install_direct = Some(parse_phase_command(path, line, keyword, &d.remainder)?);
            },
            Slot::ConfigureScript => {
                draft.configure_script = Some(block_body(path, line, keyword, &d.block)?);
            },
            Slot::BuildScript => {
                draft.build_script = Some(block_body(path, line, keyword, &d.block)?);
            },
            Slot::InstallScript => {
                draft.install_script = Some(block_body(path, line, keyword, &d.block)?);
            },
        }
        Ok(draft)
    }
}

/// An ASCII hexadecimal digit.
pub open spec fn is_hex_digit(c: char) -> bool {
    ('0' <= c <= '9') || ('a' <= c <= 'f') || ('A' <= c <= 'F')
}

/// Sixty-four hexadecimal digits.
pub open spec fn is_sha256(value: Text) -> bool {
    value.len() == 64 && forall|i: int| 0 <= i < value.len() ==> is_hex_digit(#[trigger] value[i])
}

fn looks_like_sha256(value: &str) -> (yes: bool)
    ensures
        yes == is_sha256(value@),
{
    let chars = chars_of(value);
    if chars.len() != 64 {
        return false;
    }
    let mut index: usize = 0;
    while index < chars.len()
        invariant
            chars@ == value@,
            index <= chars.len(),
            forall|i: int| 0 <= i < index ==> is_hex_digit(#[trigger] value@[i]),
        decreases chars.len() - index,
    {
        let c = chars[index];
        if !(('0' <= c && c <= '9') || ('a' <= c && c <= 'f') || ('A' <= c && c <= 'F')) {
            assert(!is_hex_digit(value@[index as int]));
            return false;
        }
        index = index + 1;
    }
    true
}

/// A directive about the sources of a package.
pub open spec fn is_source_keyword(keyword: Text) -> bool {
    keyword == "SOURCE"@ || keyword == "SHA256"@ || keyword == "GIT_SUBMODULES"@
}

/// The place that a SOURCE directive names.
pub open spec fn fetch_named(path: Text, line: nat, remainder: Text) -> Result<
    FetchSpecView,
    Messages,
> {
    match tokens::tokens_of(remainder) {
        Err(messages) => Err(messages),
        Ok(parts) => if parts.len() == 2 && parts[0] == "URL"@ {
            Ok(FetchSpecView::Url { url: parts[1], sha256: None })
        } else if parts.len() == 2 && parts[0] == "GIT"@ {
            Ok(FetchSpecView::Git { url: parts[1], reference: "HEAD"@ })
        } else if parts.len() == 3 && parts[0] == "GIT"@ {
            Ok(FetchSpecView::Git { url: parts[1], reference: parts[2] })
        } else {
            grammar::complaint(
                path,
                line,
                ": SOURCE requires 'URL <url>' or 'GIT <url> [branch|tag|commit]'"@,
            )
        },
    }
}

fn parse_fetch(path: &str, line_number: usize, remainder: &str) -> (result: Result<
    FetchSpec,
    Failure,
>)
    ensures
        outcome(result) == fetch_named(path@, line_number as nat, remainder@),
{
    let parts = tokenize_arguments(remainder)?;
    if parts.len() == 2 && same(&parts[0], "URL") {
        Ok(FetchSpec::Url { url: parts[1].clone(), sha256: None })
    } else if parts.len() == 2 && same(&parts[0], "GIT") {
        Ok(FetchSpec::Git { url: parts[1].clone(), reference: "HEAD".to_owned() })
    } else if parts.len() == 3 && same(&parts[0], "GIT") {
        Ok(FetchSpec::Git { url: parts[1].clone(), reference: parts[2].clone() })
    } else {
        Err(
            complain(
                path,
                line_number,
                ": SOURCE requires 'URL <url>' or 'GIT <url> [branch|tag|commit]'",
            ),
        )
    }
}

/// The draft after a directive about the sources.
pub open spec fn source_step(path: Text, draft: DraftView, d: DirectiveView) -> Result<
    DraftView,
    Messages,
> {
    let line = d.line_number;
    if d.keyword == "SOURCE"@ {
        match fetch_named(path, line, d.remainder) {
            Err(messages) => Err(messages),
            Ok(fetch) => Ok(DraftView { fetch: Some(fetch), ..draft }),
        }
    } else {
        match grammar::single_token(path, line, d.keyword, d.remainder) {
            Err(messages) => Err(messages),
            Ok(value) => if d.keyword == "SHA256"@ {
                if !is_sha256(value) {
                    grammar::complaint(path, line, ": SHA256 must be a 64-character hex digest"@)
                } else {
                    match draft.fetch {
                        Some(FetchSpecView::Url { url, sha256 }) => Ok(
                            DraftView {
                                fetch: Some(FetchSpecView::Url { url, sha256: Some(value) }),
                                ..draft
                            },
                        ),
                        Some(FetchSpecView::Git { url, reference }) => grammar::complaint(
                            path,
                            line,
                            ": SHA256 is only valid for SOURCE URL"@,
                        ),
                        None => grammar::complaint(
                            path,
                            line,
                            ": SHA256 requires a preceding SOURCE URL"@,
                        ),
                    }
                }
            } else if value == "RECURSIVE"@ {
                match draft.fetch {
                    Some(FetchSpecView::Git { url, reference }) => Ok(
                        DraftView { git_submodules_recursive: true, ..draft },
                    ),
                    Some(FetchSpecView::Url { url, sha256 }) => grammar::complaint(
                        path,
                        line,
                        ": GIT_SUBMODULES requires a preceding SOURCE GIT, not SOURCE URL"@,
                    ),
                    None => grammar::complaint(
                        path,
                        line,
                        ": GIT_SUBMODULES requires a preceding SOURCE GIT"@,
                    ),
                }
            } else {
                grammar::complaint(path, line, ": GIT_SUBMODULES requires RECURSIVE"@)
            },
        }
    }
}

/// A directive about what a package exports.
pub open spec fn is_target_keyword(keyword: Text) -> bool {
    keyword == "ARTIFACT"@ || keyword == "TARGET"@ || keyword == "PRIMARY_TARGET"@ || keyword
        == "LINK"@ || keyword == "DEFINES"@ || keyword == "OPTIONS"@ || keyword == "FEATURES"@
}

/// How LINK, DEFINES, OPTIONS and FEATURES must look.
pub open spec fn values_usage(keyword: Text) -> Text {
    if keyword == "LINK"@ {
        ": LINK requires '<target> <item>...'"@
    } else {
        ": "@ + keyword + " requires '<target> <value>...'"@
    }
}

/// The draft after a directive about the exports.
pub open spec fn target_step(path: Text, draft: DraftView, d: DirectiveView) -> Result<
    DraftView,
    Messages,
> {
    let line = d.line_number;
    if d.keyword == "ARTIFACT"@ {
        match grammar::single_token(path, line, d.keyword, d.remainder) {
            Err(messages) => Err(messages),
            Ok(value) => Ok(DraftView { artifacts: draft.artifacts.push(value), ..draft }),
        }
    } else if d.keyword == "TARGET"@ {
        match grammar::target_line(path, line, d.remainder, draft.targets) {
            Err(messages) => Err(messages),
            Ok(targets) => Ok(DraftView { targets, ..draft }),
        }
    } else if d.keyword == "PRIMARY_TARGET"@ {
        match grammar::single_token(path, line, d.keyword, d.remainder) {
            Err(messages) => Err(messages),
            Ok(value) => if draft.primary_target_name is Some {
                grammar::complaint(path, line, ": PRIMARY_TARGET is already set"@)
            } else {
                Ok(DraftView { primary_target_name: Some(value), ..draft })
            },
        }
    } else {
        match grammar::target_values(path, line, d.remainder, values_usage(d.keyword)) {
            Err(messages) => Err(messages),
            Ok(entry) => Ok(
                if d.keyword == "LINK"@ {
                    DraftView { links: draft.links.push(entry), ..draft }
                } else if d.keyword == "DEFINES"@ {
                    DraftView { definitions: draft.definitions.push(entry), ..draft }
                } else if d.keyword == "OPTIONS"@ {
                    DraftView { options: draft.options.push(entry), ..draft }
                } else {
                    DraftView { features: draft.features.push(entry), ..draft }
                },
            ),
        }
    }
}

/// A directive about how a package is built.
pub open spec fn is_build_keyword(keyword: Text) -> bool {
    keyword == "BUILD_SYSTEM"@ || keyword == "STAGE_FILE"@ || keyword == "STAGE_TREE"@ || keyword
        == "BUILD_ROOT"@ || keyword == "TOOLCHAIN"@ || keyword == "TOOLCHAIN_INPUT"@ || keyword
        == "BUILD_ARCH"@ || keyword == "TARGET_ARCH"@
}

/// The file system that a BUILD_ROOT directive names.
pub open spec fn root_named(path: Text, line: nat, remainder: Text) -> Result<
    BuildRootView,
    Messages,
> {
    match tokens::tokens_of(remainder) {
        Err(messages) => Err(messages),
        Ok(parts) => if parts.len() == 1 && parts[0] == "SYSTEM"@ {
            Ok(BuildRootView::System)
        } else if parts.len() == 1 && parts[0] == "SCRATCH"@ {
            Ok(BuildRootView::Scratch)
        } else if parts.len() == 2 && parts[0] == "OCI"@ {
            Ok(BuildRootView::Oci(parts[1]))
        } else {
            grammar::complaint(
                path,
                line,
                ": BUILD_ROOT requires 'SYSTEM', 'SCRATCH', or 'OCI <ref>'"@,
            )
        },
    }
}

fn parse_build_root(path: &str, line_number: usize, remainder: &str) -> (result: Result<
    BuildRoot,
    Failure,
>)
    ensures
        outcome(result) == root_named(path@, line_number as nat, remainder@),
{
    let parts = tokenize_arguments(remainder)?;
    if parts.len() == 1 && same(&parts[0], "SYSTEM") {
        Ok(BuildRoot::System)
    } else if parts.len() == 1 && same(&parts[0], "SCRATCH") {
        Ok(BuildRoot::Scratch)
    } else if parts.len() == 2 && same(&parts[0], "OCI") {
        Ok(BuildRoot::Oci(parts[1].clone()))
    } else {
        Err(
            complain(
                path,
                line_number,
                ": BUILD_ROOT requires 'SYSTEM', 'SCRATCH', or 'OCI <ref>'",
            ),
        )
    }
}

/// The draft after a directive about the build.
pub open spec fn build_step(path: Text, draft: DraftView, d: DirectiveView) -> Result<
    DraftView,
    Messages,
> {
    let line = d.line_number;
    if d.keyword == "BUILD_SYSTEM"@ {
        match grammar::selected_system(path, line, d.remainder) {
            Err(messages) => Err(messages),
            Ok(selected) => match draft.build_system {
                Some(existing) => grammar::complaint(
                    path,
                    line,
                    ": BUILD_SYSTEM is already set to "@ + existing.word() + " at line "@
                        + text::numeral(draft.build_system_line),
                ),
                None => Ok(
                    DraftView { build_system: Some(selected), build_system_line: line, ..draft },
                ),
            },
        }
    } else if d.keyword == "STAGE_FILE"@ || d.keyword == "STAGE_TREE"@ {
        let kind = if d.keyword == "STAGE_FILE"@ {
            StageKind::File
        } else {
            StageKind::Tree
        };
        match grammar::stage_entry(path, line, d.remainder, kind) {
            Err(messages) => Err(messages),
            Ok(entry) => Ok(DraftView { stage_entries: draft.stage_entries.push(entry), ..draft }),
        }
    } else if d.keyword == "BUILD_ROOT"@ {
        match root_named(path, line, d.remainder) {
            Err(messages) => Err(messages),
            Ok(build_root) => Ok(DraftView { build_root, ..draft }),
        }
    } else {
        match grammar::single_token(path, line, d.keyword, d.remainder) {
            Err(messages) => Err(messages),
            Ok(value) => if d.keyword == "TOOLCHAIN"@ {
                if value == "SYSTEM"@ {
                    Ok(DraftView { toolchain: ToolchainSource::System, ..draft })
                } else if value == "ROOTFS"@ {
                    Ok(DraftView { toolchain: ToolchainSource::Rootfs, ..draft })
                } else {
                    grammar::complaint(path, line, ": TOOLCHAIN requires 'SYSTEM' or 'ROOTFS'"@)
                }
            } else if d.keyword == "TOOLCHAIN_INPUT"@ {
                Ok(DraftView { toolchain_inputs: draft.toolchain_inputs.push(value), ..draft })
            } else {
                match arch::arch_named(value) {
                    Err(messages) => Err(messages),
                    Ok(name) => Ok(
                        if d.keyword == "BUILD_ARCH"@ {
                            DraftView { build_arch: name, ..draft }
                        } else {
                            DraftView { target_arch: name, ..draft }
                        },
                    ),
                }
            },
        }
    }
}

/// The draft after a directive about the package itself; a directive that no package knows is
/// refused here.
pub open spec fn package_step(path: Text, draft: DraftView, d: DirectiveView) -> Result<
    DraftView,
    Messages,
> {
    let line = d.line_number;
    let value = grammar::single_token(path, line, d.keyword, d.remainder);
    if d.keyword == "NAME"@ {
        match value {
            Err(messages) => Err(messages),
            Ok(name) => match names::package_name_check(name) {
                Err(messages) => Err(messages),
                Ok(_) => Ok(DraftView { name: Some(name), ..draft }),
            },
        }
    } else if d.keyword == "NAMESPACE"@ {
        grammar::complaint(
            path,
            line,
            ": NAMESPACE is assigned when the DepoFile is registered; use `depos register --namespace ...` instead"@,
        )
    } else if d.keyword == "VERSION"@ {
        match value {
            Err(messages) => Err(messages),
            Ok(version) => Ok(DraftView { version: Some(version), ..draft }),
        }
    } else if d.keyword == "SOURCE_SUBDIR"@ {
        match value {
            Err(messages) => Err(messages),
            Ok(subdir) => Ok(DraftView { source_subdir: Some(subdir), ..draft }),
        }
    } else if d.keyword == "LAZY"@ {
        match grammar::no_arguments(path, line, d.keyword, d.remainder) {
            Err(messages) => Err(messages),
            Ok(_) => Ok(DraftView { lazy: true, ..draft }),
        }
    } else if d.keyword == "SYSTEM_LIBS"@ {
        match value {
            Err(messages) => Err(messages),
            Ok(word) => match PackageSystemLibs::read(word) {
                Err(messages) => Err(messages),
                Ok(system_libs) => Ok(DraftView { system_libs, ..draft }),
            },
        }
    } else if d.keyword == "DEPENDS"@ {
        match grammar::dependency_request(path, line, d.remainder, DEFAULT_NAMESPACE@) {
            Err(messages) => Err(messages),
            Ok(request) => Ok(DraftView { depends: draft.depends.push(request), ..draft }),
        }
    } else {
        grammar::complaint(
            path,
            line,
            ": unsupported DepoFile directive '"@ + d.keyword + "'"@,
        )
    }
}

/// The draft after one more directive.
pub open spec fn step(path: Text, draft: DraftView, d: DirectiveView) -> Result<
    DraftView,
    Messages,
> {
    match hook_of(d.keyword) {
        Some((system, slot)) => hook_step(path, draft, d, system, slot),
        None => if is_source_keyword(d.keyword) {
            source_step(path, draft, d)
        } else if is_target_keyword(d.keyword) {
            target_step(path, draft, d)
        } else if is_build_keyword(d.keyword) {
            build_step(path, draft, d)
        } else {
            package_step(path, draft, d)
        },
    }
}

impl Draft {
    /// Takes in a directive about the sources.
    fn apply_source(self, path: &str, d: &DepofileDirective) -> (result: Result<Draft, Failure>)
        requires
            is_source_keyword(d.keyword@),
        ensures
            outcome(result) == source_step(path@, self.deep_view(), d.deep_view()),
    {
        let line = d.line_number;
        let keyword: &str = d.keyword.as_str();
        if same(keyword, "SOURCE") {
            let fetch = parse_fetch(path, line, &d.remainder)?;
            return Ok(Draft { fetch: Some(fetch), ..self });
        }
        let value = expect_single_token(path, line, keyword, &d.remainder)?;
        if same(keyword, "SHA256") {
            if !looks_like_sha256(&value) {
                return Err(complain(path, line, ": SHA256 must be a 64-character hex digest"));
            }
            match self.fetch {
                Some(FetchSpec::Url { url, sha256 }) => Ok(
                    Draft { fetch: Some(FetchSpec::Url { url, sha256: Some(value) }), ..self },
                ),
                Some(FetchSpec::Git { url, reference }) => Err(
                    complain(path, line, ": SHA256 is only valid for SOURCE URL"),
                ),
                None => Err(complain(path, line, ": SHA256 requires a preceding SOURCE URL")),
            }
        } else if same(&value, "RECURSIVE") {
            match &self.fetch {
                Some(FetchSpec::Git { url, reference }) => Ok(
                    Draft { git_submodules_recursive: true, ..self },
                ),
                Some(FetchSpec::Url { url, sha256 }) => Err(
                    complain(
                        path,
                        line,
                        ": GIT_SUBMODULES requires a preceding SOURCE GIT, not SOURCE URL",
                    ),
                ),
                None => Err(
                    complain(path, line, ": GIT_SUBMODULES requires a preceding SOURCE GIT"),
                ),
            }
        } else {
            Err(complain(path, line, ": GIT_SUBMODULES requires RECURSIVE"))
        }
    }

    /// Takes in a directive about the exports.
    fn apply_target(self, path: &str, d: &DepofileDirective) -> (result: Result<Draft, Failure>)
        requires
            is_target_keyword(d.keyword@),
        ensures
            outcome(result) == target_step(path@, self.deep_view(), d.deep_view()),
    {
        let line = d.line_number;
        let keyword: &str = d.keyword.as_str();
        let mut draft = self;
        if same(keyword, "ARTIFACT") {
            let value = expect_single_token(path, line, keyword, &d.remainder)?;
            put(&mut draft.artifacts, value);
            return Ok(draft);
        }
        if same(keyword, "TARGET") {
            let targets = parse_target_line(path, line, &d.remainder, draft.targets)?;
            return Ok(Draft { targets, ..draft });
        }
        if same(keyword, "PRIMARY_TARGET") {
            let value = expect_single_token(path, line, keyword, &d.remainder)?;
            if draft.primary_target_name.is_some() {
                return Err(complain(path, line, ": PRIMARY_TARGET is already set"));
            }
            draft.primary_target_name = Some(value);
            return Ok(draft);
        }
        let usage = if same(keyword, "LINK") {
            ": LINK requires '<target> <item>...'".to_owned()
        } else {
            cat3(": ", keyword, " requires '<target> <value>...'")
        };
        let entry = parse_target_values_directive(path, line, &d.remainder, &usage)?;
        if same(keyword, "LINK") {
            put(&mut draft.links, entry);
        } else if same(keyword, "DEFINES") {
            put(&mut draft.definitions, entry);
        } else if same(keyword, "OPTIONS") {
            put(&mut draft.options, entry);
        } else {
            put(&mut draft.features, entry);
        }
        Ok(draft)
    }

    /// Takes in a directive about the build.
    fn apply_build(self, path: &str, d: &DepofileDirective) -> (result: Result<Draft, Failure>)
        requires
            is_build_keyword(d.keyword@),
        ensures
            outcome(result) == build_step(path@, self.deep_view(), d.deep_view()),
    {
        let line = d.line_number;
        let keyword: &str = d.keyword.as_str();
        let mut draft = self;
        if same(keyword, "BUILD_SYSTEM") {
            let selected = parse_build_system(path, line, &d.remainder)?;
            if let Some(existing) = draft.build_system {
                return Err(
                    complain(
                        path,
                        line,
                        &cat4(
                            ": BUILD_SYSTEM is already set to ",
                            existing.directive_name(),
                            " at line ",
                            &decimal(draft.build_system_line),
                        ),
                    ),
                );
            }
            draft.build_system = Some(selected);
            draft.build_system_line = line;
            return Ok(draft);
        }
        if same(keyword, "STAGE_FILE") {
            let entry = parse_stage_entry(path, line, &d.remainder, StageKind::File)?;
            put(&mut draft.stage_entries, entry);
            return Ok(draft);
        }
        if same(keyword, "STAGE_TREE") {
            let entry = parse_stage_entry(path, line, &d.remainder, StageKind::Tree)?;
            put(&mut draft.stage_entries, entry);
            return Ok(draft);
        }
        if same(keyword, "BUILD_ROOT") {
            draft.build_root = parse_build_root(path, line, &d.remainder)?;
            return Ok(draft);
        }
        let value = expect_single_token(path, line, keyword, &d.remainder)?;
        if same(keyword, "TOOLCHAIN") {
            if same(&value, "SYSTEM") {
                draft.toolchain = ToolchainSource::System;
            } else if same(&value, "ROOTFS") {
                draft.toolchain = ToolchainSource::Rootfs;
            } else {
                return Err(complain(path, line, ": TOOLCHAIN requires 'SYSTEM' or 'ROOTFS'"));
            }
        } else if same(keyword, "TOOLCHAIN_INPUT") {
            put(&mut draft.toolchain_inputs, value);
        } else if same(keyword, "BUILD_ARCH") {
            draft.build_arch = normalize_arch_name(&value)?;
        } else {
            draft.target_arch = normalize_arch_name(&value)?;
        }
        Ok(draft)
    }

    /// Takes in a directive about the package itself.
    fn apply_package(self, path: &str, d: &DepofileDirective) -> (result: Result<Draft, Failure>)
        ensures
            outcome(result) == package_step(path@, self.deep_view(), d.deep_view()),
    {
        let line = d.line_number;
        let keyword: &str = d.keyword.as_str();
        let mut draft = self;
        if same(keyword, "NAME") {
            let value = expect_single_token(path, line, keyword, &d.remainder)?;
            ensure_package_name(&value)?;
            draft.name = Some(value);
        } else if same(keyword, "NAMESPACE") {
            return Err(
                complain(
                    path,
                    line,
                    ": NAMESPACE is assigned when the DepoFile is registered; use `depos register --namespace ...` instead",
                ),
            );
        } else if same(keyword, "VERSION") {
            draft.version = Some(expect_single_token(path, line, keyword, &d.remainder)?);
        } else if same(keyword, "SOURCE_SUBDIR") {
            draft.source_subdir = Some(expect_single_token(path, line, keyword, &d.remainder)?);
        } else if same(keyword, "LAZY") {
            ensure_empty(path, line, keyword, &d.remainder)?;
            draft.lazy = true;
        } else if same(keyword, "SYSTEM_LIBS") {
            let value = expect_single_token(path, line, keyword, &d.remainder)?;
            draft.system_libs = PackageSystemLibs::parse(&value)?;
        } else if same(keyword, "DEPENDS") {
            let request = parse_dependency_request(path, line, &d.remainder, DEFAULT_NAMESPACE)?;
            put(&mut draft.depends, request);
        } else {
            return Err(
                complain(
                    path,
                    line,
                    &cat3(": unsupported DepoFile directive '", keyword, "'"),
                ),
            );
        }
        Ok(draft)
    }

    /// Takes in one more directive.
    fn apply(self, path: &str, d: &DepofileDirective) -> (result: Result<Draft, Failure>)
        ensures
            outcome(result) == step(path@, self.deep_view(), d.deep_view()),
    {
        let keyword: &str = d.keyword.as_str();
        if let Some((system, slot)) = find_hook(keyword) {
            return self.apply_hook(path, d, system, slot);
        }
        if same(keyword, "SOURCE") || same(keyword, "SHA256") || same(keyword, "GIT_SUBMODULES") {
            self.apply_source(path, d)
        } else if same(keyword, "ARTIFACT") || same(keyword, "TARGET") || same(
            keyword,
            "PRIMARY_TARGET",
        ) || same(keyword, "LINK") || same(keyword, "DEFINES") || same(keyword, "OPTIONS") || same(
            keyword,
            "FEATURES",
        ) {
            self.apply_target(path, d)
        } else if same(keyword, "BUILD_SYSTEM") || same(keyword, "STAGE_FILE") || same(
            keyword,
            "STAGE_TREE",
        ) || same(keyword, "BUILD_ROOT") || same(keyword, "TOOLCHAIN") || same(
            keyword,
            "TOOLCHAIN_INPUT",
        ) || same(keyword, "BUILD_ARCH") || same(keyword, "TARGET_ARCH") {
            self.apply_build(path, d)
        } else {
            self.apply_package(path, d)
        }
    }
}

/// The directive that gives the command of each phase under a build system.
pub open spec fn phase_names(system: BuildSystem) -> (Text, Text, Text) {
    match system {
        BuildSystem::Cmake => ("CMAKE_CONFIGURE"@, "CMAKE_BUILD"@, "CMAKE_INSTALL"@),
        BuildSystem::Meson => ("MESON_SETUP"@, "MESON_COMPILE"@, "MESON_INSTALL"@),
        BuildSystem::Autoconf => ("AUTOCONF_CONFIGURE"@, "AUTOCONF_BUILD"@, "AUTOCONF_INSTALL"@),
        BuildSystem::Cargo => (""@, "CARGO_BUILD"@, "CARGO_INSTALL"@),
        BuildSystem::Manual => ("MANUAL_PREPARE"@, "MANUAL_BUILD"@, "MANUAL_INSTALL"@),
    }
}

fn phase_directives(system: BuildSystem) -> (names: (&'static str, &'static str, &'static str))
    ensures
        (names.0@, names.1@, names.2@) == phase_names(system),
{
    match system {
        BuildSystem::Cmake => ("CMAKE_CONFIGURE", "CMAKE_BUILD", "CMAKE_INSTALL"),
        BuildSystem::Meson => ("MESON_SETUP", "MESON_COMPILE", "MESON_INSTALL"),
        BuildSystem::Autoconf => ("AUTOCONF_CONFIGURE", "AUTOCONF_BUILD", "AUTOCONF_INSTALL"),
        BuildSystem::Cargo => ("", "CARGO_BUILD", "CARGO_INSTALL"),
        BuildSystem::Manual => ("MANUAL_PREPARE", "MANUAL_BUILD", "MANUAL_INSTALL"),
    }
}

/// The directives that give arguments to the default configure command of a build system.
pub open spec fn argument_names(system: BuildSystem) -> Text {
    match system {
        BuildSystem::Cmake => "CMAKE_ARG/CMAKE_DEFINE"@,
        BuildSystem::Meson => "MESON_ARG/MESON_DEFINE"@,
        _ => "AUTOCONF_ARG"@,
    }
}

fn argument_directives(system: BuildSystem) -> (names: &'static str)
    ensures
        names@ == argument_names(system),
{
    match system {
        BuildSystem::Cmake => "CMAKE_ARG/CMAKE_DEFINE",
        BuildSystem::Meson => "MESON_ARG/MESON_DEFINE",
        _ => "AUTOCONF_ARG",
    }
}

/// What is said of two directives that cannot both own a phase.
pub open spec fn both_declared(path: Text, first: Text, second: Text) -> Text {
    "DepoFile "@ + path + " declares both "@ + first + " and "@ + second + " for the same phase"@
}

/// What is said of a directive that AUTOCONF_SKIP_CONFIGURE rules out.
pub open spec fn skipped_with(path: Text, directive: Text) -> Text {
    "DepoFile "@ + path + " uses AUTOCONF_SKIP_CONFIGURE together with "@ + directive
}

/// The first thing wrong with the phases of a draft under the build system it selects.
pub open spec fn phase_conflict(path: Text, draft: DraftView, system: BuildSystem) -> Option<Text> {
    let (configure, build, install) = phase_names(system);
    let arguments = draft.args.len() > 0 || draft.defines.len() > 0;
    if draft.skip_configure && draft.configure_script is Some {
        Some(skipped_with(path, "AUTOCONF_CONFIGURE_SH"@))
    } else if draft.skip_configure && draft.configure_direct is Some {
        Some(skipped_with(path, "AUTOCONF_CONFIGURE"@))
    } else if draft.skip_configure && draft.args.len() > 0 {
        Some(skipped_with(path, "AUTOCONF_ARG"@))
    } else if draft.configure_direct is Some && draft.configure_script is Some {
        Some(both_declared(path, configure, configure + "_SH"@))
    } else if draft.build_direct is Some && draft.build_script is Some {
        Some(both_declared(path, build, build + "_SH"@))
    } else if draft.install_direct is Some && draft.install_script is Some {
        Some(both_declared(path, install, install + "_SH"@))
    } else if arguments && (draft.configure_direct is Some || draft.configure_script is Some) {
        Some(both_declared(path, configure, argument_names(system)))
    } else if draft.build_args.len() > 0 && (draft.build_direct is Some || draft.build_script is Some) {
        Some(both_declared(path, build, "CARGO_BUILD_ARG"@))
    } else if draft.install_args.len() > 0 && (draft.install_direct is Some || draft.install_script is Some) {
        Some(both_declared(path, install, "CARGO_INSTALL_ARG"@))
    } else if system == BuildSystem::Cargo && draft.install_args.len() == 0 && draft.install_script is None
        && draft.install_direct is None && draft.stage_entries.len() == 0 {
        Some(
            "DepoFile "@ + path
                + " uses BUILD_SYSTEM CARGO but does not declare any staged outputs and does not declare CARGO_INSTALL_ARG, CARGO_INSTALL, or CARGO_INSTALL_SH"@,
        )
    } else {
        None
    }
}

fn both_declared_message(path: &str, first: &str, second: &str) -> (message: String)
    ensures
        message@ == both_declared(path@, first@, second@),
{
    let start = cat6("DepoFile ", path, " declares both ", first, " and ", second);
    cat2(&start, " for the same phase")
}

fn find_phase_conflict(path: &str, draft: &Draft, system: BuildSystem) -> (message: Option<String>)
    ensures
        message.deep_view() == phase_conflict(path@, draft.deep_view(), system),
{
    let (configure, build, install) = phase_directives(system);
    let arguments = draft.args.len() > 0 || draft.defines.len() > 0;
    if draft.skip_configure && draft.configure_script.is_some() {
        Some(
            cat4(
                "DepoFile ",
                path,
                " uses AUTOCONF_SKIP_CONFIGURE together with ",
                "AUTOCONF_CONFIGURE_SH",
            ),
        )
    } else if draft.skip_configure && draft.configure_direct.is_some() {
        Some(
            cat4(
                "DepoFile ",
                path,
                " uses AUTOCONF_SKIP_CONFIGURE together with ",
                "AUTOCONF_CONFIGURE",
            ),
        )
    } else if draft.skip_configure && draft.args.len() > 0 {
        Some(
            cat4("DepoFile ", path, " uses AUTOCONF_SKIP_CONFIGURE together with ", "AUTOCONF_ARG"),
        )
    } else if draft.configure_direct.is_some() && draft.configure_script.is_some() {
        Some(both_declared_message(path, configure, &cat2(configure, "_SH")))
    } else if draft.build_direct.is_some() && draft.build_script.is_some() {
        Some(both_declared_message(path, build, &cat2(build, "_SH")))
    } else if draft.install_direct.is_some() && draft.install_script.is_some() {
        Some(both_declared_message(path, install, &cat2(install, "_SH")))
    } else if arguments && (draft.configure_direct.is_some() || draft.configure_script.is_some()) {
        Some(both_declared_message(path, configure, argument_directives(system)))
    } else if draft.build_args.len() > 0 && (draft.build_direct.is_some()
        || draft.build_script.is_some()) {
        Some(both_declared_message(path, build, "CARGO_BUILD_ARG"))
    } else if draft.install_args.len() > 0 && (draft.install_direct.is_some()
        || draft.install_script.is_some()) {
        Some(both_declared_message(path, install, "CARGO_INSTALL_ARG"))
    } else if system == BuildSystem::Cargo && draft.install_args.len() == 0
        && draft.install_script.is_none() && draft.install_direct.is_none()
        && draft.stage_entries.len() == 0 {
        Some(
            cat3(
                "DepoFile ",
                path,
                " uses BUILD_SYSTEM CARGO but does not declare any staged outputs and does not declare CARGO_INSTALL_ARG, CARGO_INSTALL, or CARGO_INSTALL_SH",
            ),
        )
    } else {
        None
    }
}

/// The arguments of the default configure command: the plain ones, then the definitions.
pub open spec fn configure_arguments(draft: DraftView) -> Seq<Text> {
    draft.args + draft.defines.map_values(|value: Text| "-D"@ + value)
}

fn collect_configure_arguments(draft: &Draft) -> (args: Vec<String>)
    ensures
        args.deep_view() == configure_arguments(draft.deep_view()),
{
    let mut args = draft.args.dup();
    let mut index: usize = 0;
    let ghost plain = draft.args.deep_view();
    let ghost flags = draft.defines.deep_view().map_values(|value: Text| "-D"@ + value);
    assert(args.deep_view() == plain + flags.take(0));
    while index < draft.defines.len()
        invariant
            index <= draft.defines.len(),
            flags == draft.defines.deep_view().map_values(|value: Text| "-D"@ + value),
            args.deep_view() == plain + flags.take(index as int),
        decreases draft.defines.len() - index,
    {
        put(&mut args, cat2("-D", &draft.defines[index]));
        index = index + 1;
        assert(args.deep_view() == plain + flags.take(index as int));
    }
    assert(flags.take(index as int) == flags);
    args
}

/// What the three phases of a draft are synthesized from.
pub open spec fn command_inputs(draft: DraftView) -> CommandInputsView {
    CommandInputsView {
        configure_args: configure_arguments(draft),
        build_args: draft.build_args,
        install_args: draft.install_args,
        configure_direct: draft.configure_direct,
        build_direct: draft.build_direct,
        install_direct: draft.install_direct,
        configure_override: if draft.skip_configure {
            Some(":"@)
        } else {
            draft.configure_script
        },
        build_override: draft.build_script,
        install_override: draft.install_script,
    }
}

/// Whether the default CMake configure command needs the cross tools: the build runs in an OCI
/// root with its own tools, for another architecture.
pub open spec fn needs_cross_tools(draft: DraftView, system: BuildSystem) -> bool {
    &&& system == BuildSystem::Cmake
    &&& draft.configure_direct is None
    &&& !draft.skip_configure
    &&& draft.configure_script is None
    &&& draft.build_root is Oci
    &&& draft.toolchain == ToolchainSource::Rootfs
    &&& draft.build_arch != draft.target_arch
}

/// The commands of the phases of a draft; none where no build system is selected.
pub open spec fn draft_commands(path: Text, draft: DraftView) -> Result<CommandsView, Messages> {
    match draft.build_system {
        None => Ok(
            CommandsView { configure: Seq::empty(), build: Seq::empty(), install: Seq::empty() },
        ),
        Some(system) => match phase_conflict(path, draft, system) {
            Some(message) => Err(seq![message]),
            None => {
                let commands = build_system::commands_for(system, command_inputs(draft));
                if needs_cross_tools(draft, system) {
                    Ok(
                        CommandsView {
                            configure: seq![
                                commands.configure[0] + build_system::cmake_cross_args(
                                    draft.target_arch,
                                ),
                            ],
                            ..commands
                        },
                    )
                } else {
                    Ok(commands)
                }
            },
        },
    }
}

fn make_commands(path: &str, draft: &Draft) -> (result: Result<BuildSystemCommands, Failure>)
    requires
        arch::supported_arch(draft.target_arch@),
    ensures
        outcome(result) == draft_commands(path@, draft.deep_view()),
{
    let system = match draft.build_system {
        Some(system) => system,
        None => {
            let commands = BuildSystemCommands {
                configure: Vec::new(),
                build: Vec::new(),
                install: Vec::new(),
            };
            assert(commands.configure.deep_view() == Seq::<Seq<Text>>::empty());
            assert(commands.build.deep_view() == Seq::<Seq<Text>>::empty());
            assert(commands.install.deep_view() == Seq::<Seq<Text>>::empty());
            return Ok(commands);
        },
    };
    if let Some(message) = find_phase_conflict(path, draft, system) {
        return Err(failure(message));
    }
    let configure_override = if draft.skip_configure {
        Some(":".to_owned())
    } else {
        draft.configure_script.dup()
    };
    let inputs = BuildSystemCommandInputs {
        configure_args: collect_configure_arguments(draft),
        build_args: draft.build_args.dup(),
        install_args: draft.install_args.dup(),
        configure_direct: draft.configure_direct.dup(),
        build_direct: draft.build_direct.dup(),
        install_direct: draft.install_direct.dup(),
        configure_override,
        build_override: draft.build_script.dup(),
        install_override: draft.install_script.dup(),
    };
    assert(inputs.deep_view() == command_inputs(draft.deep_view()));
    let mut commands = synthesize_build_system_commands(system, inputs);
    let in_image = match &draft.build_root {
        BuildRoot::Oci(_) => true,
        _ => false,
    };
    if system == BuildSystem::Cmake && draft.configure_direct.is_none() && !draft.skip_configure
        && draft.configure_script.is_none() && in_image && draft.toolchain
        == ToolchainSource::Rootfs && !same(&draft.build_arch, &draft.target_arch) {
        let ghost before = commands.configure.deep_view();
        assert(before.len() == 1);
        assert(commands.configure[0].deep_view() == before[0]);
        let mut command = commands.configure[0].dup();
        put_all(&mut command, &default_cmake_cross_configure_args(&draft.target_arch));
        commands.configure = crate::shell::single(command);
    }
    Ok(commands)
}

/// The values that the entries of `pending` list for `name`, in order.
pub open spec fn gathered(pending: Seq<(Text, Seq<Text>)>, name: Text) -> Seq<Text>
    decreases pending.len(),
{
    if pending.len() == 0 {
        Seq::empty()
    } else if pending.last().0 == name {
        gathered(pending.drop_last(), name) + pending.last().1
    } else {
        gathered(pending.drop_last(), name)
    }
}

fn gather(pending: &Vec<(String, Vec<String>)>, name: &str) -> (values: Vec<String>)
    ensures
        values.deep_view() == text::distinct(gathered(pending.deep_view(), name@)),
{
    let mut values: Vec<String> = Vec::new();
    let mut index: usize = 0;
    assert(values.deep_view() == Seq::<Text>::empty());
    assert(pending.deep_view().take(0) == Seq::<(Text, Seq<Text>)>::empty());
    while index < pending.len()
        invariant
            index <= pending.len(),
            values.deep_view() == gathered(pending.deep_view().take(index as int), name@),
        decreases pending.len() - index,
    {
        proof {
            let next = pending.deep_view().take(index as int + 1);
            assert(next.drop_last() == pending.deep_view().take(index as int));
            assert(next.last() == pending[index as int].deep_view());
        }
        if same(&pending[index].0, name) {
            put_all(&mut values, &pending[index].1);
        }
        index = index + 1;
    }
    assert(pending.deep_view().take(index as int) == pending.deep_view());
    dedup_strings(&values)
}

/// A target with the values that other directives list for it.
pub open spec fn completed(
    platform: HostPlatform,
    draft: DraftView,
    target: TargetSpecView,
) -> TargetSpecView {
    TargetSpecView {
        include_dirs: paths::distinct_paths(platform, target.include_dirs),
        link_libraries: text::distinct(gathered(draft.links, target.name)),
        compile_definitions: text::distinct(gathered(draft.definitions, target.name)),
        compile_options: text::distinct(gathered(draft.options, target.name)),
        compile_features: text::distinct(gathered(draft.features, target.name)),
        ..target
    }
}

/// Whether nothing is known of a target but its name.
pub open spec fn is_hollow(target: TargetSpecView) -> bool {
    &&& !target.interface_declared
    &&& target.static_path is None
    &&& target.shared_path is None
    &&& target.object_path is None
    &&& target.link_libraries.len() == 0
}

/// The completed targets of a draft from position `from` on, put behind `done`.
pub open spec fn completed_from(
    platform: HostPlatform,
    path: Text,
    draft: DraftView,
    from: int,
    done: Seq<TargetSpecView>,
) -> Result<Seq<TargetSpecView>, Messages>
    decreases draft.targets.len() - from,
{
    if from >= draft.targets.len() {
        Ok(done)
    } else {
        let target = completed(platform, draft, draft.targets[from]);
        if is_hollow(target) {
            Err(
                seq![
                    "DepoFile "@ + path + " declares TARGET '"@ + target.name
                        + "' without any STATIC, SHARED, OBJECT, INTERFACE, or LINK content"@,
                ],
            )
        } else {
            completed_from(platform, path, draft, from + 1, done.push(target))
        }
    }
}

fn complete_targets(
    platform: HostPlatform,
    path: &str,
    draft: &Draft,
) -> (result: Result<Vec<TargetSpec>, Failure>)
    ensures
        outcome(result) == completed_from(platform, path@, draft.deep_view(), 0, Seq::empty()),
{
    let mut done: Vec<TargetSpec> = Vec::new();
    let mut index: usize = 0;
    assert(done.deep_view() == Seq::<TargetSpecView>::empty());
    while index < draft.targets.len()
        invariant
            index <= draft.targets.len(),
            completed_from(platform, path@, draft.deep_view(), 0, Seq::empty()) == completed_from(
                platform,
                path@,
                draft.deep_view(),
                index as int,
                done.deep_view(),
            ),
        decreases draft.targets.len() - index,
    {
        let known = &draft.targets[index];
        assert(known.deep_view() == draft.deep_view().targets[index as int]);
        let target = TargetSpec {
            name: known.name.clone(),
            interface_declared: known.interface_declared,
            include_dirs: dedup_paths(platform, &known.include_dirs),
            static_path: known.static_path.dup(),
            shared_path: known.shared_path.dup(),
            object_path: known.object_path.dup(),
            link_libraries: gather(&draft.links, &known.name),
            compile_definitions: gather(&draft.definitions, &known.name),
            compile_options: gather(&draft.options, &known.name),
            compile_features: gather(&draft.features, &known.name),
        };
        assert(target.deep_view() == completed(platform, draft.deep_view(), known.deep_view()));
        if !target.interface_declared && target.static_path.is_none()
            && target.shared_path.is_none() && target.object_path.is_none()
            && target.link_libraries.len() == 0 {
            return Err(
                failure(
                    cat5(
                        "DepoFile ",
                        path,
                        " declares TARGET '",
                        &target.name,
                        "' without any STATIC, SHARED, OBJECT, INTERFACE, or LINK content",
                    ),
                ),
            );
        }
        put(&mut done, target);
        index = index + 1;
    }
    Ok(done)
}

/// The least name in `pending` from position `from` on, or `best`, that no target has.
pub open spec fn unknown_from(
    pending: Seq<(Text, Seq<Text>)>,
    targets: Seq<TargetSpecView>,
    from: int,
    best: Option<Text>,
) -> Option<Text>
    decreases pending.len() - from,
{
    if from >= pending.len() {
        best
    } else {
        let name = pending[from].0;
        let better = match best {
            Some(known) => text::text_order(name, known) == Order::Less,
            None => true,
        };
        if model::target_position(targets, name, 0) is None && better {
            unknown_from(pending, targets, from + 1, Some(name))
        } else {
            unknown_from(pending, targets, from + 1, best)
        }
    }
}

fn find_unknown(pending: &Vec<(String, Vec<String>)>, targets: &Vec<TargetSpec>) -> (name: Option<
    String,
>)
    ensures
        name.deep_view() == unknown_from(pending.deep_view(), targets.deep_view(), 0, None),
{
    let mut best: Option<String> = None;
    let mut index: usize = 0;
    while index < pending.len()
        invariant
            index <= pending.len(),
            unknown_from(pending.deep_view(), targets.deep_view(), 0, None) == unknown_from(
                pending.deep_view(),
                targets.deep_view(),
                index as int,
                best.deep_view(),
            ),
        decreases pending.len() - index,
    {
        let name: &str = pending[index].0.as_str();
        assert(pending.deep_view()[index as int].0 == name@);
        let better = match &best {
            Some(known) => order_texts(name, known) == Order::Less,
            None => true,
        };
        if find_target(targets, name).is_none() && better {
            best = Some(name.to_owned());
        }
        index = index + 1;
    }
    best
}

/// What is said of values for a target that is not declared.
pub open spec fn unknown_target(path: Text, directive: Text, name: Text) -> Text {
    "DepoFile "@ + path + " declares "@ + directive + " for unknown target '"@ + name + "'"@
}

/// The first thing wrong with how the directives of a draft refer to its targets.
pub open spec fn reference_fault(path: Text, draft: DraftView) -> Option<Text> {
    let lost = match draft.primary_target_name {
        Some(name) => model::target_position(draft.targets, name, 0) is None,
        None => false,
    };
    if lost {
        Some(
            "DepoFile "@ + path + " declares PRIMARY_TARGET '"@ + draft.primary_target_name->Some_0
                + "' but no TARGET with that name exists"@,
        )
    } else if let Some(name) = unknown_from(draft.links, draft.targets, 0, None) {
        Some(unknown_target(path, "LINK"@, name))
    } else if let Some(name) = unknown_from(draft.definitions, draft.targets, 0, None) {
        Some(unknown_target(path, "DEFINES"@, name))
    } else if let Some(name) = unknown_from(draft.options, draft.targets, 0, None) {
        Some(unknown_target(path, "OPTIONS"@, name))
    } else if let Some(name) = unknown_from(draft.features, draft.targets, 0, None) {
        Some(unknown_target(path, "FEATURES"@, name))
    } else if draft.targets.len() == 0 && draft.artifacts.len() == 0 {
        Some("DepoFile "@ + path + " must declare at least one TARGET or ARTIFACT"@)
    } else {
        None
    }
}

fn unknown_target_message(path: &str, directive: &str, name: &str) -> (message: String)
    ensures
        message@ == unknown_target(path@, directive@, name@),
{
    let start = cat6("DepoFile ", path, " declares ", directive, " for unknown target '", name);
    cat2(&start, "'")
}

fn find_reference_fault(path: &str, draft: &Draft) -> (message: Option<String>)
    ensures
        message.deep_view() == reference_fault(path@, draft.deep_view()),
{
    if let Some(name) = &draft.primary_target_name {
        if find_target(&draft.targets, name).is_none() {
            return Some(
                cat5(
                    "DepoFile ",
                    path,
                    " declares PRIMARY_TARGET '",
                    name,
                    "' but no TARGET with that name exists",
                ),
            );
        }
    }
    if let Some(name) = find_unknown(&draft.links, &draft.targets) {
        return Some(unknown_target_message(path, "LINK", &name));
    }
    if let Some(name) = find_unknown(&draft.definitions, &draft.targets) {
        return Some(unknown_target_message(path, "DEFINES", &name));
    }
    if let Some(name) = find_unknown(&draft.options, &draft.targets) {
        return Some(unknown_target_message(path, "OPTIONS", &name));
    }
    if let Some(name) = find_unknown(&draft.features, &draft.targets) {
        return Some(unknown_target_message(path, "FEATURES", &name));
    }
    if draft.targets.len() == 0 && draft.artifacts.len() == 0 {
        return Some(cat3("DepoFile ", path, " must declare at least one TARGET or ARTIFACT"));
    }
    None
}

/// The outcome of demanding that every path from position `from` on be confined.
pub open spec fn confinements(
    platform: HostPlatform,
    paths: Seq<Text>,
    from: int,
    context: Text,
) -> Result<(), Messages>
    decreases paths.len() - from,
{
    if from >= paths.len() {
        Ok(())
    } else {
        match paths::confinement(platform, paths[from], context) {
            Err(messages) => Err(messages),
            Ok(_) => confinements(platform, paths, from + 1, context),
        }
    }
}

/// The outcome of demanding that a path be confined, where there is one.
pub open spec fn optional_confinement(
    platform: HostPlatform,
    path: Option<Text>,
    context: Text,
) -> Result<(), Messages> {
    match path {
        Some(path) => paths::confinement(platform, path, context),
        None => Ok(()),
    }
}

fn ensure_paths_confined(platform: HostPlatform, paths: &Vec<String>, context: &str) -> (result:
    Result<(), Failure>)
    ensures
        outcome(result) == confinements(platform, paths.deep_view(), 0, context@),
        result is Ok ==> forall|i: int|
            0 <= i < paths.len() ==> paths::confined(platform, #[trigger] paths.deep_view()[i]),
{
    let mut index: usize = 0;
    while index < paths.len()
        invariant
            index <= paths.len(),
            confinements(platform, paths.deep_view(), 0, context@) == confinements(
                platform,
                paths.deep_view(),
                index as int,
                context@,
            ),
            forall|i: int| 0 <= i < index ==> paths::confined(platform, #[trigger] paths.deep_view()[i]),
        decreases paths.len() - index,
    {
        assert(paths.deep_view()[index as int] == paths[index as int]@);
        ensure_relative_confined_path(platform, &paths[index], context)?;
        index = index + 1;
    }
    Ok(())
}

fn ensure_optional_path_confined(
    platform: HostPlatform,
    path: &Option<String>,
    context: &str,
) -> (result: Result<(), Failure>)
    ensures
        outcome(result) == optional_confinement(platform, path.deep_view(), context@),
        result is Ok ==> (path.deep_view() matches Some(value) ==> paths::confined(platform, value)),
{
    match path {
        Some(path) => ensure_relative_confined_path(platform, path, context),
        None => Ok(()),
    }
}

/// How messages name a path of a target.
pub open spec fn target_context(path: Text, name: Text, facet: Text) -> Text {
    "DepoFile "@ + path + " TARGET "@ + name + facet
}

/// The outcome of checking the paths of a target.
pub open spec fn target_path_check(
    platform: HostPlatform,
    path: Text,
    target: TargetSpecView,
) -> Result<(), Messages> {
    match confinements(
        platform,
        target.include_dirs,
        0,
        target_context(path, target.name, " INTERFACE path"@),
    ) {
        Err(messages) => Err(messages),
        Ok(_) => match optional_confinement(
            platform,
            target.static_path,
            target_context(path, target.name, " STATIC path"@),
        ) {
            Err(messages) => Err(messages),
            Ok(_) => match optional_confinement(
                platform,
                target.shared_path,
                target_context(path, target.name, " SHARED path"@),
            ) {
                Err(messages) => Err(messages),
                Ok(_) => optional_confinement(
                    platform,
                    target.object_path,
                    target_context(path, target.name, " OBJECT path"@),
                ),
            },
        },
    }
}

/// Every path of the target stays below the root it is joined to.
pub open spec fn target_confined(platform: HostPlatform, target: TargetSpecView) -> bool {
    &&& forall|i: int|
        0 <= i < target.include_dirs.len() ==> paths::confined(platform, #[trigger] target.include_dirs[i])
    &&& target.static_path matches Some(path) ==> paths::confined(platform, path)
    &&& target.shared_path matches Some(path) ==> paths::confined(platform, path)
    &&& target.object_path matches Some(path) ==> paths::confined(platform, path)
}

pub fn validate_target_paths(platform: HostPlatform, path: &str, target: &TargetSpec) -> (result:
    Result<(), Failure>)
    ensures
        outcome(result) == target_path_check(platform, path@, target.deep_view()),
        result is Ok ==> target_confined(platform, target.deep_view()),
{
    ensure_paths_confined(
        platform,
        &target.include_dirs,
        &cat5("DepoFile ", path, " TARGET ", &target.name, " INTERFACE path"),
    )?;
    ensure_optional_path_confined(
        platform,
        &target.static_path,
        &cat5("DepoFile ", path, " TARGET ", &target.name, " STATIC path"),
    )?;
    ensure_optional_path_confined(
        platform,
        &target.shared_path,
        &cat5("DepoFile ", path, " TARGET ", &target.name, " SHARED path"),
    )?;
    ensure_optional_path_confined(
        platform,
        &target.object_path,
        &cat5("DepoFile ", path, " TARGET ", &target.name, " OBJECT path"),
    )
}

/// The outcome of checking the paths of the targets from position `from` on.
pub open spec fn target_path_checks(
    platform: HostPlatform,
    path: Text,
    targets: Seq<TargetSpecView>,
    from: int,
) -> Result<(), Messages>
    decreases targets.len() - from,
{
    if from >= targets.len() {
        Ok(())
    } else {
        match target_path_check(platform, path, targets[from]) {
            Err(messages) => Err(messages),
            Ok(_) => target_path_checks(platform, path, targets, from + 1),
        }
    }
}

/// The outcome of checking the paths of the stage entries from position `from` on.
pub open spec fn stage_path_checks(
    platform: HostPlatform,
    path: Text,
    entries: Seq<StageEntryView>,
    from: int,
) -> Result<(), Messages>
    decreases entries.len() - from,
{
    if from >= entries.len() {
        Ok(())
    } else {
        let context = "DepoFile "@ + path + " "@ + entries[from].kind.word();
        match paths::confinement(platform, entries[from].source, context + " source path"@) {
            Err(messages) => Err(messages),
            Ok(_) => match paths::confinement(
                platform,
                entries[from].destination,
                context + " destination path"@,
            ) {
                Err(messages) => Err(messages),
                Ok(_) => stage_path_checks(platform, path, entries, from + 1),
            },
        }
    }
}

/// The outcome of checking every path that a package declares.
pub open spec fn spec_path_check(
    platform: HostPlatform,
    path: Text,
    spec: PackageSpecView,
) -> Result<(), Messages> {
    match optional_confinement(
        platform,
        spec.source_subdir,
        "DepoFile "@ + path + " SOURCE_SUBDIR"@,
    ) {
        Err(messages) => Err(messages),
        Ok(_) => match confinements(
            platform,
            spec.artifacts,
            0,
            "DepoFile "@ + path + " ARTIFACT"@,
        ) {
            Err(messages) => Err(messages),
            Ok(_) => match target_path_checks(platform, path, spec.targets, 0) {
                Err(messages) => Err(messages),
                Ok(_) => stage_path_checks(platform, path, spec.stage_entries, 0),
            },
        },
    }
}

/// Every path that the package declares stays below the root it is joined to.
pub open spec fn spec_confined(platform: HostPlatform, spec: PackageSpecView) -> bool {
    &&& spec.source_subdir matches Some(path) ==> paths::confined(platform, path)
    &&& forall|i: int|
        0 <= i < spec.artifacts.len() ==> paths::confined(platform, #[trigger] spec.artifacts[i])
    &&& forall|i: int|
        0 <= i < spec.targets.len() ==> target_confined(platform, #[trigger] spec.targets[i])
    &&& forall|i: int|
        0 <= i < spec.stage_entries.len() ==> paths::confined(
            platform,
            (#[trigger] spec.stage_entries[i]).source,
        ) && paths::confined(platform, spec.stage_entries[i].destination)
}

pub fn validate_spec_paths(platform: HostPlatform, path: &str, spec: &PackageSpec) -> (result:
    Result<(), Failure>)
    ensures
        outcome(result) == spec_path_check(platform, path@, spec.deep_view()),
        result is Ok ==> spec_confined(platform, spec.deep_view()),
{
    ensure_optional_path_confined(
        platform,
        &spec.source_subdir,
        &cat3("DepoFile ", path, " SOURCE_SUBDIR"),
    )?;
    ensure_paths_confined(platform, &spec.artifacts, &cat3("DepoFile ", path, " ARTIFACT"))?;
    let mut index: usize = 0;
    while index < spec.targets.len()
        invariant
            index <= spec.targets.len(),
            target_path_checks(platform, path@, spec.targets.deep_view(), 0) == target_path_checks(
                platform,
                path@,
                spec.targets.deep_view(),
                index as int,
            ),
            spec_path_check(platform, path@, spec.deep_view()) == match target_path_checks(
                platform,
                path@,
                spec.targets.deep_view(),
                0,
            ) {
                Err(messages) => Err(messages),
                Ok(_) => stage_path_checks(platform, path@, spec.stage_entries.deep_view(), 0),
            },
            forall|i: int|
                0 <= i < index ==> target_confined(platform, #[trigger] spec.targets.deep_view()[i]),
        decreases spec.targets.len() - index,
    {
        assert(spec.targets.deep_view()[index as int] == spec.targets[index as int].deep_view());
        validate_target_paths(platform, path, &spec.targets[index])?;
        index = index + 1;
    }
    let mut index: usize = 0;
    while index < spec.stage_entries.len()
        invariant
            index <= spec.stage_entries.len(),
            spec_path_check(platform, path@, spec.deep_view()) == stage_path_checks(
                platform,
                path@,
                spec.stage_entries.deep_view(),
                index as int,
            ),
            forall|i: int|
                0 <= i < index ==> paths::confined(
                    platform,
                    (#[trigger] spec.stage_entries.deep_view()[i]).source,
                ) && paths::confined(platform, spec.stage_entries.deep_view()[i].destination),
        decreases spec.stage_entries.len() - index,
    {
        let entry = &spec.stage_entries[index];
        assert(spec.stage_entries.deep_view()[index as int] == entry.deep_view());
        let context = cat4("DepoFile ", path, " ", entry.kind.directive_name());
        ensure_relative_confined_path(platform, &entry.source, &cat2(&context, " source path"))?;
        ensure_relative_confined_path(
            platform,
            &entry.destination,
            &cat2(&context, " destination path"),
        )?;
        index = index + 1;
    }
    Ok(())
}

/// The package that a draft describes, once all directives are read.
pub open spec fn assembled(
    platform: HostPlatform,
    draft: DraftView,
    commands: CommandsView,
    name: Text,
    version: Text,
    targets: Seq<TargetSpecView>,
) -> PackageSpecView {
    PackageSpecView {
        name,
        namespace: DEFAULT_NAMESPACE@,
        version,
        primary_target_name: draft.primary_target_name,
        source_subdir: draft.source_subdir,
        lazy: draft.lazy,
        system_libs: draft.system_libs,
        artifacts: paths::distinct_paths(platform, draft.artifacts),
        targets,
        depends: draft.depends,
        fetch: draft.fetch,
        git_submodules_recursive: draft.git_submodules_recursive,
        configure: commands.configure,
        build: commands.build,
        install: commands.install,
        stage_entries: draft.stage_entries,
        build_root: draft.build_root,
        toolchain: draft.toolchain,
        toolchain_inputs: draft.toolchain_inputs,
        build_arch: draft.build_arch,
        target_arch: draft.target_arch,
        build_system: match draft.build_system {
            Some(system) => system,
            None => BuildSystem::Manual,
        },
        origin: PackageOrigin::Local,
    }
}

/// The package that a draft describes, or why it describes none.
pub open spec fn finished(platform: HostPlatform, path: Text, draft: DraftView) -> Result<
    PackageSpecView,
    Messages,
> {
    match draft_commands(path, draft) {
        Err(messages) => Err(messages),
        Ok(commands) => match draft.name {
            None => Err(seq!["DepoFile is missing NAME"@]),
            Some(name) => match draft.version {
                None => Err(seq!["DepoFile is missing VERSION"@]),
                Some(version) => match completed_from(platform, path, draft, 0, Seq::empty()) {
                    Err(messages) => Err(messages),
                    Ok(targets) => match reference_fault(path, draft) {
                        Some(message) => Err(seq![message]),
                        None => {
                            let spec = assembled(platform, draft, commands, name, version, targets);
                            match spec_path_check(platform, path, spec) {
                                Err(messages) => Err(messages),
                                Ok(_) => Ok(spec),
                            }
                        },
                    },
                },
            },
        },
    }
}

impl Draft {
    /// Completes the description and checks it.
    fn finish(self, platform: HostPlatform, path: &str) -> (result: Result<PackageSpec, Failure>)
        requires
            arch::supported_arch(self.target_arch@),
        ensures
            outcome(result) == finished(platform, path@, self.deep_view()),
            result matches Ok(spec) ==> spec_confined(platform, spec.deep_view()),
    {
        let draft = self;
        let commands = make_commands(path, &draft)?;
        let name = match &draft.name {
            Some(name) => name.clone(),
            None => {
                return Err(failure("DepoFile is missing NAME".to_owned()));
            },
        };
        let version = match &draft.version {
            Some(version) => version.clone(),
            None => {
                return Err(failure("DepoFile is missing VERSION".to_owned()));
            },
        };
        let targets = complete_targets(platform, path, &draft)?;
        if let Some(message) = find_reference_fault(path, &draft) {
            return Err(failure(message));
        }
        let build_system = match draft.build_system {
            Some(system) => system,
            None => BuildSystem::Manual,
        };
        let artifacts = dedup_paths(platform, &draft.artifacts);
        let spec = PackageSpec {
            name,
            namespace: DEFAULT_NAMESPACE.to_owned(),
            version,
            primary_target_name: draft.primary_target_name,
            source_subdir: draft.source_subdir,
            lazy: draft.lazy,
            system_libs: draft.system_libs,
            artifacts,
            targets,
            depends: draft.depends,
            fetch: draft.fetch,
            git_submodules_recursive: draft.git_submodules_recursive,
            configure: commands.configure,
            build: commands.build,
            install: commands.install,
            stage_entries: draft.stage_entries,
            build_root: draft.build_root,
            toolchain: draft.toolchain,
            toolchain_inputs: draft.toolchain_inputs,
            build_arch: draft.build_arch,
            target_arch: draft.target_arch,
            build_system,
            origin: PackageOrigin::Local,
        };
        validate_spec_paths(platform, path, &spec)?;
        Ok(spec)
    }
}

/// The draft after the directives from position `from` on.
pub open spec fn drafted_from(
    path: Text,
    directives: Seq<DirectiveView>,
    from: int,
    draft: DraftView,
) -> Result<DraftView, Messages>
    decreases directives.len() - from,
{
    if from >= directives.len() {
        Ok(draft)
    } else {
        match step(path, draft, directives[from]) {
            Err(messages) => Err(messages),
            Ok(next) => drafted_from(path, directives, from + 1, next),
        }
    }
}

/// The package that a DepoFile describes, read on a host of the given system and of architecture
/// `host`, or why it describes none.
pub open spec fn depofile_spec(
    platform: HostPlatform,
    path: Text,
    source: Text,
    host: Text,
) -> Result<PackageSpecView, Messages> {
    match directives::directives_of(path, source) {
        Err(messages) => Err(messages),
        Ok(directives) => match drafted_from(path, directives, 0, blank(host)) {
            Err(messages) => Err(messages),
            Ok(draft) => finished(platform, path, draft),
        },
    }
}

/// Parses the DepoFile at `path`, whose contents are `source`, on a host of the given system and
/// of architecture `host`.
pub fn parse_depofile(
    platform: HostPlatform,
    path: &str,
    source: &str,
    host: &str,
) -> (result: Result<PackageSpec, Failure>)
    requires
        arch::supported_arch(host@),
    ensures
        outcome(result) == depofile_spec(platform, path@, source@, host@),
        result matches Ok(spec) ==> spec_confined(platform, spec.deep_view()),
{
    let directives = depofile_directives(path, source)?;
    let mut draft = blank_draft(host);
    let mut index: usize = 0;
    while index < directives.len()
        invariant
            index <= directives.len(),
            arch::supported_arch(draft.target_arch@),
            directives::directives_of(path@, source@) == Ok::<Seq<DirectiveView>, Messages>(
                directives.deep_view(),
            ),
            drafted_from(path@, directives.deep_view(), 0, blank(host@)) == drafted_from(
                path@,
                directives.deep_view(),
                index as int,
                draft.deep_view(),
            ),
        decreases directives.len() - index,
    {
        assert(directives.deep_view()[index as int] == directives[index as int].deep_view());
        draft = draft.apply(path, &directives[index])?;
        index = index + 1;
    }
    draft.finish(platform, path)
}

} // verus!
