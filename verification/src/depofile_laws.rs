//! What a DepoFile says of a package, line by line.

use vstd::prelude::*;
use crate::build_system;
use crate::depofile;
use crate::depofile::{DraftView, Slot};
use crate::directives;
use crate::directives::DirectiveView;
use crate::failure::Messages;
use crate::fetch_laws;
use crate::grammar;
use crate::manifest_laws;
use crate::model::{
    BuildRootView, BuildSystem, FetchSpecView, PackageRequestView, PackageSpecView,
    PackageSystemLibs, RequestModeView, RequestSource, StageEntryView, StageKind,
    StageSourceRoot, TargetSpecView, Text, ToolchainSource,
};
use crate::paths;
use crate::paths::HostPlatform;
use crate::phase_laws;
use crate::text;
use crate::tokens;

verus! {

/// The lines of a DepoFile that start with a keyword, in order.
pub open spec fn lines_with(lines: Seq<DirectiveView>, keyword: Text) -> Seq<DirectiveView>
    decreases lines.len(),
{
    if lines.len() == 0 {
        Seq::empty()
    } else {
        let before = lines_with(lines.drop_last(), keyword);
        if lines.last().keyword == keyword {
            before.push(lines.last())
        } else {
            before
        }
    }
}

/// The words behind the keyword of a line.
pub open spec fn words(line: DirectiveView) -> Seq<Text> {
    tokens::tokens_of(line.remainder)->Ok_0
}

/// The first word behind a keyword on each line that starts with it, in order.
pub open spec fn values(lines: Seq<DirectiveView>, keyword: Text) -> Seq<Text> {
    lines_with(lines, keyword).map_values(|line: DirectiveView| words(line)[0])
}

/// The words behind a keyword on the last line that starts with it.
pub open spec fn last_words(lines: Seq<DirectiveView>, keyword: Text) -> Option<Seq<Text>> {
    let found = lines_with(lines, keyword);
    if found.len() == 0 {
        None
    } else {
        Some(words(found.last()))
    }
}

/// The first word behind a keyword on the last line that starts with it.
pub open spec fn last_value(lines: Seq<DirectiveView>, keyword: Text) -> Option<Text> {
    match last_words(lines, keyword) {
        Some(words) => Some(words[0]),
        None => None,
    }
}

/// The block behind a keyword on the last line that starts with it.
pub open spec fn last_block(lines: Seq<DirectiveView>, keyword: Text) -> Option<Text> {
    let found = lines_with(lines, keyword);
    if found.len() == 0 {
        None
    } else {
        found.last().block
    }
}

/// The lines with a keyword, where there is such a keyword.
pub open spec fn lines_if(lines: Seq<DirectiveView>, keyword: Option<Text>) -> Seq<DirectiveView> {
    match keyword {
        Some(keyword) => lines_with(lines, keyword),
        None => Seq::empty(),
    }
}

/// What each line with a keyword says, where there is such a keyword.
pub open spec fn values_if(lines: Seq<DirectiveView>, keyword: Option<Text>) -> Seq<Text> {
    lines_if(lines, keyword).map_values(|line: DirectiveView| words(line)[0])
}

/// The words on the last line with a keyword, where there is such a keyword.
pub open spec fn words_if(lines: Seq<DirectiveView>, keyword: Option<Text>) -> Option<Seq<Text>> {
    let found = lines_if(lines, keyword);
    if found.len() == 0 {
        None
    } else {
        Some(words(found.last()))
    }
}

/// The block on the last line with a keyword, where there is such a keyword.
pub open spec fn block_if(lines: Seq<DirectiveView>, keyword: Option<Text>) -> Option<Text> {
    let found = lines_if(lines, keyword);
    if found.len() == 0 {
        None
    } else {
        found.last().block
    }
}

/// What each line with a keyword lists for a target.
pub open spec fn listings(lines: Seq<DirectiveView>, keyword: Text) -> Seq<(Text, Seq<Text>)> {
    lines_with(lines, keyword).map_values(
        |line: DirectiveView| (words(line)[0], words(line).subrange(1, words(line).len() as int)),
    )
}

/// The digest that is declared behind the last source.
pub open spec fn last_digest(lines: Seq<DirectiveView>) -> Option<Text>
    decreases lines.len(),
{
    if lines.len() == 0 || lines.last().keyword == "SOURCE"@ {
        None
    } else if lines.last().keyword == "SHA256"@ {
        Some(words(lines.last())[0])
    } else {
        last_digest(lines.drop_last())
    }
}

/// The source that the last line about it names: an archive with the digest declared behind it,
/// or a repository at a reference, which is `HEAD` where none is given.
pub open spec fn fetch_said(lines: Seq<DirectiveView>) -> Option<FetchSpecView> {
    match last_words(lines, "SOURCE"@) {
        None => None,
        Some(words) => Some(
            if words[0] == "URL"@ {
                FetchSpecView::Url { url: words[1], sha256: last_digest(lines) }
            } else {
                FetchSpecView::Git {
                    url: words[1],
                    reference: if words.len() == 2 {
                        "HEAD"@
                    } else {
                        words[2]
                    },
                }
            },
        ),
    }
}

/// The lines that stage something, in order.
pub open spec fn stage_lines(lines: Seq<DirectiveView>) -> Seq<DirectiveView>
    decreases lines.len(),
{
    if lines.len() == 0 {
        Seq::empty()
    } else {
        let before = stage_lines(lines.drop_last());
        if lines.last().keyword == "STAGE_FILE"@ || lines.last().keyword == "STAGE_TREE"@ {
            before.push(lines.last())
        } else {
            before
        }
    }
}

/// What a line stages: a file or a tree, from below the sources or the build directory, to where
/// it stands there unless another place is given.
pub open spec fn staged(line: DirectiveView) -> StageEntryView {
    StageEntryView {
        kind: if line.keyword == "STAGE_FILE"@ {
            StageKind::File
        } else {
            StageKind::Tree
        },
        source_root: if words(line)[0] == "SOURCE"@ {
            StageSourceRoot::Source
        } else {
            StageSourceRoot::Build
        },
        source: words(line)[1],
        destination: if words(line).len() == 3 {
            words(line)[2]
        } else {
            words(line)[1]
        },
    }
}

/// The architecture that a word names.
pub open spec fn architecture(word: Text) -> Text {
    if word == "amd64"@ {
        "x86_64"@
    } else if word == "arm64"@ {
        "aarch64"@
    } else {
        word
    }
}

/// The architecture that the last line with a keyword names, or that of the host.
pub open spec fn architecture_said(lines: Seq<DirectiveView>, keyword: Text, host: Text) -> Text {
    match last_value(lines, keyword) {
        Some(word) => architecture(word),
        None => host,
    }
}

/// Where the build runs, by the words of a line: in an image, in an empty root, or on the host.
pub open spec fn root_said(words: Option<Seq<Text>>) -> BuildRootView {
    match words {
        Some(words) => if words[0] == "OCI"@ {
            BuildRootView::Oci(words[1])
        } else if words[0] == "SCRATCH"@ {
            BuildRootView::Scratch
        } else {
            BuildRootView::System
        },
        None => BuildRootView::System,
    }
}

/// Where the tools come from, by a word.
pub open spec fn tools_said(word: Option<Text>) -> ToolchainSource {
    if word == Some("ROOTFS"@) {
        ToolchainSource::Rootfs
    } else {
        ToolchainSource::System
    }
}

/// What is said of the libraries of the system, by a word.
pub open spec fn libraries_said(word: Option<Text>) -> PackageSystemLibs {
    if word == Some("NEVER"@) {
        PackageSystemLibs::Never
    } else if word == Some("ALLOW"@) {
        PackageSystemLibs::Allow
    } else {
        PackageSystemLibs::Inherit
    }
}

/// The build system that a word selects.
pub open spec fn system_said(word: Option<Text>) -> Option<BuildSystem> {
    match word {
        None => None,
        Some(word) => Some(
            if word == "CMAKE"@ {
                BuildSystem::Cmake
            } else if word == "MESON"@ {
                BuildSystem::Meson
            } else if word == "AUTOCONF"@ {
                BuildSystem::Autoconf
            } else if word == "CARGO"@ {
                BuildSystem::Cargo
            } else {
                BuildSystem::Manual
            },
        ),
    }
}

/// The value behind the last option of a name, where options with a value each follow the first
/// of the words.
pub open spec fn option_value(words: Seq<Text>, name: Text) -> Option<Text>
    decreases words.len(),
{
    if words.len() < 3 {
        None
    } else if words[words.len() - 2] == name {
        Some(words.last())
    } else {
        option_value(words.take(words.len() - 2), name)
    }
}

/// The versions that the last option about them accepts: exactly one, or all from one on; all
/// where there is no such option.
pub open spec fn versions_asked(words: Seq<Text>) -> RequestModeView
    decreases words.len(),
{
    if words.len() < 3 {
        RequestModeView::Latest
    } else if words[words.len() - 2] == "VERSION"@ {
        RequestModeView::Exact(words.last())
    } else if words[words.len() - 2] == "MIN_VERSION"@ {
        RequestModeView::Minimum(words.last())
    } else {
        versions_asked(words.take(words.len() - 2))
    }
}

/// What kind of source a word asks for.
pub open spec fn origin_asked(word: Option<Text>) -> RequestSource {
    if word == Some("SYSTEM"@) {
        RequestSource::System
    } else if word == Some("DEPO"@) {
        RequestSource::Depo
    } else {
        RequestSource::Auto
    }
}

/// The request that the words of a dependency make: in the namespace that is given, or else in
/// that of the package that asks.
pub open spec fn dependency_asked(words: Seq<Text>) -> PackageRequestView {
    PackageRequestView {
        name: words[0],
        namespace: match option_value(words, "NAMESPACE"@) {
            Some(namespace) => namespace,
            None => "release"@,
        },
        inherit_namespace: option_value(words, "NAMESPACE"@) is None,
        mode: versions_asked(words),
        source: origin_asked(option_value(words, "SOURCE"@)),
        alias: None,
    }
}

/// The directive for an argument of the default configure command.
pub open spec fn arg_keyword(system: Option<BuildSystem>) -> Option<Text> {
    match system {
        Some(BuildSystem::Cmake) => Some("CMAKE_ARG"@),
        Some(BuildSystem::Meson) => Some("MESON_ARG"@),
        Some(BuildSystem::Autoconf) => Some("AUTOCONF_ARG"@),
        Some(BuildSystem::Cargo) => None,
        Some(BuildSystem::Manual) => None,
        None => None,
    }
}

/// The directive for a definition.
pub open spec fn define_keyword(system: Option<BuildSystem>) -> Option<Text> {
    match system {
        Some(BuildSystem::Cmake) => Some("CMAKE_DEFINE"@),
        Some(BuildSystem::Meson) => Some("MESON_DEFINE"@),
        Some(BuildSystem::Autoconf) => None,
        Some(BuildSystem::Cargo) => None,
        Some(BuildSystem::Manual) => None,
        None => None,
    }
}

/// The directive for an argument of the default build command.
pub open spec fn build_arg_keyword(system: Option<BuildSystem>) -> Option<Text> {
    match system {
        Some(BuildSystem::Cmake) => None,
        Some(BuildSystem::Meson) => None,
        Some(BuildSystem::Autoconf) => None,
        Some(BuildSystem::Cargo) => Some("CARGO_BUILD_ARG"@),
        Some(BuildSystem::Manual) => None,
        None => None,
    }
}

/// The directive for an argument of the default install command.
pub open spec fn install_arg_keyword(system: Option<BuildSystem>) -> Option<Text> {
    match system {
        Some(BuildSystem::Cmake) => None,
        Some(BuildSystem::Meson) => None,
        Some(BuildSystem::Autoconf) => None,
        Some(BuildSystem::Cargo) => Some("CARGO_INSTALL_ARG"@),
        Some(BuildSystem::Manual) => None,
        None => None,
    }
}

/// The directive that leaves the configure phase out.
pub open spec fn skip_keyword(system: Option<BuildSystem>) -> Option<Text> {
    match system {
        Some(BuildSystem::Cmake) => None,
        Some(BuildSystem::Meson) => None,
        Some(BuildSystem::Autoconf) => Some("AUTOCONF_SKIP_CONFIGURE"@),
        Some(BuildSystem::Cargo) => None,
        Some(BuildSystem::Manual) => None,
        None => None,
    }
}

/// The directive for the command that configures.
pub open spec fn configure_keyword(system: Option<BuildSystem>) -> Option<Text> {
    match system {
        Some(BuildSystem::Cmake) => Some("CMAKE_CONFIGURE"@),
        Some(BuildSystem::Meson) => Some("MESON_SETUP"@),
        Some(BuildSystem::Autoconf) => Some("AUTOCONF_CONFIGURE"@),
        Some(BuildSystem::Cargo) => None,
        Some(BuildSystem::Manual) => Some("MANUAL_PREPARE"@),
        None => None,
    }
}

/// The directive for the command that builds.
pub open spec fn build_keyword(system: Option<BuildSystem>) -> Option<Text> {
    match system {
        Some(BuildSystem::Cmake) => Some("CMAKE_BUILD"@),
        Some(BuildSystem::Meson) => Some("MESON_COMPILE"@),
        Some(BuildSystem::Autoconf) => Some("AUTOCONF_BUILD"@),
        Some(BuildSystem::Cargo) => Some("CARGO_BUILD"@),
        Some(BuildSystem::Manual) => Some("MANUAL_BUILD"@),
        None => None,
    }
}

/// The directive for the command that installs.
pub open spec fn install_keyword(system: Option<BuildSystem>) -> Option<Text> {
    match system {
        Some(BuildSystem::Cmake) => Some("CMAKE_INSTALL"@),
        Some(BuildSystem::Meson) => Some("MESON_INSTALL"@),
        Some(BuildSystem::Autoconf) => Some("AUTOCONF_INSTALL"@),
        Some(BuildSystem::Cargo) => Some("CARGO_INSTALL"@),
        Some(BuildSystem::Manual) => Some("MANUAL_INSTALL"@),
        None => None,
    }
}

/// The directive for the script that configures.
pub open spec fn configure_script_keyword(system: Option<BuildSystem>) -> Option<Text> {
    match system {
        Some(BuildSystem::Cmake) => Some("CMAKE_CONFIGURE_SH"@),
        Some(BuildSystem::Meson) => Some("MESON_SETUP_SH"@),
        Some(BuildSystem::Autoconf) => Some("AUTOCONF_CONFIGURE_SH"@),
        Some(BuildSystem::Cargo) => None,
        Some(BuildSystem::Manual) => Some("MANUAL_PREPARE_SH"@),
        None => None,
    }
}

/// The directive for the script that builds.
pub open spec fn build_script_keyword(system: Option<BuildSystem>) -> Option<Text> {
    match system {
        Some(BuildSystem::Cmake) => Some("CMAKE_BUILD_SH"@),
        Some(BuildSystem::Meson) => Some("MESON_COMPILE_SH"@),
        Some(BuildSystem::Autoconf) => Some("AUTOCONF_BUILD_SH"@),
        Some(BuildSystem::Cargo) => Some("CARGO_BUILD_SH"@),
        Some(BuildSystem::Manual) => Some("MANUAL_BUILD_SH"@),
        None => None,
    }
}

/// The directive for the script that installs.
pub open spec fn install_script_keyword(system: Option<BuildSystem>) -> Option<Text> {
    match system {
        Some(BuildSystem::Cmake) => Some("CMAKE_INSTALL_SH"@),
        Some(BuildSystem::Meson) => Some("MESON_INSTALL_SH"@),
        Some(BuildSystem::Autoconf) => Some("AUTOCONF_INSTALL_SH"@),
        Some(BuildSystem::Cargo) => Some("CARGO_INSTALL_SH"@),
        Some(BuildSystem::Manual) => Some("MANUAL_INSTALL_SH"@),
        None => None,
    }
}

/// By what the words for the directives of build systems can be told apart.
proof fn lemma_system_letters()
    ensures
        "CMAKE_ARG"@.len() == 9 && "CMAKE_ARG"@[0] == 'C',
        "CMAKE_DEFINE"@.len() == 12 && "CMAKE_DEFINE"@[2] == 'A',
        "MESON_ARG"@.len() == 9 && "MESON_ARG"@[0] == 'M',
        "MESON_DEFINE"@.len() == 12 && "MESON_DEFINE"@[2] == 'S',
        "AUTOCONF_ARG"@.len() == 12 && "AUTOCONF_ARG"@[2] == 'T',
        "AUTOCONF_SKIP_CONFIGURE"@.len() == 23,
        "CARGO_BUILD_ARG"@.len() == 15 && "CARGO_BUILD_ARG"@[2] == 'R',
        "CARGO_INSTALL_ARG"@.len() == 17 && "CARGO_INSTALL_ARG"@[7] == 'N',
        "CMAKE_CONFIGURE_SH"@.len() == 18 && "CMAKE_CONFIGURE_SH"@[0] == 'C',
        "CMAKE_CONFIGURE"@.len() == 15 && "CMAKE_CONFIGURE"@[2] == 'A',
        "CMAKE_BUILD_SH"@.len() == 14 && "CMAKE_BUILD_SH"@[1] == 'M' && "CMAKE_BUILD_SH"@[7] == 'U',
        "CMAKE_BUILD"@.len() == 11 && "CMAKE_BUILD"@[0] == 'C' && "CMAKE_BUILD"@[1] == 'M',
        "CMAKE_INSTALL_SH"@.len() == 16 && "CMAKE_INSTALL_SH"@[1] == 'M'
            && "CMAKE_INSTALL_SH"@[6] == 'I',
        "CMAKE_INSTALL"@.len() == 13 && "CMAKE_INSTALL"@[1] == 'M' && "CMAKE_INSTALL"@[6] == 'I',
        "MESON_SETUP_SH"@.len() == 14 && "MESON_SETUP_SH"@[1] == 'E' && "MESON_SETUP_SH"@[7] == 'E',
        "MESON_SETUP"@.len() == 11 && "MESON_SETUP"@[0] == 'M' && "MESON_SETUP"@[1] == 'E',
        "MESON_COMPILE_SH"@.len() == 16 && "MESON_COMPILE_SH"@[1] == 'E'
            && "MESON_COMPILE_SH"@[6] == 'C',
        "MESON_COMPILE"@.len() == 13 && "MESON_COMPILE"@[1] == 'E' && "MESON_COMPILE"@[6] == 'C',
        "MESON_INSTALL_SH"@.len() == 16 && "MESON_INSTALL_SH"@[1] == 'E'
            && "MESON_INSTALL_SH"@[6] == 'I',
        "MESON_INSTALL"@.len() == 13 && "MESON_INSTALL"@[1] == 'E' && "MESON_INSTALL"@[6] == 'I',
        "AUTOCONF_CONFIGURE_SH"@.len() == 21,
        "AUTOCONF_CONFIGURE"@.len() == 18 && "AUTOCONF_CONFIGURE"@[0] == 'A',
        "AUTOCONF_BUILD_SH"@.len() == 17 && "AUTOCONF_BUILD_SH"@[7] == 'F',
        "AUTOCONF_BUILD"@.len() == 14 && "AUTOCONF_BUILD"@[1] == 'U' && "AUTOCONF_BUILD"@[7] == 'F',
        "AUTOCONF_INSTALL_SH"@.len() == 19,
        "AUTOCONF_INSTALL"@.len() == 16 && "AUTOCONF_INSTALL"@[1] == 'U'
            && "AUTOCONF_INSTALL"@[6] == 'N',
        "CARGO_BUILD_SH"@.len() == 14 && "CARGO_BUILD_SH"@[1] == 'A' && "CARGO_BUILD_SH"@[7] == 'U',
        "CARGO_BUILD"@.len() == 11 && "CARGO_BUILD"@[0] == 'C' && "CARGO_BUILD"@[1] == 'A',
        "CARGO_INSTALL_SH"@.len() == 16 && "CARGO_INSTALL_SH"@[1] == 'A'
            && "CARGO_INSTALL_SH"@[6] == 'I',
        "CARGO_INSTALL"@.len() == 13 && "CARGO_INSTALL"@[1] == 'A' && "CARGO_INSTALL"@[6] == 'I',
        "MANUAL_PREPARE_SH"@.len() == 17 && "MANUAL_PREPARE_SH"@[7] == 'P',
        "MANUAL_PREPARE"@.len() == 14 && "MANUAL_PREPARE"@[1] == 'A' && "MANUAL_PREPARE"@[7] == 'P',
        "MANUAL_BUILD_SH"@.len() == 15 && "MANUAL_BUILD_SH"@[2] == 'N',
        "MANUAL_BUILD"@.len() == 12 && "MANUAL_BUILD"@[2] == 'N',
        "MANUAL_INSTALL_SH"@.len() == 17 && "MANUAL_INSTALL_SH"@[7] == 'I',
        "MANUAL_INSTALL"@.len() == 14 && "MANUAL_INSTALL"@[1] == 'A' && "MANUAL_INSTALL"@[7] == 'I',
{
    reveal_strlit("CMAKE_ARG");
    reveal_strlit("CMAKE_DEFINE");
    reveal_strlit("MESON_ARG");
    reveal_strlit("MESON_DEFINE");
    reveal_strlit("AUTOCONF_ARG");
    reveal_strlit("AUTOCONF_SKIP_CONFIGURE");
    reveal_strlit("CARGO_BUILD_ARG");
    reveal_strlit("CARGO_INSTALL_ARG");
    reveal_strlit("CMAKE_CONFIGURE_SH");
    reveal_strlit("CMAKE_CONFIGURE");
    reveal_strlit("CMAKE_BUILD_SH");
    reveal_strlit("CMAKE_BUILD");
    reveal_strlit("CMAKE_INSTALL_SH");
    reveal_strlit("CMAKE_INSTALL");
    reveal_strlit("MESON_SETUP_SH");
    reveal_strlit("MESON_SETUP");
    reveal_strlit("MESON_COMPILE_SH");
    reveal_strlit("MESON_COMPILE");
    reveal_strlit("MESON_INSTALL_SH");
    reveal_strlit("MESON_INSTALL");
    reveal_strlit("AUTOCONF_CONFIGURE_SH");
    reveal_strlit("AUTOCONF_CONFIGURE");
    reveal_strlit("AUTOCONF_BUILD_SH");
    reveal_strlit("AUTOCONF_BUILD");
    reveal_strlit("AUTOCONF_INSTALL_SH");
    reveal_strlit("AUTOCONF_INSTALL");
    reveal_strlit("CARGO_BUILD_SH");
    reveal_strlit("CARGO_BUILD");
    reveal_strlit("CARGO_INSTALL_SH");
    reveal_strlit("CARGO_INSTALL");
    reveal_strlit("MANUAL_PREPARE_SH");
    reveal_strlit("MANUAL_PREPARE");
    reveal_strlit("MANUAL_BUILD_SH");
    reveal_strlit("MANUAL_BUILD");
    reveal_strlit("MANUAL_INSTALL_SH");
    reveal_strlit("MANUAL_INSTALL");
}

/// By what the words for the other directives can be told apart.
proof fn lemma_plain_letters()
    ensures
        "SOURCE"@.len() == 6 && "SOURCE"@[0] == 'S' && "SOURCE"@[5] == 'E',
        "SHA256"@.len() == 6 && "SHA256"@[0] == 'S' && "SHA256"@[5] == '6',
        "GIT_SUBMODULES"@.len() == 14 && "GIT_SUBMODULES"@[1] == 'I' && "GIT_SUBMODULES"@[7] == 'M',
        "ARTIFACT"@.len() == 8 && "ARTIFACT"@[1] == 'R',
        "TARGET"@.len() == 6 && "TARGET"@[0] == 'T' && "TARGET"@[5] == 'T',
        "PRIMARY_TARGET"@.len() == 14 && "PRIMARY_TARGET"@[1] == 'R' && "PRIMARY_TARGET"@[7] == '_',
        "LINK"@.len() == 4 && "LINK"@[2] == 'N',
        "DEFINES"@.len() == 7 && "DEFINES"@[0] == 'D' && "DEFINES"@[2] == 'F',
        "OPTIONS"@.len() == 7 && "OPTIONS"@[0] == 'O' && "OPTIONS"@[2] == 'T',
        "FEATURES"@.len() == 8 && "FEATURES"@[1] == 'E',
        "BUILD_SYSTEM"@.len() == 12 && "BUILD_SYSTEM"@[2] == 'I',
        "STAGE_FILE"@.len() == 10 && "STAGE_FILE"@[6] == 'F',
        "STAGE_TREE"@.len() == 10 && "STAGE_TREE"@[6] == 'T',
        "BUILD_ROOT"@.len() == 10 && "BUILD_ROOT"@[6] == 'R',
        "TOOLCHAIN"@.len() == 9 && "TOOLCHAIN"@[0] == 'T',
        "TOOLCHAIN_INPUT"@.len() == 15 && "TOOLCHAIN_INPUT"@[2] == 'O',
        "BUILD_ARCH"@.len() == 10 && "BUILD_ARCH"@[6] == 'A',
        "TARGET_ARCH"@.len() == 11 && "TARGET_ARCH"@[0] == 'T' && "TARGET_ARCH"@[1] == 'A',
        "NAME"@.len() == 4 && "NAME"@[2] == 'M',
        "VERSION"@.len() == 7 && "VERSION"@[0] == 'V' && "VERSION"@[2] == 'R',
        "SOURCE_SUBDIR"@.len() == 13 && "SOURCE_SUBDIR"@[1] == 'O' && "SOURCE_SUBDIR"@[6] == '_',
        "LAZY"@.len() == 4 && "LAZY"@[2] == 'Z',
        "SYSTEM_LIBS"@.len() == 11 && "SYSTEM_LIBS"@[0] == 'S' && "SYSTEM_LIBS"@[1] == 'Y',
        "DEPENDS"@.len() == 7 && "DEPENDS"@[0] == 'D' && "DEPENDS"@[2] == 'P',
        "NAMESPACE"@.len() == 9 && "NAMESPACE"@[0] == 'N',
{
    reveal_strlit("SOURCE");
    reveal_strlit("SHA256");
    reveal_strlit("GIT_SUBMODULES");
    reveal_strlit("ARTIFACT");
    reveal_strlit("TARGET");
    reveal_strlit("PRIMARY_TARGET");
    reveal_strlit("LINK");
    reveal_strlit("DEFINES");
    reveal_strlit("OPTIONS");
    reveal_strlit("FEATURES");
    reveal_strlit("BUILD_SYSTEM");
    reveal_strlit("STAGE_FILE");
    reveal_strlit("STAGE_TREE");
    reveal_strlit("BUILD_ROOT");
    reveal_strlit("TOOLCHAIN");
    reveal_strlit("TOOLCHAIN_INPUT");
    reveal_strlit("BUILD_ARCH");
    reveal_strlit("TARGET_ARCH");
    reveal_strlit("NAME");
    reveal_strlit("VERSION");
    reveal_strlit("SOURCE_SUBDIR");
    reveal_strlit("LAZY");
    reveal_strlit("SYSTEM_LIBS");
    reveal_strlit("DEPENDS");
    reveal_strlit("NAMESPACE");
}

/// By what the words for values can be told apart.
proof fn lemma_value_letters()
    ensures
        "MIN_VERSION"@.len() == 11 && "MIN_VERSION"@[0] == 'M' && "MIN_VERSION"@[1] == 'I',
        "SYSTEM"@.len() == 6 && "SYSTEM"@[0] == 'S' && "SYSTEM"@[5] == 'M',
        "SCRATCH"@.len() == 7 && "SCRATCH"@[0] == 'S' && "SCRATCH"@[2] == 'R',
        "OCI"@.len() == 3 && "OCI"@[0] == 'O',
        "ROOTFS"@.len() == 6 && "ROOTFS"@[0] == 'R' && "ROOTFS"@[5] == 'S',
        "BUILD"@.len() == 5 && "BUILD"@[2] == 'I',
        "x86_64"@.len() == 6 && "x86_64"@[0] == 'x' && "x86_64"@[5] == '4',
        "amd64"@.len() == 5 && "amd64"@[2] == 'd',
        "aarch64"@.len() == 7 && "aarch64"@[0] == 'a' && "aarch64"@[2] == 'r',
        "arm64"@.len() == 5 && "arm64"@[2] == 'm',
        "riscv64"@.len() == 7 && "riscv64"@[0] == 'r' && "riscv64"@[2] == 's',
        "CMAKE"@.len() == 5 && "CMAKE"@[2] == 'A',
        "MESON"@.len() == 5 && "MESON"@[2] == 'S',
        "AUTOCONF"@.len() == 8 && "AUTOCONF"@[1] == 'U',
        "CARGO"@.len() == 5 && "CARGO"@[2] == 'R',
        "MANUAL"@.len() == 6 && "MANUAL"@[0] == 'M' && "MANUAL"@[5] == 'L',
        "INHERIT"@.len() == 7 && "INHERIT"@[0] == 'I' && "INHERIT"@[2] == 'H',
        "NEVER"@.len() == 5 && "NEVER"@[2] == 'V',
        "ALLOW"@.len() == 5 && "ALLOW"@[2] == 'L',
        "AUTO"@.len() == 4 && "AUTO"@[2] == 'T',
        "DEPO"@.len() == 4 && "DEPO"@[2] == 'P',
        "URL"@.len() == 3 && "URL"@[0] == 'U',
        "GIT"@.len() == 3 && "GIT"@[0] == 'G',
        "STATIC"@.len() == 6 && "STATIC"@[0] == 'S' && "STATIC"@[5] == 'C',
        "SHARED"@.len() == 6 && "SHARED"@[0] == 'S' && "SHARED"@[5] == 'D',
        "OBJECT"@.len() == 6 && "OBJECT"@[0] == 'O' && "OBJECT"@[5] == 'T',
        "INTERFACE"@.len() == 9 && "INTERFACE"@[0] == 'I',
        "AS"@.len() == 2,
        "HEAD"@.len() == 4 && "HEAD"@[2] == 'A',
        "SOURCE"@.len() == 6 && "SOURCE"@[0] == 'S' && "SOURCE"@[5] == 'E',
        "VERSION"@.len() == 7 && "VERSION"@[0] == 'V' && "VERSION"@[2] == 'R',
{
    reveal_strlit("MIN_VERSION");
    reveal_strlit("SYSTEM");
    reveal_strlit("SCRATCH");
    reveal_strlit("OCI");
    reveal_strlit("ROOTFS");
    reveal_strlit("BUILD");
    reveal_strlit("x86_64");
    reveal_strlit("amd64");
    reveal_strlit("aarch64");
    reveal_strlit("arm64");
    reveal_strlit("riscv64");
    reveal_strlit("CMAKE");
    reveal_strlit("MESON");
    reveal_strlit("AUTOCONF");
    reveal_strlit("CARGO");
    reveal_strlit("MANUAL");
    reveal_strlit("INHERIT");
    reveal_strlit("NEVER");
    reveal_strlit("ALLOW");
    reveal_strlit("AUTO");
    reveal_strlit("DEPO");
    reveal_strlit("URL");
    reveal_strlit("GIT");
    reveal_strlit("STATIC");
    reveal_strlit("SHARED");
    reveal_strlit("OBJECT");
    reveal_strlit("INTERFACE");
    reveal_strlit("AS");
    reveal_strlit("HEAD");
    reveal_strlit("SOURCE");
    reveal_strlit("VERSION");
}

/// The directives that every package may use belong to no build system.
proof fn lemma_plain_keywords()
    ensures
        depofile::hook_of("SOURCE"@) is None,
        depofile::hook_of("SHA256"@) is None,
        depofile::hook_of("GIT_SUBMODULES"@) is None,
        depofile::hook_of("ARTIFACT"@) is None,
        depofile::hook_of("TARGET"@) is None,
        depofile::hook_of("PRIMARY_TARGET"@) is None,
        depofile::hook_of("LINK"@) is None,
        depofile::hook_of("DEFINES"@) is None,
        depofile::hook_of("OPTIONS"@) is None,
        depofile::hook_of("FEATURES"@) is None,
        depofile::hook_of("BUILD_SYSTEM"@) is None,
        depofile::hook_of("STAGE_FILE"@) is None,
        depofile::hook_of("STAGE_TREE"@) is None,
        depofile::hook_of("BUILD_ROOT"@) is None,
        depofile::hook_of("TOOLCHAIN"@) is None,
        depofile::hook_of("TOOLCHAIN_INPUT"@) is None,
        depofile::hook_of("BUILD_ARCH"@) is None,
        depofile::hook_of("TARGET_ARCH"@) is None,
        depofile::hook_of("NAME"@) is None,
        depofile::hook_of("VERSION"@) is None,
        depofile::hook_of("SOURCE_SUBDIR"@) is None,
        depofile::hook_of("LAZY"@) is None,
        depofile::hook_of("SYSTEM_LIBS"@) is None,
        depofile::hook_of("DEPENDS"@) is None,
{
    lemma_system_letters();
    lemma_plain_letters();
}

/// The directives about sources, exports and the build are told apart from the others.
proof fn lemma_keyword_groups()
    ensures
        depofile::is_source_keyword("SOURCE"@),
        depofile::is_source_keyword("SHA256"@),
        depofile::is_source_keyword("GIT_SUBMODULES"@),
        !depofile::is_source_keyword("ARTIFACT"@) && depofile::is_target_keyword("ARTIFACT"@),
        !depofile::is_source_keyword("TARGET"@) && depofile::is_target_keyword("TARGET"@),
        !depofile::is_source_keyword("PRIMARY_TARGET"@)
            && depofile::is_target_keyword("PRIMARY_TARGET"@),
        !depofile::is_source_keyword("LINK"@) && depofile::is_target_keyword("LINK"@),
        !depofile::is_source_keyword("DEFINES"@) && depofile::is_target_keyword("DEFINES"@),
        !depofile::is_source_keyword("OPTIONS"@) && depofile::is_target_keyword("OPTIONS"@),
        !depofile::is_source_keyword("FEATURES"@) && depofile::is_target_keyword("FEATURES"@),
        !depofile::is_source_keyword("BUILD_SYSTEM"@)
            && !depofile::is_target_keyword("BUILD_SYSTEM"@)
            && depofile::is_build_keyword("BUILD_SYSTEM"@),
        !depofile::is_source_keyword("STAGE_FILE"@)
            && !depofile::is_target_keyword("STAGE_FILE"@)
            && depofile::is_build_keyword("STAGE_FILE"@),
        !depofile::is_source_keyword("STAGE_TREE"@)
            && !depofile::is_target_keyword("STAGE_TREE"@)
            && depofile::is_build_keyword("STAGE_TREE"@),
        !depofile::is_source_keyword("BUILD_ROOT"@)
            && !depofile::is_target_keyword("BUILD_ROOT"@)
            && depofile::is_build_keyword("BUILD_ROOT"@),
        !depofile::is_source_keyword("TOOLCHAIN"@) && !depofile::is_target_keyword("TOOLCHAIN"@)
            && depofile::is_build_keyword("TOOLCHAIN"@),
        !depofile::is_source_keyword("TOOLCHAIN_INPUT"@)
            && !depofile::is_target_keyword("TOOLCHAIN_INPUT"@)
            && depofile::is_build_keyword("TOOLCHAIN_INPUT"@),
        !depofile::is_source_keyword("BUILD_ARCH"@)
            && !depofile::is_target_keyword("BUILD_ARCH"@)
            && depofile::is_build_keyword("BUILD_ARCH"@),
        !depofile::is_source_keyword("TARGET_ARCH"@)
            && !depofile::is_target_keyword("TARGET_ARCH"@)
            && depofile::is_build_keyword("TARGET_ARCH"@),
        !depofile::is_source_keyword("NAME"@) && !depofile::is_target_keyword("NAME"@)
            && !depofile::is_build_keyword("NAME"@),
        !depofile::is_source_keyword("VERSION"@) && !depofile::is_target_keyword("VERSION"@)
            && !depofile::is_build_keyword("VERSION"@),
        !depofile::is_source_keyword("SOURCE_SUBDIR"@)
            && !depofile::is_target_keyword("SOURCE_SUBDIR"@)
            && !depofile::is_build_keyword("SOURCE_SUBDIR"@),
        !depofile::is_source_keyword("LAZY"@) && !depofile::is_target_keyword("LAZY"@)
            && !depofile::is_build_keyword("LAZY"@),
        !depofile::is_source_keyword("SYSTEM_LIBS"@)
            && !depofile::is_target_keyword("SYSTEM_LIBS"@)
            && !depofile::is_build_keyword("SYSTEM_LIBS"@),
        !depofile::is_source_keyword("DEPENDS"@) && !depofile::is_target_keyword("DEPENDS"@)
            && !depofile::is_build_keyword("DEPENDS"@),
{
    lemma_system_letters();
    lemma_plain_letters();
}

/// The words for the directives are all different where they are read side by side.
proof fn lemma_keywords_differ()
    ensures
        "SOURCE"@ != "SHA256"@,
        "SOURCE"@ != "GIT_SUBMODULES"@,
        "SHA256"@ != "GIT_SUBMODULES"@,
        "ARTIFACT"@ != "TARGET"@,
        "ARTIFACT"@ != "PRIMARY_TARGET"@,
        "TARGET"@ != "PRIMARY_TARGET"@,
        "ARTIFACT"@ != "LINK"@,
        "TARGET"@ != "LINK"@,
        "PRIMARY_TARGET"@ != "LINK"@,
        "ARTIFACT"@ != "DEFINES"@,
        "TARGET"@ != "DEFINES"@,
        "PRIMARY_TARGET"@ != "DEFINES"@,
        "LINK"@ != "DEFINES"@,
        "ARTIFACT"@ != "OPTIONS"@,
        "TARGET"@ != "OPTIONS"@,
        "PRIMARY_TARGET"@ != "OPTIONS"@,
        "LINK"@ != "OPTIONS"@,
        "DEFINES"@ != "OPTIONS"@,
        "ARTIFACT"@ != "FEATURES"@,
        "TARGET"@ != "FEATURES"@,
        "PRIMARY_TARGET"@ != "FEATURES"@,
        "LINK"@ != "FEATURES"@,
        "DEFINES"@ != "FEATURES"@,
        "OPTIONS"@ != "FEATURES"@,
        "BUILD_SYSTEM"@ != "STAGE_FILE"@,
        "BUILD_SYSTEM"@ != "STAGE_TREE"@,
        "STAGE_FILE"@ != "STAGE_TREE"@,
        "BUILD_SYSTEM"@ != "BUILD_ROOT"@,
        "STAGE_FILE"@ != "BUILD_ROOT"@,
        "STAGE_TREE"@ != "BUILD_ROOT"@,
        "BUILD_SYSTEM"@ != "TOOLCHAIN"@,
        "STAGE_FILE"@ != "TOOLCHAIN"@,
        "STAGE_TREE"@ != "TOOLCHAIN"@,
        "BUILD_ROOT"@ != "TOOLCHAIN"@,
        "BUILD_SYSTEM"@ != "TOOLCHAIN_INPUT"@,
        "STAGE_FILE"@ != "TOOLCHAIN_INPUT"@,
        "STAGE_TREE"@ != "TOOLCHAIN_INPUT"@,
        "BUILD_ROOT"@ != "TOOLCHAIN_INPUT"@,
        "TOOLCHAIN"@ != "TOOLCHAIN_INPUT"@,
        "BUILD_SYSTEM"@ != "BUILD_ARCH"@,
        "STAGE_FILE"@ != "BUILD_ARCH"@,
        "STAGE_TREE"@ != "BUILD_ARCH"@,
        "BUILD_ROOT"@ != "BUILD_ARCH"@,
        "TOOLCHAIN"@ != "BUILD_ARCH"@,
        "TOOLCHAIN_INPUT"@ != "BUILD_ARCH"@,
        "BUILD_SYSTEM"@ != "TARGET_ARCH"@,
        "STAGE_FILE"@ != "TARGET_ARCH"@,
        "STAGE_TREE"@ != "TARGET_ARCH"@,
        "BUILD_ROOT"@ != "TARGET_ARCH"@,
        "TOOLCHAIN"@ != "TARGET_ARCH"@,
        "TOOLCHAIN_INPUT"@ != "TARGET_ARCH"@,
        "BUILD_ARCH"@ != "TARGET_ARCH"@,
        "NAME"@ != "VERSION"@,
        "NAME"@ != "SOURCE_SUBDIR"@,
        "VERSION"@ != "SOURCE_SUBDIR"@,
        "NAME"@ != "LAZY"@,
        "VERSION"@ != "LAZY"@,
        "SOURCE_SUBDIR"@ != "LAZY"@,
        "NAME"@ != "SYSTEM_LIBS"@,
        "VERSION"@ != "SYSTEM_LIBS"@,
        "SOURCE_SUBDIR"@ != "SYSTEM_LIBS"@,
        "LAZY"@ != "SYSTEM_LIBS"@,
        "NAME"@ != "DEPENDS"@,
        "VERSION"@ != "DEPENDS"@,
        "SOURCE_SUBDIR"@ != "DEPENDS"@,
        "LAZY"@ != "DEPENDS"@,
        "SYSTEM_LIBS"@ != "DEPENDS"@,
        "NAME"@ != "NAMESPACE"@,
        "VERSION"@ != "NAMESPACE"@,
        "SOURCE_SUBDIR"@ != "NAMESPACE"@,
        "LAZY"@ != "NAMESPACE"@,
        "SYSTEM_LIBS"@ != "NAMESPACE"@,
        "DEPENDS"@ != "NAMESPACE"@,
{
    lemma_system_letters();
    lemma_plain_letters();
}

/// What each directive of a build system sets.
proof fn lemma_system_keywords()
    ensures
        depofile::hook_of("CMAKE_ARG"@) == Some((BuildSystem::Cmake, Slot::Arg)),
        depofile::hook_of("CMAKE_DEFINE"@) == Some((BuildSystem::Cmake, Slot::Define)),
        depofile::hook_of("MESON_ARG"@) == Some((BuildSystem::Meson, Slot::Arg)),
        depofile::hook_of("MESON_DEFINE"@) == Some((BuildSystem::Meson, Slot::Define)),
        depofile::hook_of("AUTOCONF_ARG"@) == Some((BuildSystem::Autoconf, Slot::Arg)),
        depofile::hook_of("AUTOCONF_SKIP_CONFIGURE"@) == Some((BuildSystem::Autoconf, Slot::SkipConfigure)),
        depofile::hook_of("CARGO_BUILD_ARG"@) == Some((BuildSystem::Cargo, Slot::BuildArg)),
        depofile::hook_of("CARGO_INSTALL_ARG"@) == Some((BuildSystem::Cargo, Slot::InstallArg)),
        depofile::hook_of("CMAKE_CONFIGURE_SH"@) == Some((BuildSystem::Cmake, Slot::ConfigureScript)),
        depofile::hook_of("CMAKE_CONFIGURE"@) == Some((BuildSystem::Cmake, Slot::Configure)),
        depofile::hook_of("CMAKE_BUILD_SH"@) == Some((BuildSystem::Cmake, Slot::BuildScript)),
        depofile::hook_of("CMAKE_BUILD"@) == Some((BuildSystem::Cmake, Slot::Build)),
        depofile::hook_of("CMAKE_INSTALL_SH"@) == Some((BuildSystem::Cmake, Slot::InstallScript)),
        depofile::hook_of("CMAKE_INSTALL"@) == Some((BuildSystem::Cmake, Slot::Install)),
        depofile::hook_of("MESON_SETUP_SH"@) == Some((BuildSystem::Meson, Slot::ConfigureScript)),
        depofile::hook_of("MESON_SETUP"@) == Some((BuildSystem::Meson, Slot::Configure)),
        depofile::hook_of("MESON_COMPILE_SH"@) == Some((BuildSystem::Meson, Slot::BuildScript)),
        depofile::hook_of("MESON_COMPILE"@) == Some((BuildSystem::Meson, Slot::Build)),
        depofile::hook_of("MESON_INSTALL_SH"@) == Some((BuildSystem::Meson, Slot::InstallScript)),
        depofile::hook_of("MESON_INSTALL"@) == Some((BuildSystem::Meson, Slot::Install)),
        depofile::hook_of("AUTOCONF_CONFIGURE_SH"@) == Some((BuildSystem::Autoconf, Slot::ConfigureScript)),
        depofile::hook_of("AUTOCONF_CONFIGURE"@) == Some((BuildSystem::Autoconf, Slot::Configure)),
        depofile::hook_of("AUTOCONF_BUILD_SH"@) == Some((BuildSystem::Autoconf, Slot::BuildScript)),
        depofile::hook_of("AUTOCONF_BUILD"@) == Some((BuildSystem::Autoconf, Slot::Build)),
        depofile::hook_of("AUTOCONF_INSTALL_SH"@) == Some((BuildSystem::Autoconf, Slot::InstallScript)),
        depofile::hook_of("AUTOCONF_INSTALL"@) == Some((BuildSystem::Autoconf, Slot::Install)),
        depofile::hook_of("CARGO_BUILD_SH"@) == Some((BuildSystem::Cargo, Slot::BuildScript)),
        depofile::hook_of("CARGO_BUILD"@) == Some((BuildSystem::Cargo, Slot::Build)),
        depofile::hook_of("CARGO_INSTALL_SH"@) == Some((BuildSystem::Cargo, Slot::InstallScript)),
        depofile::hook_of("CARGO_INSTALL"@) == Some((BuildSystem::Cargo, Slot::Install)),
        depofile::hook_of("MANUAL_PREPARE_SH"@) == Some((BuildSystem::Manual, Slot::ConfigureScript)),
        depofile::hook_of("MANUAL_PREPARE"@) == Some((BuildSystem::Manual, Slot::Configure)),
        depofile::hook_of("MANUAL_BUILD_SH"@) == Some((BuildSystem::Manual, Slot::BuildScript)),
        depofile::hook_of("MANUAL_BUILD"@) == Some((BuildSystem::Manual, Slot::Build)),
        depofile::hook_of("MANUAL_INSTALL_SH"@) == Some((BuildSystem::Manual, Slot::InstallScript)),
        depofile::hook_of("MANUAL_INSTALL"@) == Some((BuildSystem::Manual, Slot::Install)),
{
    lemma_system_letters();
    lemma_plain_letters();
}

/// The directive of a build system that sets something.
spec fn keyword_for(system: Option<BuildSystem>, slot: Slot) -> Option<Text> {
    match slot {
        Slot::Arg => arg_keyword(system),
        Slot::Define => define_keyword(system),
        Slot::BuildArg => build_arg_keyword(system),
        Slot::InstallArg => install_arg_keyword(system),
        Slot::SkipConfigure => skip_keyword(system),
        Slot::Configure => configure_keyword(system),
        Slot::Build => build_keyword(system),
        Slot::Install => install_keyword(system),
        Slot::ConfigureScript => configure_script_keyword(system),
        Slot::BuildScript => build_script_keyword(system),
        Slot::InstallScript => install_script_keyword(system),
    }
}

proof fn lemma_hooks_are_named(keyword: Text)
    ensures
        depofile::hook_of(keyword) matches Some((system, slot)) ==> keyword_for(
            Some(system),
            slot,
        ) == Some(keyword),
{
}

proof fn lemma_names_are_hooks(system: Option<BuildSystem>, slot: Slot)
    ensures
        keyword_for(system, slot) matches Some(keyword) ==> depofile::hook_of(keyword) == Some(
            (system->Some_0, slot),
        ),
{
    lemma_system_keywords();
}

/// What one line does to what is known of the package itself.
spec fn package_effect(draft: DraftView, line: DirectiveView, next: DraftView) -> bool {
    let word = words(line)[0];
    &&& next.name == if line.keyword == "NAME"@ {
        Some(word)
    } else {
        draft.name
    }
    &&& next.version == if line.keyword == "VERSION"@ {
        Some(word)
    } else {
        draft.version
    }
    &&& next.source_subdir == if line.keyword == "SOURCE_SUBDIR"@ {
        Some(word)
    } else {
        draft.source_subdir
    }
    &&& next.lazy == (draft.lazy || line.keyword == "LAZY"@)
    &&& next.system_libs == if line.keyword == "SYSTEM_LIBS"@ {
        libraries_said(Some(word))
    } else {
        draft.system_libs
    }
    &&& next.depends == if line.keyword == "DEPENDS"@ {
        draft.depends.push(dependency_asked(words(line)))
    } else {
        draft.depends
    }
}

/// What one line does to what is known of the sources.
spec fn source_effect(draft: DraftView, line: DirectiveView, next: DraftView) -> bool {
    let all = words(line);
    &&& line.keyword == "SOURCE"@ ==> next.fetch == Some(
        if all[0] == "URL"@ {
            FetchSpecView::Url { url: all[1], sha256: None }
        } else {
            FetchSpecView::Git {
                url: all[1],
                reference: if all.len() == 2 {
                    "HEAD"@
                } else {
                    all[2]
                },
            }
        },
    )
    &&& line.keyword == "SHA256"@ ==> {
        &&& draft.fetch matches Some(FetchSpecView::Url { url, sha256 })
        &&& next.fetch == Some(FetchSpecView::Url { url, sha256: Some(all[0]) })
    }
    &&& line.keyword != "SOURCE"@ && line.keyword != "SHA256"@ ==> next.fetch == draft.fetch
    &&& next.git_submodules_recursive == (draft.git_submodules_recursive || line.keyword
        == "GIT_SUBMODULES"@)
}

/// What one line does to what is known of the exports.
spec fn export_effect(draft: DraftView, line: DirectiveView, next: DraftView) -> bool {
    let all = words(line);
    let entry = (all[0], all.subrange(1, all.len() as int));
    &&& next.artifacts == if line.keyword == "ARTIFACT"@ {
        draft.artifacts.push(all[0])
    } else {
        draft.artifacts
    }
    &&& next.primary_target_name == if line.keyword == "PRIMARY_TARGET"@ {
        Some(all[0])
    } else {
        draft.primary_target_name
    }
    &&& next.links == if line.keyword == "LINK"@ {
        draft.links.push(entry)
    } else {
        draft.links
    }
    &&& next.definitions == if line.keyword == "DEFINES"@ {
        draft.definitions.push(entry)
    } else {
        draft.definitions
    }
    &&& next.options == if line.keyword == "OPTIONS"@ {
        draft.options.push(entry)
    } else {
        draft.options
    }
    &&& next.features == if line.keyword == "FEATURES"@ {
        draft.features.push(entry)
    } else {
        draft.features
    }
    &&& line.keyword != "TARGET"@ ==> next.targets == draft.targets
}

/// What one line does to what is known of where and how the package is built.
spec fn build_effect(draft: DraftView, line: DirectiveView, next: DraftView) -> bool {
    let all = words(line);
    &&& next.stage_entries == if line.keyword == "STAGE_FILE"@ || line.keyword == "STAGE_TREE"@ {
        draft.stage_entries.push(staged(line))
    } else {
        draft.stage_entries
    }
    &&& next.build_root == if line.keyword == "BUILD_ROOT"@ {
        root_said(Some(all))
    } else {
        draft.build_root
    }
    &&& next.toolchain == if line.keyword == "TOOLCHAIN"@ {
        tools_said(Some(all[0]))
    } else {
        draft.toolchain
    }
    &&& next.toolchain_inputs == if line.keyword == "TOOLCHAIN_INPUT"@ {
        draft.toolchain_inputs.push(all[0])
    } else {
        draft.toolchain_inputs
    }
    &&& next.build_arch == if line.keyword == "BUILD_ARCH"@ {
        architecture(all[0])
    } else {
        draft.build_arch
    }
    &&& next.target_arch == if line.keyword == "TARGET_ARCH"@ {
        architecture(all[0])
    } else {
        draft.target_arch
    }
    &&& next.build_system == if line.keyword == "BUILD_SYSTEM"@ {
        system_said(Some(all[0]))
    } else {
        draft.build_system
    }
    &&& line.keyword == "BUILD_SYSTEM"@ ==> draft.build_system is None
}

/// What one line does to what is known of the phases.
spec fn phase_effect(draft: DraftView, line: DirectiveView, next: DraftView) -> bool {
    let all = words(line);
    let system = draft.build_system;
    let keyword = Some(line.keyword);
    &&& next.args == if arg_keyword(system) == keyword {
        draft.args.push(all[0])
    } else {
        draft.args
    }
    &&& next.defines == if define_keyword(system) == keyword {
        draft.defines.push(all[0])
    } else {
        draft.defines
    }
    &&& next.build_args == if build_arg_keyword(system) == keyword {
        draft.build_args.push(all[0])
    } else {
        draft.build_args
    }
    &&& next.install_args == if install_arg_keyword(system) == keyword {
        draft.install_args.push(all[0])
    } else {
        draft.install_args
    }
    &&& next.skip_configure == (draft.skip_configure || skip_keyword(system) == keyword)
    &&& next.configure_direct == if configure_keyword(system) == keyword {
        Some(all)
    } else {
        draft.configure_direct
    }
    &&& next.build_direct == if build_keyword(system) == keyword {
        Some(all)
    } else {
        draft.build_direct
    }
    &&& next.install_direct == if install_keyword(system) == keyword {
        Some(all)
    } else {
        draft.install_direct
    }
    &&& next.configure_script == if configure_script_keyword(system) == keyword {
        line.block
    } else {
        draft.configure_script
    }
    &&& next.build_script == if build_script_keyword(system) == keyword {
        line.block
    } else {
        draft.build_script
    }
    &&& next.install_script == if install_script_keyword(system) == keyword {
        line.block
    } else {
        draft.install_script
    }
}

proof fn lemma_package_effect(path: Text, draft: DraftView, line: DirectiveView, next: DraftView)
    requires
        depofile::step(path, draft, line) == Ok::<DraftView, Messages>(next),
    ensures
        package_effect(draft, line, next),
{
    lemma_plain_keywords();
    lemma_keyword_groups();
    lemma_keywords_differ();
    if line.keyword == "SYSTEM_LIBS"@ {
        lemma_value_letters();
    }
    if line.keyword == "DEPENDS"@ {
        lemma_dependency_is_asked(path, line, next.depends.last());
    }
}

proof fn lemma_source_effect(path: Text, draft: DraftView, line: DirectiveView, next: DraftView)
    requires
        depofile::step(path, draft, line) == Ok::<DraftView, Messages>(next),
    ensures
        source_effect(draft, line, next),
{
    lemma_plain_keywords();
    lemma_keyword_groups();
    lemma_keywords_differ();
    lemma_value_letters();
}

proof fn lemma_export_effect(path: Text, draft: DraftView, line: DirectiveView, next: DraftView)
    requires
        depofile::step(path, draft, line) == Ok::<DraftView, Messages>(next),
    ensures
        export_effect(draft, line, next),
{
    lemma_plain_keywords();
    lemma_keyword_groups();
    lemma_keywords_differ();
}

proof fn lemma_build_effect(path: Text, draft: DraftView, line: DirectiveView, next: DraftView)
    requires
        depofile::step(path, draft, line) == Ok::<DraftView, Messages>(next),
    ensures
        build_effect(draft, line, next),
{
    lemma_plain_keywords();
    lemma_keyword_groups();
    lemma_keywords_differ();
    lemma_build_words();
}

proof fn lemma_build_words()
    ensures
        "SYSTEM"@ != "SCRATCH"@,
        "SYSTEM"@ != "OCI"@,
        "SCRATCH"@ != "OCI"@,
        "SYSTEM"@ != "ROOTFS"@,
        "SOURCE"@ != "BUILD"@,
        "x86_64"@ != "amd64"@,
        "x86_64"@ != "arm64"@,
        "aarch64"@ != "amd64"@,
        "aarch64"@ != "arm64"@,
        "riscv64"@ != "amd64"@,
        "riscv64"@ != "arm64"@,
        "amd64"@ != "arm64"@,
        "CMAKE"@ != "MESON"@,
        "CMAKE"@ != "AUTOCONF"@,
        "CMAKE"@ != "CARGO"@,
        "CMAKE"@ != "MANUAL"@,
        "MESON"@ != "AUTOCONF"@,
        "MESON"@ != "CARGO"@,
        "MESON"@ != "MANUAL"@,
        "AUTOCONF"@ != "CARGO"@,
        "AUTOCONF"@ != "MANUAL"@,
        "CARGO"@ != "MANUAL"@,
{
    lemma_value_letters();
}

proof fn lemma_hook_effect(
    path: Text,
    draft: DraftView,
    line: DirectiveView,
    system: BuildSystem,
    slot: Slot,
    next: DraftView,
)
    requires
        depofile::hook_step(path, draft, line, system, slot) == Ok::<DraftView, Messages>(next),
        forall|other: Slot|
            #![trigger keyword_for(Some(system), other)]
            keyword_for(Some(system), other) == Some(line.keyword) <==> other == slot,
    ensures
        draft.build_system == Some(system),
        phase_effect(draft, line, next),
{
    assert(draft.build_system == Some(system));
    let kinds = (
        keyword_for(Some(system), Slot::Arg),
        keyword_for(Some(system), Slot::Define),
        keyword_for(Some(system), Slot::BuildArg),
        keyword_for(Some(system), Slot::InstallArg),
        keyword_for(Some(system), Slot::SkipConfigure),
        keyword_for(Some(system), Slot::Configure),
        keyword_for(Some(system), Slot::Build),
        keyword_for(Some(system), Slot::Install),
        keyword_for(Some(system), Slot::ConfigureScript),
        keyword_for(Some(system), Slot::BuildScript),
        keyword_for(Some(system), Slot::InstallScript),
    );
}

proof fn lemma_other_effect(path: Text, draft: DraftView, line: DirectiveView, next: DraftView)
    requires
        depofile::source_step(path, draft, line) == Ok::<DraftView, Messages>(next)
            || depofile::target_step(path, draft, line) == Ok::<DraftView, Messages>(next)
            || depofile::build_step(path, draft, line) == Ok::<DraftView, Messages>(next)
            || depofile::package_step(path, draft, line) == Ok::<DraftView, Messages>(next),
        forall|slot: Slot|
            #![trigger keyword_for(draft.build_system, slot)]
            keyword_for(draft.build_system, slot) != Some(line.keyword),
    ensures
        phase_effect(draft, line, next),
{
    let system = draft.build_system;
    let kinds = (
        keyword_for(system, Slot::Arg),
        keyword_for(system, Slot::Define),
        keyword_for(system, Slot::BuildArg),
        keyword_for(system, Slot::InstallArg),
        keyword_for(system, Slot::SkipConfigure),
        keyword_for(system, Slot::Configure),
        keyword_for(system, Slot::Build),
        keyword_for(system, Slot::Install),
        keyword_for(system, Slot::ConfigureScript),
        keyword_for(system, Slot::BuildScript),
        keyword_for(system, Slot::InstallScript),
    );
}

proof fn lemma_phase_effect(path: Text, draft: DraftView, line: DirectiveView, next: DraftView)
    requires
        depofile::step(path, draft, line) == Ok::<DraftView, Messages>(next),
    ensures
        phase_effect(draft, line, next),
        draft.build_system is None ==> depofile::hook_of(line.keyword) is None,
{
    match depofile::hook_of(line.keyword) {
        Some((system, slot)) => {
            lemma_hooks_are_named(line.keyword);
            assert forall|other: Slot|
                #![trigger keyword_for(Some(system), other)]
                keyword_for(Some(system), other) == Some(line.keyword) <==> other == slot by {
                lemma_names_are_hooks(Some(system), other);
            }
            lemma_hook_effect(path, draft, line, system, slot, next);
        },
        None => {
            assert forall|slot: Slot|
                #![trigger keyword_for(draft.build_system, slot)]
                keyword_for(draft.build_system, slot) != Some(line.keyword) by {
                lemma_names_are_hooks(draft.build_system, slot);
            }
            lemma_other_effect(path, draft, line, next);
        },
    }
}

proof fn lemma_options(
    path: Text,
    number: nat,
    all: Seq<Text>,
    from: int,
    request: PackageRequestView,
    result: PackageRequestView,
)
    requires
        grammar::dependency_options(path, number, all, from, request) == Ok::<
            PackageRequestView,
            Messages,
        >(result),
        1 <= from <= all.len(),
        request == dependency_asked(all.take(from)),
    ensures
        result == dependency_asked(all),
    decreases all.len() - from,
{
    if from >= all.len() {
        assert(all.take(from) == all);
    } else {
        lemma_plain_letters();
        lemma_value_letters();
        let more = all.take(from + 2);
        assert(more.take(more.len() - 2) == all.take(from));
        assert(more[more.len() - 2] == all[from]);
        assert(more.last() == all[from + 1]);
        assert(more[0] == all.take(from)[0]);
        lemma_options(path, number, all, from + 2, dependency_asked(more), result);
    }
}

proof fn lemma_dependency_is_asked(path: Text, line: DirectiveView, request: PackageRequestView)
    requires
        grammar::dependency_request(
            path,
            line.line_number,
            line.remainder,
            crate::model::DEFAULT_NAMESPACE@,
        ) == Ok::<PackageRequestView, Messages>(request),
    ensures
        request == dependency_asked(words(line)),
{
    let all = words(line);
    let first = all.take(1);
    assert(first[0] == all[0]);
    assert(dependency_asked(first) == grammar::plain_request(
        all[0],
        crate::model::DEFAULT_NAMESPACE@,
        true,
    ));
    lemma_options(path, line.line_number, all, 1, dependency_asked(first), request);
}

/// What is known of a package once some lines are read.
spec fn told(lines: Seq<DirectiveView>, host: Text, draft: DraftView) -> bool {
    &&& draft.name == last_value(lines, "NAME"@)
    &&& draft.version == last_value(lines, "VERSION"@)
    &&& draft.source_subdir == last_value(lines, "SOURCE_SUBDIR"@)
    &&& draft.lazy == (lines_with(lines, "LAZY"@).len() > 0)
    &&& draft.system_libs == libraries_said(last_value(lines, "SYSTEM_LIBS"@))
    &&& draft.depends == lines_with(lines, "DEPENDS"@).map_values(
        |line: DirectiveView| dependency_asked(words(line)),
    )
    &&& draft.fetch == fetch_said(lines)
    &&& draft.git_submodules_recursive == (lines_with(lines, "GIT_SUBMODULES"@).len() > 0)
    &&& draft.artifacts == values(lines, "ARTIFACT"@)
    &&& draft.primary_target_name == last_value(lines, "PRIMARY_TARGET"@)
    &&& draft.links == listings(lines, "LINK"@)
    &&& draft.definitions == listings(lines, "DEFINES"@)
    &&& draft.options == listings(lines, "OPTIONS"@)
    &&& draft.features == listings(lines, "FEATURES"@)
}

/// What is known of the build of a package once some lines are read.
spec fn told_of_build(lines: Seq<DirectiveView>, host: Text, draft: DraftView) -> bool {
    &&& draft.stage_entries == stage_lines(lines).map_values(|line: DirectiveView| staged(line))
    &&& draft.build_root == root_said(last_words(lines, "BUILD_ROOT"@))
    &&& draft.toolchain == tools_said(last_value(lines, "TOOLCHAIN"@))
    &&& draft.toolchain_inputs == values(lines, "TOOLCHAIN_INPUT"@)
    &&& draft.build_arch == architecture_said(lines, "BUILD_ARCH"@, host)
    &&& draft.target_arch == architecture_said(lines, "TARGET_ARCH"@, host)
    &&& draft.build_system == system_said(last_value(lines, "BUILD_SYSTEM"@))
}

/// What is known of the phases of a package once some lines are read.
spec fn told_of_phases(lines: Seq<DirectiveView>, draft: DraftView) -> bool {
    let system = draft.build_system;
    &&& draft.args == values_if(lines, arg_keyword(system))
    &&& draft.defines == values_if(lines, define_keyword(system))
    &&& draft.build_args == values_if(lines, build_arg_keyword(system))
    &&& draft.install_args == values_if(lines, install_arg_keyword(system))
    &&& draft.skip_configure == (lines_if(lines, skip_keyword(system)).len() > 0)
    &&& draft.configure_direct == words_if(lines, configure_keyword(system))
    &&& draft.build_direct == words_if(lines, build_keyword(system))
    &&& draft.install_direct == words_if(lines, install_keyword(system))
    &&& draft.configure_script == block_if(lines, configure_script_keyword(system))
    &&& draft.build_script == block_if(lines, build_script_keyword(system))
    &&& draft.install_script == block_if(lines, install_script_keyword(system))
    &&& system is None ==> forall|i: int|
        0 <= i < lines.len() ==> depofile::hook_of((#[trigger] lines[i]).keyword) is None
}

proof fn lemma_one_more_line(lines: Seq<DirectiveView>, line: DirectiveView, keyword: Text)
    ensures
        lines_with(lines.push(line), keyword) == if line.keyword == keyword {
            lines_with(lines, keyword).push(line)
        } else {
            lines_with(lines, keyword)
        },
        values(lines.push(line), keyword) == if line.keyword == keyword {
            values(lines, keyword).push(words(line)[0])
        } else {
            values(lines, keyword)
        },
        listings(lines.push(line), keyword) == if line.keyword == keyword {
            listings(lines, keyword).push(
                (words(line)[0], words(line).subrange(1, words(line).len() as int)),
            )
        } else {
            listings(lines, keyword)
        },
        last_words(lines.push(line), keyword) == if line.keyword == keyword {
            Some(words(line))
        } else {
            last_words(lines, keyword)
        },
        last_value(lines.push(line), keyword) == if line.keyword == keyword {
            Some(words(line)[0])
        } else {
            last_value(lines, keyword)
        },
{
    assert(lines.push(line).drop_last() == lines);
    let found = lines_with(lines, keyword);
    if line.keyword == keyword {
        assert(found.push(line).last() == line);
        assert(values(lines.push(line), keyword) =~= values(lines, keyword).push(words(line)[0]));
        assert(listings(lines.push(line), keyword) =~= listings(lines, keyword).push(
            (words(line)[0], words(line).subrange(1, words(line).len() as int)),
        ));
    }
}

proof fn lemma_told_grows(
    path: Text,
    lines: Seq<DirectiveView>,
    host: Text,
    draft: DraftView,
    line: DirectiveView,
    next: DraftView,
)
    requires
        told(lines, host, draft),
        depofile::step(path, draft, line) == Ok::<DraftView, Messages>(next),
    ensures
        told(lines.push(line), host, next),
{
    lemma_package_effect(path, draft, line, next);
    lemma_source_effect(path, draft, line, next);
    lemma_export_effect(path, draft, line, next);
    lemma_one_more_line(lines, line, "NAME"@);
    lemma_one_more_line(lines, line, "VERSION"@);
    lemma_one_more_line(lines, line, "SOURCE_SUBDIR"@);
    lemma_one_more_line(lines, line, "LAZY"@);
    lemma_one_more_line(lines, line, "SYSTEM_LIBS"@);
    lemma_one_more_line(lines, line, "DEPENDS"@);
    lemma_one_more_line(lines, line, "SOURCE"@);
    lemma_one_more_line(lines, line, "GIT_SUBMODULES"@);
    lemma_one_more_line(lines, line, "ARTIFACT"@);
    lemma_one_more_line(lines, line, "PRIMARY_TARGET"@);
    lemma_one_more_line(lines, line, "LINK"@);
    lemma_one_more_line(lines, line, "DEFINES"@);
    lemma_one_more_line(lines, line, "OPTIONS"@);
    lemma_one_more_line(lines, line, "FEATURES"@);
    let asked = |line: DirectiveView| dependency_asked(words(line));
    let found = lines_with(lines, "DEPENDS"@);
    assert(found.push(line).map_values(asked) =~= found.map_values(asked).push(asked(line)));
    assert(lines.push(line).drop_last() == lines);
    assert(lines.push(line).last() == line);
    assert(next.fetch == fetch_said(lines.push(line))) by {
        lemma_plain_letters();
    }
}

proof fn lemma_told_of_build_grows(
    path: Text,
    lines: Seq<DirectiveView>,
    host: Text,
    draft: DraftView,
    line: DirectiveView,
    next: DraftView,
)
    requires
        told_of_build(lines, host, draft),
        depofile::step(path, draft, line) == Ok::<DraftView, Messages>(next),
    ensures
        told_of_build(lines.push(line), host, next),
{
    lemma_build_effect(path, draft, line, next);
    lemma_one_more_line(lines, line, "BUILD_ROOT"@);
    lemma_one_more_line(lines, line, "TOOLCHAIN"@);
    lemma_one_more_line(lines, line, "TOOLCHAIN_INPUT"@);
    lemma_one_more_line(lines, line, "BUILD_ARCH"@);
    lemma_one_more_line(lines, line, "TARGET_ARCH"@);
    lemma_one_more_line(lines, line, "BUILD_SYSTEM"@);
    assert(lines.push(line).drop_last() == lines);
    assert(lines.push(line).last() == line);
    let stage = |line: DirectiveView| staged(line);
    let found = stage_lines(lines);
    assert(found.push(line).map_values(stage) =~= found.map_values(stage).push(staged(line)));
}

proof fn lemma_no_line(lines: Seq<DirectiveView>, keyword: Text)
    requires
        depofile::hook_of(keyword) is Some,
        forall|i: int|
            0 <= i < lines.len() ==> depofile::hook_of((#[trigger] lines[i]).keyword) is None,
    ensures
        lines_with(lines, keyword).len() == 0,
    decreases lines.len(),
{
    if lines.len() > 0 {
        let rest = lines.drop_last();
        assert(lines[lines.len() - 1] == lines.last());
        assert forall|i: int| 0 <= i < rest.len() implies depofile::hook_of(
            (#[trigger] rest[i]).keyword,
        ) is None by {
            assert(lines[i] == rest[i]);
        }
        lemma_no_line(rest, keyword);
    }
}

/// How what lines say under a keyword of the build system grows with one more line, where the
/// keyword is the same before and after or no such line came before.
proof fn lemma_one_more_system_line(
    lines: Seq<DirectiveView>,
    line: DirectiveView,
    system: Option<BuildSystem>,
    before: Option<Text>,
    after: Option<Text>,
)
    requires
        before == after || (before is None && system is None),
        after matches Some(keyword) ==> depofile::hook_of(keyword) is Some,
        system is None ==> depofile::hook_of(line.keyword) is None && forall|i: int|
            0 <= i < lines.len() ==> depofile::hook_of((#[trigger] lines[i]).keyword) is None,
    ensures
        lines_if(lines.push(line), after) == if before == Some(line.keyword) {
            lines_if(lines, before).push(line)
        } else {
            lines_if(lines, before)
        },
        values_if(lines.push(line), after) == if before == Some(line.keyword) {
            values_if(lines, before).push(words(line)[0])
        } else {
            values_if(lines, before)
        },
        words_if(lines.push(line), after) == if before == Some(line.keyword) {
            Some(words(line))
        } else {
            words_if(lines, before)
        },
        block_if(lines.push(line), after) == if before == Some(line.keyword) {
            line.block
        } else {
            block_if(lines, before)
        },
{
    if let Some(keyword) = after {
        lemma_one_more_line(lines, line, keyword);
        if system is None {
            lemma_no_line(lines, keyword);
            assert(lines_with(lines, keyword) =~= Seq::<DirectiveView>::empty());
        }
        let found = lines_with(lines, keyword);
        let first = |line: DirectiveView| words(line)[0];
        assert(found.push(line).map_values(first) =~= found.map_values(first).push(first(line)));
        assert(found.push(line).last() == line);
    }
}

proof fn lemma_told_of_phases_grows(
    path: Text,
    lines: Seq<DirectiveView>,
    draft: DraftView,
    line: DirectiveView,
    next: DraftView,
)
    requires
        told_of_phases(lines, draft),
        depofile::step(path, draft, line) == Ok::<DraftView, Messages>(next),
    ensures
        told_of_phases(lines.push(line), next),
{
    lemma_phase_effect(path, draft, line, next);
    lemma_build_effect(path, draft, line, next);
    lemma_system_keywords();
    let (s, t) = (draft.build_system, next.build_system);
    assert(s == t || s is None);
    lemma_one_more_system_line(lines, line, s, arg_keyword(s), arg_keyword(t));
    lemma_one_more_system_line(lines, line, s, define_keyword(s), define_keyword(t));
    lemma_one_more_system_line(lines, line, s, build_arg_keyword(s), build_arg_keyword(t));
    lemma_one_more_system_line(lines, line, s, install_arg_keyword(s), install_arg_keyword(t));
    lemma_one_more_system_line(lines, line, s, skip_keyword(s), skip_keyword(t));
    lemma_one_more_system_line(lines, line, s, configure_keyword(s), configure_keyword(t));
    lemma_one_more_system_line(lines, line, s, build_keyword(s), build_keyword(t));
    lemma_one_more_system_line(lines, line, s, install_keyword(s), install_keyword(t));
    lemma_one_more_system_line(
        lines,
        line,
        s,
        configure_script_keyword(s),
        configure_script_keyword(t),
    );
    lemma_one_more_system_line(lines, line, s, build_script_keyword(s), build_script_keyword(t));
    lemma_one_more_system_line(
        lines,
        line,
        s,
        install_script_keyword(s),
        install_script_keyword(t),
    );
    if t is None {
        let all = lines.push(line);
        assert forall|i: int| 0 <= i < all.len() implies depofile::hook_of(
            (#[trigger] all[i]).keyword,
        ) is None by {
            if i < lines.len() {
                assert(all[i] == lines[i]);
            }
        }
    }
}

proof fn lemma_drafts_are_told(
    path: Text,
    lines: Seq<DirectiveView>,
    from: int,
    host: Text,
    draft: DraftView,
    result: DraftView,
)
    requires
        0 <= from <= lines.len(),
        depofile::drafted_from(path, lines, from, draft) == Ok::<DraftView, Messages>(result),
        told(lines.take(from), host, draft),
        told_of_build(lines.take(from), host, draft),
        told_of_phases(lines.take(from), draft),
    ensures
        told(lines, host, result),
        told_of_build(lines, host, result),
        told_of_phases(lines, result),
    decreases lines.len() - from,
{
    if from >= lines.len() {
        assert(lines.take(from) == lines);
    } else {
        let next = depofile::step(path, draft, lines[from])->Ok_0;
        let before = lines.take(from);
        assert(lines.take(from + 1) == before.push(lines[from]));
        lemma_told_grows(path, before, host, draft, lines[from], next);
        lemma_told_of_build_grows(path, before, host, draft, lines[from], next);
        lemma_told_of_phases_grows(path, before, draft, lines[from], next);
        lemma_drafts_are_told(path, lines, from + 1, host, next, result);
    }
}

proof fn lemma_nothing_is_told(host: Text)
    ensures
        told(Seq::empty(), host, depofile::blank(host)),
        told_of_build(Seq::empty(), host, depofile::blank(host)),
        told_of_phases(Seq::empty(), depofile::blank(host)),
{
    let none = Seq::<DirectiveView>::empty();
    let draft = depofile::blank(host);
    let asked = |line: DirectiveView| dependency_asked(words(line));
    let stage = |line: DirectiveView| staged(line);
    assert(none.map_values(asked) =~= draft.depends);
    assert(none.map_values(stage) =~= draft.stage_entries);
    assert(values(none, "ARTIFACT"@) =~= draft.artifacts);
    assert(values(none, "TOOLCHAIN_INPUT"@) =~= draft.toolchain_inputs);
    assert(listings(none, "LINK"@) =~= draft.links);
    assert(listings(none, "DEFINES"@) =~= draft.definitions);
    assert(listings(none, "OPTIONS"@) =~= draft.options);
    assert(listings(none, "FEATURES"@) =~= draft.features);
    assert(values_if(none, None) =~= Seq::<Text>::empty());
}

/// The draft that a DepoFile leads to.
spec fn draft_of(path: Text, lines: Seq<DirectiveView>, host: Text) -> DraftView {
    depofile::drafted_from(path, lines, 0, depofile::blank(host))->Ok_0
}

proof fn lemma_draft_is_told(
    platform: HostPlatform,
    path: Text,
    source: Text,
    host: Text,
    lines: Seq<DirectiveView>,
    spec: PackageSpecView,
)
    requires
        directives::directives_of(path, source) == Ok::<Seq<DirectiveView>, Messages>(lines),
        depofile::depofile_spec(platform, path, source, host) == Ok::<PackageSpecView, Messages>(
            spec,
        ),
    ensures
        told(lines, host, draft_of(path, lines, host)),
        told_of_build(lines, host, draft_of(path, lines, host)),
        told_of_phases(lines, draft_of(path, lines, host)),
        depofile::finished(platform, path, draft_of(path, lines, host)) == Ok::<
            PackageSpecView,
            Messages,
        >(spec),
{
    lemma_nothing_is_told(host);
    assert(lines.take(0) == Seq::<DirectiveView>::empty());
    lemma_drafts_are_told(
        path,
        lines,
        0,
        host,
        depofile::blank(host),
        draft_of(path, lines, host),
    );
}

/// A package is called and described as the lines of its DepoFile say: its name, version and
/// source are those of the last line about them, and every line about a dependency, a staged file
/// or an input adds one, in order.
pub proof fn lemma_packages_are_as_described(
    platform: HostPlatform,
    path: Text,
    source: Text,
    host: Text,
    lines: Seq<DirectiveView>,
    spec: PackageSpecView,
)
    requires
        directives::directives_of(path, source) == Ok::<Seq<DirectiveView>, Messages>(lines),
        depofile::depofile_spec(platform, path, source, host) == Ok::<PackageSpecView, Messages>(
            spec,
        ),
    ensures
        last_value(lines, "NAME"@) == Some(spec.name),
        last_value(lines, "VERSION"@) == Some(spec.version),
        spec.namespace == "release"@,
        spec.source_subdir == last_value(lines, "SOURCE_SUBDIR"@),
        spec.primary_target_name == last_value(lines, "PRIMARY_TARGET"@),
        spec.lazy <==> lines_with(lines, "LAZY"@).len() > 0,
        spec.system_libs == libraries_said(last_value(lines, "SYSTEM_LIBS"@)),
        spec.depends == lines_with(lines, "DEPENDS"@).map_values(
            |line: DirectiveView| dependency_asked(words(line)),
        ),
        spec.fetch == fetch_said(lines),
        spec.git_submodules_recursive <==> lines_with(lines, "GIT_SUBMODULES"@).len() > 0,
        spec.stage_entries == stage_lines(lines).map_values(|line: DirectiveView| staged(line)),
        spec.build_root == root_said(last_words(lines, "BUILD_ROOT"@)),
        spec.toolchain == tools_said(last_value(lines, "TOOLCHAIN"@)),
        spec.toolchain_inputs == values(lines, "TOOLCHAIN_INPUT"@),
        spec.build_arch == architecture_said(lines, "BUILD_ARCH"@, host),
        spec.target_arch == architecture_said(lines, "TARGET_ARCH"@, host),
        spec.build_system == match system_said(last_value(lines, "BUILD_SYSTEM"@)) {
            Some(system) => system,
            None => BuildSystem::Manual,
        },
{
    lemma_draft_is_told(platform, path, source, host, lines, spec);
}

/// What a phase runs by the command or the script that is given for it.
pub open spec fn runs_as_given(
    phase: Seq<Seq<Text>>,
    command: Option<Seq<Text>>,
    script: Option<Text>,
) -> bool {
    &&& command matches Some(words) ==> phase == seq![words]
    &&& command is None && script is Some ==> phase_laws::runs_script(phase, script->Some_0)
}

/// The arguments that define values.
pub open spec fn defining(values: Seq<Text>) -> Seq<Text> {
    values.map_values(|value: Text| "-D"@ + value)
}

/// The command or script on the last line about a phase is what the phase runs, word for word.
/// Without a build system nothing is run.
pub proof fn lemma_phases_run_what_is_given(
    platform: HostPlatform,
    path: Text,
    source: Text,
    host: Text,
    lines: Seq<DirectiveView>,
    spec: PackageSpecView,
)
    requires
        directives::directives_of(path, source) == Ok::<Seq<DirectiveView>, Messages>(lines),
        depofile::depofile_spec(platform, path, source, host) == Ok::<PackageSpecView, Messages>(
            spec,
        ),
    ensures
        ({
            let system = system_said(last_value(lines, "BUILD_SYSTEM"@));
            &&& system is None ==> spec.configure.len() == 0 && spec.build.len() == 0
                && spec.install.len() == 0
            &&& system is Some ==> {
                &&& lines_if(lines, skip_keyword(system)).len() == 0 ==> runs_as_given(
                    spec.configure,
                    words_if(lines, configure_keyword(system)),
                    block_if(lines, configure_script_keyword(system)),
                )
                &&& lines_if(lines, skip_keyword(system)).len() > 0 ==> phase_laws::runs_script(
                    spec.configure,
                    ":"@,
                )
                &&& runs_as_given(
                    spec.build,
                    words_if(lines, build_keyword(system)),
                    block_if(lines, build_script_keyword(system)),
                )
                &&& runs_as_given(
                    spec.install,
                    words_if(lines, install_keyword(system)),
                    block_if(lines, install_script_keyword(system)),
                )
            }
        }),
{
    lemma_draft_is_told(platform, path, source, host, lines, spec);
    let draft = draft_of(path, lines, host);
    let commands = depofile::draft_commands(path, draft)->Ok_0;
    assert(spec.configure == commands.configure);
    assert(spec.build == commands.build);
    assert(spec.install == commands.install);
    if let Some(system) = draft.build_system {
        phase_laws::lemma_given_phases(system, depofile::command_inputs(draft));
    }
}

/// The definitions that select the GNU tools for an architecture.
pub open spec fn cross_tools(arch: Text) -> Seq<Text> {
    let prefix = arch + "-linux-gnu"@;
    seq![
        "-DCMAKE_SYSTEM_NAME=Linux"@,
        "-DCMAKE_SYSTEM_PROCESSOR="@ + arch,
        "-DCMAKE_C_COMPILER="@ + prefix + "-gcc"@,
        "-DCMAKE_CXX_COMPILER="@ + prefix + "-g++"@,
        "-DCMAKE_AR="@ + prefix + "-ar"@,
        "-DCMAKE_RANLIB="@ + prefix + "-ranlib"@,
        "-DCMAKE_STRIP="@ + prefix + "-strip"@,
    ]
}

proof fn lemma_cross_tools(arch: Text)
    requires
        arch == "x86_64"@ || arch == "aarch64"@ || arch == "riscv64"@,
    ensures
        build_system::cmake_cross_args(arch) == cross_tools(arch),
{
    lemma_value_letters();
    reveal_strlit("x86_64");
    reveal_strlit("aarch64");
    reveal_strlit("riscv64");
    reveal_strlit("-linux-gnu");
    reveal_strlit("x86_64-linux-gnu");
    reveal_strlit("aarch64-linux-gnu");
    reveal_strlit("riscv64-linux-gnu");
    assert(crate::arch::gnu_prefix(arch) =~= arch + "-linux-gnu"@);
}

/// Where nothing else is given for the configure phase, every argument and every definition that
/// a line gives reaches the configure command of CMake, the arguments before the definitions and
/// both in order; nothing else does but the cross tools, where an image with its own tools builds
/// for another architecture. The build and the install phase are the default ones.
pub proof fn lemma_cmake_is_run_as_described(
    platform: HostPlatform,
    path: Text,
    source: Text,
    host: Text,
    lines: Seq<DirectiveView>,
    spec: PackageSpecView,
)
    requires
        directives::directives_of(path, source) == Ok::<Seq<DirectiveView>, Messages>(lines),
        depofile::depofile_spec(platform, path, source, host) == Ok::<PackageSpecView, Messages>(
            spec,
        ),
        last_value(lines, "BUILD_SYSTEM"@) == Some("CMAKE"@),
        spec.target_arch == "x86_64"@ || spec.target_arch == "aarch64"@ || spec.target_arch
            == "riscv64"@,
    ensures
        lines_with(lines, "CMAKE_CONFIGURE"@).len() == 0 && lines_with(
            lines,
            "CMAKE_CONFIGURE_SH"@,
        ).len() == 0 ==> spec.configure == seq![
            seq![
                "cmake"@,
                "-S"@,
                "${DEPO_SOURCE_DIR}"@,
                "-B"@,
                "${DEPO_BUILD_DIR}"@,
                "-G"@,
                "Ninja"@,
                "-DCMAKE_BUILD_TYPE=Release"@,
                "-DCMAKE_INSTALL_PREFIX=${DEPO_PREFIX}"@,
                "-DCMAKE_INSTALL_LIBDIR=lib"@,
            ] + values(lines, "CMAKE_ARG"@) + defining(values(lines, "CMAKE_DEFINE"@)) + (
            if spec.build_root is Oci && spec.toolchain == ToolchainSource::Rootfs
                && spec.build_arch != spec.target_arch {
                cross_tools(spec.target_arch)
            } else {
                Seq::empty()
            }),
        ],
        lines_with(lines, "CMAKE_BUILD"@).len() == 0 && lines_with(lines, "CMAKE_BUILD_SH"@).len()
            == 0 ==> spec.build == seq![
            seq!["cmake"@, "--build"@, "${DEPO_BUILD_DIR}"@, "--parallel"@],
        ],
        lines_with(lines, "CMAKE_INSTALL"@).len() == 0 && lines_with(
            lines,
            "CMAKE_INSTALL_SH"@,
        ).len() == 0 ==> spec.install == seq![
            seq!["cmake"@, "--install"@, "${DEPO_BUILD_DIR}"@],
        ],
{
    lemma_draft_is_told(platform, path, source, host, lines, spec);
    lemma_value_letters();
    let draft = draft_of(path, lines, host);
    let inputs = depofile::command_inputs(draft);
    let none = Seq::<Text>::empty();
    assert(draft.build_system == Some(BuildSystem::Cmake));
    assert(draft.build_args =~= none);
    assert(draft.install_args =~= none);
    assert(!draft.skip_configure);
    phase_laws::lemma_cmake_phases(inputs);
    lemma_cross_tools(spec.target_arch);
    let fixed = seq![
        "cmake"@,
        "-S"@,
        "${DEPO_SOURCE_DIR}"@,
        "-B"@,
        "${DEPO_BUILD_DIR}"@,
        "-G"@,
        "Ninja"@,
        "-DCMAKE_BUILD_TYPE=Release"@,
        "-DCMAKE_INSTALL_PREFIX=${DEPO_PREFIX}"@,
        "-DCMAKE_INSTALL_LIBDIR=lib"@,
    ];
    let args = values(lines, "CMAKE_ARG"@);
    let defines = values(lines, "CMAKE_DEFINE"@);
    assert(depofile::configure_arguments(draft) =~= args + defining(defines));
    assert(fixed + (args + defining(defines)) =~= fixed + args + defining(defines));
    assert(fixed + args + defining(defines) + none =~= fixed + args + defining(defines));
    assert(seq!["cmake"@, "--build"@, "${DEPO_BUILD_DIR}"@, "--parallel"@] + none =~= seq![
        "cmake"@,
        "--build"@,
        "${DEPO_BUILD_DIR}"@,
        "--parallel"@,
    ]);
    assert(seq!["cmake"@, "--install"@, "${DEPO_BUILD_DIR}"@] + none =~= seq![
        "cmake"@,
        "--install"@,
        "${DEPO_BUILD_DIR}"@,
    ]);
}

/// Meson takes arguments and definitions in the same way, and its other phases are the default
/// ones too.
pub proof fn lemma_meson_is_run_as_described(
    platform: HostPlatform,
    path: Text,
    source: Text,
    host: Text,
    lines: Seq<DirectiveView>,
    spec: PackageSpecView,
)
    requires
        directives::directives_of(path, source) == Ok::<Seq<DirectiveView>, Messages>(lines),
        depofile::depofile_spec(platform, path, source, host) == Ok::<PackageSpecView, Messages>(
            spec,
        ),
        last_value(lines, "BUILD_SYSTEM"@) == Some("MESON"@),
    ensures
        lines_with(lines, "MESON_SETUP"@).len() == 0 && lines_with(lines, "MESON_SETUP_SH"@).len()
            == 0 ==> spec.configure == seq![
            seq![
                "meson"@,
                "setup"@,
                "${DEPO_BUILD_DIR}"@,
                "${DEPO_SOURCE_DIR}"@,
                "--wipe"@,
                "--buildtype=release"@,
                "--prefix=${DEPO_PREFIX}"@,
                "--libdir=lib"@,
            ] + values(lines, "MESON_ARG"@) + defining(values(lines, "MESON_DEFINE"@)),
        ],
        lines_with(lines, "MESON_COMPILE"@).len() == 0 && lines_with(
            lines,
            "MESON_COMPILE_SH"@,
        ).len() == 0 ==> spec.build == seq![
            seq!["meson"@, "compile"@, "-C"@, "${DEPO_BUILD_DIR}"@],
        ],
        lines_with(lines, "MESON_INSTALL"@).len() == 0 && lines_with(
            lines,
            "MESON_INSTALL_SH"@,
        ).len() == 0 ==> spec.install == seq![
            seq!["meson"@, "install"@, "-C"@, "${DEPO_BUILD_DIR}"@],
        ],
{
    lemma_draft_is_told(platform, path, source, host, lines, spec);
    lemma_value_letters();
    let draft = draft_of(path, lines, host);
    let inputs = depofile::command_inputs(draft);
    let none = Seq::<Text>::empty();
    assert(draft.build_system == Some(BuildSystem::Meson));
    assert(draft.build_args =~= none);
    assert(draft.install_args =~= none);
    phase_laws::lemma_meson_phases(inputs);
    let fixed = seq![
        "meson"@,
        "setup"@,
        "${DEPO_BUILD_DIR}"@,
        "${DEPO_SOURCE_DIR}"@,
        "--wipe"@,
        "--buildtype=release"@,
        "--prefix=${DEPO_PREFIX}"@,
        "--libdir=lib"@,
    ];
    let args = values(lines, "MESON_ARG"@);
    let defines = values(lines, "MESON_DEFINE"@);
    assert(depofile::configure_arguments(draft) =~= args + defining(defines));
    assert(fixed + (args + defining(defines)) =~= fixed + args + defining(defines));
    assert(seq!["meson"@, "compile"@, "-C"@, "${DEPO_BUILD_DIR}"@] + none =~= seq![
        "meson"@,
        "compile"@,
        "-C"@,
        "${DEPO_BUILD_DIR}"@,
    ]);
    assert(seq!["meson"@, "install"@, "-C"@, "${DEPO_BUILD_DIR}"@] + none =~= seq![
        "meson"@,
        "install"@,
        "-C"@,
        "${DEPO_BUILD_DIR}"@,
    ]);
}

/// The arguments on the lines of an Autoconf package reach `./configure` in order, and then
/// `make` and `make install` are run.
pub proof fn lemma_autoconf_is_run_as_described(
    platform: HostPlatform,
    path: Text,
    source: Text,
    host: Text,
    lines: Seq<DirectiveView>,
    spec: PackageSpecView,
)
    requires
        directives::directives_of(path, source) == Ok::<Seq<DirectiveView>, Messages>(lines),
        depofile::depofile_spec(platform, path, source, host) == Ok::<PackageSpecView, Messages>(
            spec,
        ),
        last_value(lines, "BUILD_SYSTEM"@) == Some("AUTOCONF"@),
    ensures
        lines_with(lines, "AUTOCONF_CONFIGURE"@).len() == 0 && lines_with(
            lines,
            "AUTOCONF_CONFIGURE_SH"@,
        ).len() == 0 && lines_with(lines, "AUTOCONF_SKIP_CONFIGURE"@).len() == 0
            ==> phase_laws::runs_line(
            spec.configure,
            "./configure --prefix=\"$DEPO_PREFIX\" --libdir=\"$DEPO_PREFIX/lib\""@,
            values(lines, "AUTOCONF_ARG"@),
        ),
        lines_with(lines, "AUTOCONF_BUILD"@).len() == 0 && lines_with(
            lines,
            "AUTOCONF_BUILD_SH"@,
        ).len() == 0 ==> phase_laws::runs_script(spec.build, "make -j$(nproc)"@),
        lines_with(lines, "AUTOCONF_INSTALL"@).len() == 0 && lines_with(
            lines,
            "AUTOCONF_INSTALL_SH"@,
        ).len() == 0 ==> phase_laws::runs_script(spec.install, "make install"@),
{
    lemma_draft_is_told(platform, path, source, host, lines, spec);
    lemma_value_letters();
    let draft = draft_of(path, lines, host);
    let inputs = depofile::command_inputs(draft);
    let none = Seq::<Text>::empty();
    assert(draft.build_system == Some(BuildSystem::Autoconf));
    assert(draft.build_args =~= none);
    assert(draft.install_args =~= none);
    assert(draft.defines =~= none);
    assert(depofile::configure_arguments(draft) =~= values(lines, "AUTOCONF_ARG"@));
    phase_laws::lemma_autoconf_phases(inputs);
}

/// The arguments on the lines of a Cargo package reach `cargo build` and `cargo install` in
/// order; it is installed by Cargo only where there are arguments for that.
pub proof fn lemma_cargo_is_run_as_described(
    platform: HostPlatform,
    path: Text,
    source: Text,
    host: Text,
    lines: Seq<DirectiveView>,
    spec: PackageSpecView,
)
    requires
        directives::directives_of(path, source) == Ok::<Seq<DirectiveView>, Messages>(lines),
        depofile::depofile_spec(platform, path, source, host) == Ok::<PackageSpecView, Messages>(
            spec,
        ),
        last_value(lines, "BUILD_SYSTEM"@) == Some("CARGO"@),
    ensures
        spec.configure.len() == 0,
        lines_with(lines, "CARGO_BUILD"@).len() == 0 && lines_with(lines, "CARGO_BUILD_SH"@).len()
            == 0 ==> phase_laws::runs_words(
            spec.build,
            seq![
                "cargo"@,
                "build"@,
                "--release"@,
                "--target-dir"@,
                "${DEPO_BUILD_DIR}/cargo-target"@,
            ] + values(lines, "CARGO_BUILD_ARG"@),
        ),
        lines_with(lines, "CARGO_INSTALL"@).len() == 0 && lines_with(
            lines,
            "CARGO_INSTALL_SH"@,
        ).len() == 0 ==> (if lines_with(lines, "CARGO_INSTALL_ARG"@).len() == 0 {
            spec.install.len() == 0
        } else {
            phase_laws::runs_words(
                spec.install,
                seq![
                    "cargo"@,
                    "install"@,
                    "--path"@,
                    "${DEPO_SOURCE_DIR}"@,
                    "--root"@,
                    "${DEPO_PREFIX}"@,
                ] + values(lines, "CARGO_INSTALL_ARG"@),
            )
        }),
{
    lemma_draft_is_told(platform, path, source, host, lines, spec);
    lemma_value_letters();
    let draft = draft_of(path, lines, host);
    let inputs = depofile::command_inputs(draft);
    assert(draft.build_system == Some(BuildSystem::Cargo));
    assert(!draft.skip_configure);
    phase_laws::lemma_cargo_phases(inputs);
}

/// Whether the word at a position of the words about a target names one of its faces: each name
/// but the last is followed by one path, and `INTERFACE` by all that is left.
pub open spec fn names_face(words: Seq<Text>, index: int) -> bool {
    &&& 1 <= index < words.len()
    &&& index % 2 == 1
    &&& forall|i: int| 1 <= i < index && i % 2 == 1 ==> #[trigger] words[i] != "INTERFACE"@
}

/// Whether the words about a target give a path for one of its libraries.
pub open spec fn gives_library(words: Seq<Text>, face: Text, path: Text) -> bool {
    exists|i: int| #[trigger]
        names_face(words, i) && i + 1 < words.len() && words[i] == face && words[i + 1] == path
}

/// Whether the words about a target give a directory for its interface.
pub open spec fn gives_directory(words: Seq<Text>, directory: Text) -> bool {
    exists|i: int, j: int| #[trigger]
        names_face(words, i) && words[i] == "INTERFACE"@ && i < j < words.len()
            && #[trigger] words[j]
            == directory
}

/// Whether the words about a target declare its interface.
pub open spec fn gives_interface(words: Seq<Text>) -> bool {
    exists|i: int| #[trigger] names_face(words, i) && words[i] == "INTERFACE"@
}

/// Whether a target has all that words say of it.
pub open spec fn has_faces(target: TargetSpecView, words: Seq<Text>) -> bool {
    &&& target.name == words[0]
    &&& forall|path: Text| #[trigger]
        gives_library(words, "STATIC"@, path) ==> target.static_path == Some(path)
    &&& forall|path: Text| #[trigger]
        gives_library(words, "SHARED"@, path) ==> target.shared_path == Some(path)
    &&& forall|path: Text| #[trigger]
        gives_library(words, "OBJECT"@, path) ==> target.object_path == Some(path)
    &&& gives_interface(words) ==> target.interface_declared
    &&& forall|directory: Text| #[trigger]
        gives_directory(words, directory) ==> target.include_dirs.contains(directory)
}

/// Whether a line about targets is about a target of this name.
pub open spec fn is_about(line: DirectiveView, name: Text) -> bool {
    line.keyword == "TARGET"@ && words(line)[0] == name
}

/// Whether all that a target has was said by a line about it.
pub open spec fn has_only_said(lines: Seq<DirectiveView>, target: TargetSpecView) -> bool {
    &&& target.static_path matches Some(path) ==> exists|i: int|
        0 <= i < lines.len() && is_about(#[trigger] lines[i], target.name) && gives_library(
            words(lines[i]),
            "STATIC"@,
            path,
        )
    &&& target.shared_path matches Some(path) ==> exists|i: int|
        0 <= i < lines.len() && is_about(#[trigger] lines[i], target.name) && gives_library(
            words(lines[i]),
            "SHARED"@,
            path,
        )
    &&& target.object_path matches Some(path) ==> exists|i: int|
        0 <= i < lines.len() && is_about(#[trigger] lines[i], target.name) && gives_library(
            words(lines[i]),
            "OBJECT"@,
            path,
        )
    &&& forall|directory: Text| #[trigger]
        target.include_dirs.contains(directory) ==> exists|i: int|
            0 <= i < lines.len() && is_about(#[trigger] lines[i], target.name)
                && gives_directory(words(lines[i]), directory)
}

/// Whether some target has all that words say of it.
pub open spec fn is_declared(targets: Seq<TargetSpecView>, words: Seq<Text>) -> bool {
    exists|i: int| 0 <= i < targets.len() && has_faces(#[trigger] targets[i], words)
}

/// Whether a target only gained something.
spec fn grown(target: TargetSpecView, result: TargetSpecView) -> bool {
    &&& result.name == target.name
    &&& target.static_path is Some ==> result.static_path == target.static_path
    &&& target.shared_path is Some ==> result.shared_path == target.shared_path
    &&& target.object_path is Some ==> result.object_path == target.object_path
    &&& target.interface_declared ==> result.interface_declared
    &&& forall|directory: Text| #[trigger]
        target.include_dirs.contains(directory) ==> result.include_dirs.contains(directory)
    &&& result.link_libraries == target.link_libraries
}

/// What the words from a position on do to a target.
spec fn faces_from(
    target: TargetSpecView,
    all: Seq<Text>,
    from: int,
    result: TargetSpecView,
) -> bool {
    &&& grown(target, result)
    &&& forall|i: int| #[trigger]
        names_face(all, i) && from <= i ==> {
            &&& all[i] == "STATIC"@ ==> i + 1 < all.len() && result.static_path == Some(all[i + 1])
            &&& all[i] == "SHARED"@ ==> i + 1 < all.len() && result.shared_path == Some(all[i + 1])
            &&& all[i] == "OBJECT"@ ==> i + 1 < all.len() && result.object_path == Some(all[i + 1])
            &&& all[i] == "INTERFACE"@ ==> result.interface_declared && forall|j: int|
                i < j < all.len() ==> result.include_dirs.contains(#[trigger] all[j])
        }
    &&& result.static_path matches Some(path) ==> target.static_path == Some(path)
        || gives_library(all, "STATIC"@, path)
    &&& result.shared_path matches Some(path) ==> target.shared_path == Some(path)
        || gives_library(all, "SHARED"@, path)
    &&& result.object_path matches Some(path) ==> target.object_path == Some(path)
        || gives_library(all, "OBJECT"@, path)
    &&& forall|directory: Text| #[trigger]
        result.include_dirs.contains(directory) ==> target.include_dirs.contains(directory)
            || gives_directory(all, directory)
}

proof fn lemma_faces(
    path: Text,
    number: nat,
    all: Seq<Text>,
    from: int,
    target: TargetSpecView,
    result: TargetSpecView,
)
    requires
        grammar::target_facets(path, number, all, from, target) == Ok::<TargetSpecView, Messages>(
            result,
        ),
        1 <= from,
        from % 2 == 1,
        forall|i: int| 1 <= i < from && i % 2 == 1 ==> #[trigger] all[i] != "INTERFACE"@,
    ensures
        faces_from(target, all, from, result),
    decreases all.len() - from,
{
    lemma_value_letters();
    if from < all.len() {
        assert(names_face(all, from));
        if all[from] == "INTERFACE"@ {
            let added = all.subrange(from + 1, all.len() as int);
            let whole = target.include_dirs + added;
            assert(result.include_dirs == whole);
            assert forall|j: int| from < j < all.len() implies whole.contains(
                #[trigger] all[j],
            ) by {
                assert(whole[target.include_dirs.len() + j - from - 1] == all[j]);
            }
            assert forall|directory: Text| #[trigger] target.include_dirs.contains(
                directory,
            ) implies whole.contains(directory) by {
                let at = target.include_dirs.index_of(directory);
                assert(whole[at] == directory);
            }
            assert forall|directory: Text| #[trigger] whole.contains(directory) implies
                target.include_dirs.contains(directory) || gives_directory(all, directory) by {
                let at = whole.index_of(directory);
                if at < target.include_dirs.len() {
                    assert(target.include_dirs[at] == directory);
                } else {
                    let j = at - target.include_dirs.len() + from + 1;
                    assert(all[j] == directory);
                    assert(names_face(all, from));
                }
            }
            assert forall|i: int| #[trigger] names_face(all, i) && from <= i implies i == from by {
                if i > from {
                    assert(all[from] != "INTERFACE"@);
                }
            }
        } else {
            let value = all[from + 1];
            let next = if all[from] == "STATIC"@ {
                TargetSpecView { static_path: Some(value), ..target }
            } else if all[from] == "SHARED"@ {
                TargetSpecView { shared_path: Some(value), ..target }
            } else {
                TargetSpecView { object_path: Some(value), ..target }
            };
            lemma_faces(path, number, all, from + 2, next, result);
            assert(gives_library(all, all[from], value));
            assert forall|i: int| #[trigger] names_face(all, i) && from <= i implies i == from || i
                >= from + 2 by {}
        }
    }
}

/// What is known of the targets of a package once some lines are read.
spec fn told_of_targets(lines: Seq<DirectiveView>, targets: Seq<TargetSpecView>) -> bool {
    &&& forall|i: int|
        0 <= i < lines.len() && (#[trigger] lines[i]).keyword == "TARGET"@ ==> is_declared(
            targets,
            words(lines[i]),
        )
    &&& forall|i: int| 0 <= i < targets.len() ==> has_only_said(lines, #[trigger] targets[i])
    &&& forall|i: int, j: int|
        0 <= i < j < targets.len() ==> (#[trigger] targets[i]).name != (#[trigger] targets[j]).name
    &&& forall|i: int|
        0 <= i < targets.len() ==> (#[trigger] targets[i]).link_libraries.len() == 0
}

proof fn lemma_position(targets: Seq<TargetSpecView>, name: Text, from: int)
    requires
        0 <= from <= targets.len(),
    ensures
        match crate::model::target_position(targets, name, from) {
            Some(index) => from <= index < targets.len() && targets[index].name == name,
            None => forall|i: int|
                from <= i < targets.len() ==> (#[trigger] targets[i]).name != name,
        },
    decreases targets.len() - from,
{
    if from < targets.len() && targets[from].name != name {
        lemma_position(targets, name, from + 1);
    }
}

proof fn lemma_said_stays(
    lines: Seq<DirectiveView>,
    line: DirectiveView,
    target: TargetSpecView,
)
    requires
        has_only_said(lines, target),
    ensures
        has_only_said(lines.push(line), target),
{
    let all = lines.push(line);
    assert forall|i: int| 0 <= i < lines.len() implies all[i] == #[trigger] lines[i] by {}
    if let Some(path) = target.static_path {
        let i = choose|i: int|
            0 <= i < lines.len() && is_about(#[trigger] lines[i], target.name) && gives_library(
                words(lines[i]),
                "STATIC"@,
                path,
            );
        assert(is_about(all[i], target.name));
    }
    if let Some(path) = target.shared_path {
        let i = choose|i: int|
            0 <= i < lines.len() && is_about(#[trigger] lines[i], target.name) && gives_library(
                words(lines[i]),
                "SHARED"@,
                path,
            );
        assert(is_about(all[i], target.name));
    }
    if let Some(path) = target.object_path {
        let i = choose|i: int|
            0 <= i < lines.len() && is_about(#[trigger] lines[i], target.name) && gives_library(
                words(lines[i]),
                "OBJECT"@,
                path,
            );
        assert(is_about(all[i], target.name));
    }
    assert forall|directory: Text| #[trigger] target.include_dirs.contains(
        directory,
    ) implies exists|i: int|
        0 <= i < all.len() && is_about(#[trigger] all[i], target.name) && gives_directory(
            words(all[i]),
            directory,
        ) by {
        let i = choose|i: int|
            0 <= i < lines.len() && is_about(#[trigger] lines[i], target.name) && gives_directory(
                words(lines[i]),
                directory,
            );
        assert(is_about(all[i], target.name));
    }
}

/// A target that a line added to has what was said before and what the line says.
proof fn lemma_said_grows(
    lines: Seq<DirectiveView>,
    line: DirectiveView,
    target: TargetSpecView,
    result: TargetSpecView,
)
    requires
        has_only_said(lines, target),
        is_about(line, target.name),
        faces_from(target, words(line), 1, result),
    ensures
        has_only_said(lines.push(line), result),
{
    lemma_said_stays(lines, line, target);
    let all = lines.push(line);
    let last = lines.len() as int;
    assert(all[last] == line);
    assert(is_about(all[last], target.name));
    assert forall|directory: Text| #[trigger] result.include_dirs.contains(
        directory,
    ) implies exists|i: int|
        0 <= i < all.len() && is_about(#[trigger] all[i], result.name) && gives_directory(
            words(all[i]),
            directory,
        ) by {
        if target.include_dirs.contains(directory) {
        } else {
            assert(gives_directory(words(all[last]), directory));
        }
    }
}

proof fn lemma_faces_are_had(target: TargetSpecView, all: Seq<Text>, result: TargetSpecView)
    requires
        faces_from(target, all, 1, result),
        target.name == all[0],
    ensures
        has_faces(result, all),
{
    assert forall|path: Text| #[trigger] gives_library(all, "STATIC"@, path) implies
        result.static_path == Some(path) by {
        let i = choose|i: int| #[trigger]
            names_face(all, i) && i + 1 < all.len() && all[i] == "STATIC"@ && all[i + 1] == path;
        assert(names_face(all, i));
    }
    assert forall|path: Text| #[trigger] gives_library(all, "SHARED"@, path) implies
        result.shared_path == Some(path) by {
        let i = choose|i: int| #[trigger]
            names_face(all, i) && i + 1 < all.len() && all[i] == "SHARED"@ && all[i + 1] == path;
        assert(names_face(all, i));
    }
    assert forall|path: Text| #[trigger] gives_library(all, "OBJECT"@, path) implies
        result.object_path == Some(path) by {
        let i = choose|i: int| #[trigger]
            names_face(all, i) && i + 1 < all.len() && all[i] == "OBJECT"@ && all[i + 1] == path;
        assert(names_face(all, i));
    }
    if gives_interface(all) {
        let i = choose|i: int| #[trigger] names_face(all, i) && all[i] == "INTERFACE"@;
        assert(names_face(all, i));
    }
    assert forall|directory: Text| #[trigger] gives_directory(all, directory) implies
        result.include_dirs.contains(directory) by {
        let (i, j) = choose|i: int, j: int| #[trigger]
            names_face(all, i) && all[i] == "INTERFACE"@ && i < j < all.len()
                && #[trigger] all[j] == directory;
        assert(names_face(all, i));
    }
}

proof fn lemma_faces_stay(target: TargetSpecView, result: TargetSpecView, all: Seq<Text>)
    requires
        has_faces(target, all),
        grown(target, result),
    ensures
        has_faces(result, all),
{
}

proof fn lemma_told_of_targets_grows(
    path: Text,
    lines: Seq<DirectiveView>,
    draft: DraftView,
    line: DirectiveView,
    next: DraftView,
)
    requires
        told_of_targets(lines, draft.targets),
        depofile::step(path, draft, line) == Ok::<DraftView, Messages>(next),
    ensures
        told_of_targets(lines.push(line), next.targets),
{
    lemma_plain_keywords();
    lemma_keyword_groups();
    lemma_keywords_differ();
    lemma_export_effect(path, draft, line, next);
    let more = lines.push(line);
    let (before, after) = (draft.targets, next.targets);
    if line.keyword != "TARGET"@ {
        assert forall|i: int|
            0 <= i < more.len() && (#[trigger] more[i]).keyword == "TARGET"@ implies is_declared(
            after,
            words(more[i]),
        ) by {
            assert(more[i] == lines[i]);
        }
        assert forall|i: int| 0 <= i < after.len() implies has_only_said(
            more,
            #[trigger] after[i],
        ) by {
            lemma_said_stays(lines, line, after[i]);
        }
    } else {
        let all = words(line);
        lemma_position(before, all[0], 0);
        let place = crate::model::target_position(before, all[0], 0);
        let (index, start) = match place {
            Some(index) => (index, before[index]),
            None => (before.len() as int, TargetSpecView::named(all[0])),
        };
        let result = after[index];
        lemma_faces(path, line.line_number, all, 1, start, result);
        lemma_faces_are_had(start, all, result);
        assert(has_only_said(lines, start));
        lemma_said_grows(lines, line, start, result);
        assert forall|i: int| 0 <= i < after.len() && i != index implies after[i]
            == #[trigger] before[i] by {}
        assert(is_declared(after, all)) by {
            assert(has_faces(after[index], all));
        }
        assert forall|i: int|
            0 <= i < more.len() && (#[trigger] more[i]).keyword == "TARGET"@ implies is_declared(
            after,
            words(more[i]),
        ) by {
            if i < lines.len() {
                assert(more[i] == lines[i]);
                let k = choose|k: int|
                    0 <= k < before.len() && has_faces(#[trigger] before[k], words(lines[i]));
                if k == index {
                    lemma_faces_stay(before[k], after[k], words(lines[i]));
                }
                assert(has_faces(after[k], words(lines[i])));
            }
        }
        assert forall|i: int| 0 <= i < after.len() implies has_only_said(
            more,
            #[trigger] after[i],
        ) by {
            if i != index {
                lemma_said_stays(lines, line, before[i]);
            }
        }
    }
}

proof fn lemma_drafted_targets_are_told(
    path: Text,
    lines: Seq<DirectiveView>,
    from: int,
    draft: DraftView,
    result: DraftView,
)
    requires
        0 <= from <= lines.len(),
        depofile::drafted_from(path, lines, from, draft) == Ok::<DraftView, Messages>(result),
        told_of_targets(lines.take(from), draft.targets),
    ensures
        told_of_targets(lines, result.targets),
    decreases lines.len() - from,
{
    if from >= lines.len() {
        assert(lines.take(from) == lines);
    } else {
        let next = depofile::step(path, draft, lines[from])->Ok_0;
        assert(lines.take(from + 1) == lines.take(from).push(lines[from]));
        lemma_told_of_targets_grows(path, lines.take(from), draft, lines[from], next);
        lemma_drafted_targets_are_told(path, lines, from + 1, next, result);
    }
}

proof fn lemma_completed(
    platform: HostPlatform,
    path: Text,
    draft: DraftView,
    from: int,
    done: Seq<TargetSpecView>,
    result: Seq<TargetSpecView>,
)
    requires
        0 <= from <= draft.targets.len(),
        done.len() == from,
        forall|i: int|
            0 <= i < from ==> #[trigger] done[i] == depofile::completed(
                platform,
                draft,
                draft.targets[i],
            ),
        depofile::completed_from(platform, path, draft, from, done) == Ok::<
            Seq<TargetSpecView>,
            Messages,
        >(result),
    ensures
        result.len() == draft.targets.len(),
        forall|i: int|
            0 <= i < result.len() ==> #[trigger] result[i] == depofile::completed(
                platform,
                draft,
                draft.targets[i],
            ),
    decreases draft.targets.len() - from,
{
    if from < draft.targets.len() {
        let target = depofile::completed(platform, draft, draft.targets[from]);
        lemma_completed(platform, path, draft, from + 1, done.push(target), result);
    }
}

/// What the lines with a keyword list for a target, in order.
pub open spec fn listed_for(lines: Seq<DirectiveView>, keyword: Text, name: Text) -> Seq<Text>
    decreases lines.len(),
{
    if lines.len() == 0 {
        Seq::empty()
    } else {
        let before = listed_for(lines.drop_last(), keyword, name);
        let line = lines.last();
        if line.keyword == keyword && words(line)[0] == name {
            before + words(line).subrange(1, words(line).len() as int)
        } else {
            before
        }
    }
}

proof fn lemma_gathered(lines: Seq<DirectiveView>, keyword: Text, name: Text)
    ensures
        depofile::gathered(listings(lines, keyword), name) == listed_for(lines, keyword, name),
    decreases lines.len(),
{
    if lines.len() > 0 {
        let rest = lines.drop_last();
        let line = lines.last();
        lemma_gathered(rest, keyword, name);
        assert(rest.push(line) == lines);
        lemma_one_more_line(rest, line, keyword);
        if line.keyword == keyword {
            let entry = (words(line)[0], words(line).subrange(1, words(line).len() as int));
            let pending = listings(rest, keyword).push(entry);
            assert(pending.drop_last() == listings(rest, keyword));
            assert(pending.last() == entry);
        }
    } else {
        assert(listings(lines, keyword).len() == 0);
    }
}

/// The targets of a package are those that its lines declare, each with the libraries and
/// directories that its lines give, wherever they stand, and with nothing else; what it links to
/// and what it hands on is what the lines list for it, in order and none twice. No two have one
/// name.
pub proof fn lemma_targets_are_as_described(
    platform: HostPlatform,
    path: Text,
    source: Text,
    host: Text,
    lines: Seq<DirectiveView>,
    spec: PackageSpecView,
)
    requires
        directives::directives_of(path, source) == Ok::<Seq<DirectiveView>, Messages>(lines),
        depofile::depofile_spec(platform, path, source, host) == Ok::<PackageSpecView, Messages>(
            spec,
        ),
    ensures
        forall|i: int|
            0 <= i < lines.len() && (#[trigger] lines[i]).keyword == "TARGET"@ ==> is_exported(
                platform,
                spec.targets,
                words(lines[i]),
            ),
        forall|i: int|
            0 <= i < spec.targets.len() ==> has_only_said(lines, #[trigger] spec.targets[i]),
        forall|i: int, j: int|
            0 <= i < j < spec.targets.len() ==> (#[trigger] spec.targets[i]).name != (
            #[trigger] spec.targets[j]).name,
        forall|i: int|
            0 <= i < spec.targets.len() ==> hands_on_what_is_listed(
                lines,
                #[trigger] spec.targets[i],
            ),
        forall|i: int|
            0 <= i < lines.len() && (#[trigger] lines[i]).keyword == "ARTIFACT"@
                ==> paths::names_path(platform, spec.artifacts, words(lines[i])[0]),
        forall|i: int|
            0 <= i < spec.artifacts.len() ==> values(lines, "ARTIFACT"@).contains(
                #[trigger] spec.artifacts[i],
            ),
{
    lemma_draft_is_told(platform, path, source, host, lines, spec);
    let draft = draft_of(path, lines, host);
    let none = Seq::<DirectiveView>::empty();
    assert(lines.take(0) == none);
    lemma_drafted_targets_are_told(path, lines, 0, depofile::blank(host), draft);
    lemma_completed(platform, path, draft, 0, Seq::empty(), spec.targets);
    assert forall|i: int|
        0 <= i < lines.len() && (#[trigger] lines[i]).keyword == "TARGET"@ implies is_exported(
        platform,
        spec.targets,
        words(lines[i]),
    ) by {
        let k = choose|k: int|
            0 <= k < draft.targets.len() && has_faces(#[trigger] draft.targets[k], words(lines[i]));
        let target = spec.targets[k];
        assert forall|directory: Text| #[trigger] gives_directory(words(lines[i]), directory) implies
            paths::names_path(platform, target.include_dirs, directory) by {
            lemma_distinct_paths(platform, draft.targets[k].include_dirs);
        }
        assert(exports_faces(platform, target, words(lines[i])));
    }
    assert forall|i: int| 0 <= i < spec.targets.len() implies has_only_said(
        lines,
        #[trigger] spec.targets[i],
    ) by {
        lemma_distinct_paths(platform, draft.targets[i].include_dirs);
        assert(has_only_said(lines, draft.targets[i]));
    }
    assert forall|i: int| 0 <= i < spec.targets.len() implies hands_on_what_is_listed(
        lines,
        #[trigger] spec.targets[i],
    ) by {
        let name = spec.targets[i].name;
        lemma_gathered(lines, "LINK"@, name);
        lemma_gathered(lines, "DEFINES"@, name);
        lemma_gathered(lines, "OPTIONS"@, name);
        lemma_gathered(lines, "FEATURES"@, name);
        lemma_distinct_keeps_first(listed_for(lines, "LINK"@, name));
        lemma_distinct_keeps_first(listed_for(lines, "DEFINES"@, name));
        lemma_distinct_keeps_first(listed_for(lines, "OPTIONS"@, name));
        lemma_distinct_keeps_first(listed_for(lines, "FEATURES"@, name));
    }
    assert forall|i: int, j: int| 0 <= i < j < spec.targets.len() implies (
    #[trigger] spec.targets[i]).name != (#[trigger] spec.targets[j]).name by {
        assert(draft.targets[i].name != draft.targets[j].name);
    }
    lemma_distinct_paths(platform, values(lines, "ARTIFACT"@));
    assert forall|i: int|
        0 <= i < lines.len() && (#[trigger] lines[i]).keyword == "ARTIFACT"@ implies
        paths::names_path(platform, spec.artifacts, words(lines[i])[0]) by {
        lemma_line_is_listed(lines, i);
    }
}

proof fn lemma_line_is_listed(lines: Seq<DirectiveView>, index: int)
    requires
        0 <= index < lines.len(),
    ensures
        values(lines, lines[index].keyword).contains(words(lines[index])[0]),
    decreases lines.len(),
{
    let keyword = lines[index].keyword;
    let rest = lines.drop_last();
    assert(rest.push(lines.last()) == lines);
    lemma_one_more_line(rest, lines.last(), keyword);
    let known = values(rest, keyword);
    let word = words(lines[index])[0];
    if index == lines.len() - 1 {
        assert(values(lines, keyword)[known.len() as int] == word);
    } else {
        assert(rest[index] == lines[index]);
        lemma_line_is_listed(rest, index);
        let at = known.index_of(word);
        assert(values(lines, keyword)[at] == word);
    }
}

/// Whether a target exports all that words say of it; a directory may stand there under another
/// text for the same path.
pub open spec fn exports_faces(
    platform: HostPlatform,
    target: TargetSpecView,
    words: Seq<Text>,
) -> bool {
    &&& target.name == words[0]
    &&& forall|path: Text| #[trigger]
        gives_library(words, "STATIC"@, path) ==> target.static_path == Some(path)
    &&& forall|path: Text| #[trigger]
        gives_library(words, "SHARED"@, path) ==> target.shared_path == Some(path)
    &&& forall|path: Text| #[trigger]
        gives_library(words, "OBJECT"@, path) ==> target.object_path == Some(path)
    &&& gives_interface(words) ==> target.interface_declared
    &&& forall|directory: Text| #[trigger]
        gives_directory(words, directory) ==> paths::names_path(
            platform,
            target.include_dirs,
            directory,
        )
}

/// Whether some target exports all that words say of it.
pub open spec fn is_exported(
    platform: HostPlatform,
    targets: Seq<TargetSpecView>,
    words: Seq<Text>,
) -> bool {
    exists|i: int| 0 <= i < targets.len() && exports_faces(platform, #[trigger] targets[i], words)
}

/// Whether a target links to and hands on what lines list for it.
pub open spec fn hands_on_what_is_listed(
    lines: Seq<DirectiveView>,
    target: TargetSpecView,
) -> bool {
    &&& is_without_repeats(listed_for(lines, "LINK"@, target.name), target.link_libraries)
    &&& is_without_repeats(listed_for(lines, "DEFINES"@, target.name), target.compile_definitions)
    &&& is_without_repeats(listed_for(lines, "OPTIONS"@, target.name), target.compile_options)
    &&& is_without_repeats(listed_for(lines, "FEATURES"@, target.name), target.compile_features)
}

/// Whether a list is another without what occurred in it before.
pub open spec fn is_without_repeats(all: Seq<Text>, kept: Seq<Text>) -> bool {
    exists|places: Seq<int>| #[trigger] keeps_first(all, kept, places)
}

/// Whether a list keeps what stands at ascending places of another, each where it first occurs,
/// and nothing of the other is missing.
pub open spec fn keeps_first(all: Seq<Text>, kept: Seq<Text>, places: Seq<int>) -> bool {
    &&& places.len() == kept.len()
    &&& forall|i: int|
        0 <= i < places.len() ==> 0 <= #[trigger] places[i] < all.len() && all[places[i]] == kept[i]
    &&& forall|i: int, j: int|
        0 <= i < j < places.len() ==> #[trigger] places[i] < #[trigger] places[j]
    &&& forall|i: int, j: int|
        0 <= i < j < kept.len() ==> #[trigger] kept[i] != #[trigger] kept[j]
    &&& forall|i: int| 0 <= i < all.len() ==> kept.contains(#[trigger] all[i])
}

proof fn lemma_distinct_keeps_first(all: Seq<Text>)
    ensures
        is_without_repeats(all, text::distinct(all)),
    decreases all.len(),
{
    let kept = text::distinct(all);
    if all.len() == 0 {
        assert(keeps_first(all, kept, Seq::empty()));
    } else {
        let rest = all.drop_last();
        lemma_distinct_keeps_first(rest);
        let before = text::distinct(rest);
        let places = choose|places: Seq<int>| #[trigger] keeps_first(rest, before, places);
        assert forall|i: int| 0 <= i < rest.len() implies rest[i] == #[trigger] all[i] by {}
        if before.contains(all.last()) {
            assert forall|i: int| 0 <= i < all.len() implies kept.contains(#[trigger] all[i]) by {
                if i < rest.len() {
                    assert(before.contains(rest[i]));
                }
            }
            assert forall|i: int| 0 <= i < places.len() implies 0 <= #[trigger] places[i]
                < all.len() && all[places[i]] == kept[i] by {
                assert(rest[places[i]] == before[i]);
            }
            assert(keeps_first(all, kept, places));
        } else {
            let more = places.push(rest.len() as int);
            assert(kept == before.push(all.last()));
            assert forall|i: int| 0 <= i < more.len() implies 0 <= #[trigger] more[i] < all.len()
                && all[more[i]] == kept[i] by {
                if i < places.len() {
                    assert(rest[places[i]] == before[i]);
                }
            }
            assert forall|i: int, j: int| 0 <= i < j < more.len() implies #[trigger] more[i]
                < #[trigger] more[j] by {
                if j < places.len() {
                    assert(places[i] < places[j]);
                } else {
                    assert(rest[places[i]] == before[i]);
                }
            }
            assert forall|i: int, j: int| 0 <= i < j < kept.len() implies #[trigger] kept[i]
                != #[trigger] kept[j] by {
                if j < before.len() {
                    assert(before[i] != before[j]);
                } else {
                    assert(before.contains(before[i]));
                }
            }
            assert forall|i: int| 0 <= i < all.len() implies kept.contains(#[trigger] all[i]) by {
                if i < rest.len() {
                    assert(before.contains(rest[i]));
                    let at = before.index_of(rest[i]);
                    assert(kept[at] == all[i]);
                } else {
                    assert(kept[before.len() as int] == all[i]);
                }
            }
            assert(keeps_first(all, kept, more));
        }
    }
}

/// Paths without those that came before name all of them, and no others.
proof fn lemma_distinct_paths(platform: HostPlatform, all: Seq<Text>)
    ensures
        forall|path: Text| #[trigger]
            all.contains(path) ==> paths::names_path(
                platform,
                paths::distinct_paths(platform, all),
                path,
            ),
        forall|i: int|
            0 <= i < paths::distinct_paths(platform, all).len() ==> all.contains(
                #[trigger] paths::distinct_paths(platform, all)[i],
            ),
        forall|path: Text| #[trigger]
            paths::distinct_paths(platform, all).contains(path) ==> all.contains(path),
    decreases all.len(),
{
    if all.len() > 0 {
        let rest = all.drop_last();
        let kept = paths::distinct_paths(platform, all);
        let before = paths::distinct_paths(platform, rest);
        lemma_distinct_paths(platform, rest);
        assert forall|path: Text| #[trigger] all.contains(path) implies paths::names_path(
            platform,
            kept,
            path,
        ) by {
            let at = all.index_of(path);
            if at < rest.len() {
                assert(rest[at] == path);
                assert(rest.contains(path));
                let i = choose|i: int|
                    0 <= i < before.len() && paths::same_path(
                        platform,
                        #[trigger] before[i],
                        path,
                    );
                assert(kept[i] == before[i]);
            } else if !paths::names_path(platform, before, path) {
                assert(kept[before.len() as int] == path);
            }
        }
        assert forall|i: int| 0 <= i < kept.len() implies all.contains(#[trigger] kept[i]) by {
            if i < before.len() {
                assert(rest.contains(before[i]));
                let at = rest.index_of(before[i]);
                assert(all[at] == kept[i]);
            } else {
                assert(all[all.len() - 1] == kept[i]);
            }
        }
    }
}

/// Sixty-four hexadecimal digits.
pub open spec fn is_digest(digest: Text) -> bool {
    &&& digest.len() == 64
    &&& forall|i: int|
        0 <= i < digest.len() ==> ('0' <= #[trigger] digest[i] <= '9') || ('a' <= digest[i] <= 'f')
            || ('A' <= digest[i] <= 'F')
}

/// Whether what a draft holds was checked when it was read.
spec fn is_checked(draft: DraftView) -> bool {
    &&& draft.name matches Some(name) ==> manifest_laws::is_name(name)
    &&& draft.fetch matches Some(FetchSpecView::Url { url, sha256: Some(digest) }) ==> is_digest(
        digest,
    )
}

/// Whether a keyword gives something for a phase under some build system.
pub open spec fn is_about_phase(system: BuildSystem, keyword: Text) -> bool {
    ||| arg_keyword(Some(system)) == Some(keyword)
    ||| define_keyword(Some(system)) == Some(keyword)
    ||| build_arg_keyword(Some(system)) == Some(keyword)
    ||| install_arg_keyword(Some(system)) == Some(keyword)
    ||| skip_keyword(Some(system)) == Some(keyword)
    ||| configure_keyword(Some(system)) == Some(keyword)
    ||| build_keyword(Some(system)) == Some(keyword)
    ||| install_keyword(Some(system)) == Some(keyword)
    ||| configure_script_keyword(Some(system)) == Some(keyword)
    ||| build_script_keyword(Some(system)) == Some(keyword)
    ||| install_script_keyword(Some(system)) == Some(keyword)
}

/// Whether a keyword is one that a DepoFile may use.
pub open spec fn is_known(keyword: Text) -> bool {
    ||| keyword == "NAME"@
    ||| keyword == "VERSION"@
    ||| keyword == "SOURCE_SUBDIR"@
    ||| keyword == "LAZY"@
    ||| keyword == "SYSTEM_LIBS"@
    ||| keyword == "DEPENDS"@
    ||| keyword == "SOURCE"@
    ||| keyword == "SHA256"@
    ||| keyword == "GIT_SUBMODULES"@
    ||| keyword == "ARTIFACT"@
    ||| keyword == "TARGET"@
    ||| keyword == "PRIMARY_TARGET"@
    ||| keyword == "LINK"@
    ||| keyword == "DEFINES"@
    ||| keyword == "OPTIONS"@
    ||| keyword == "FEATURES"@
    ||| keyword == "BUILD_SYSTEM"@
    ||| keyword == "STAGE_FILE"@
    ||| keyword == "STAGE_TREE"@
    ||| keyword == "BUILD_ROOT"@
    ||| keyword == "TOOLCHAIN"@
    ||| keyword == "TOOLCHAIN_INPUT"@
    ||| keyword == "BUILD_ARCH"@
    ||| keyword == "TARGET_ARCH"@
    ||| exists|system: BuildSystem| #[trigger] is_about_phase(system, keyword)
}

proof fn lemma_hooks_are_about_phases(keyword: Text)
    requires
        depofile::hook_of(keyword) is Some,
    ensures
        is_known(keyword),
{
    lemma_hooks_are_named(keyword);
    let (system, slot) = depofile::hook_of(keyword)->Some_0;
    assert(is_about_phase(system, keyword));
}

#[verifier::spinoff_prover]
#[verifier::rlimit(60)]
proof fn lemma_steps_are_checked(path: Text, draft: DraftView, line: DirectiveView, next: DraftView)
    requires
        depofile::step(path, draft, line) == Ok::<DraftView, Messages>(next),
        is_checked(draft),
    ensures
        is_checked(next),
        is_known(line.keyword),
{
    match depofile::hook_of(line.keyword) {
        Some((system, slot)) => {
            lemma_hooks_are_about_phases(line.keyword);
            assert(next.name == draft.name && next.fetch == draft.fetch);
        },
        None => {
            if line.keyword == "NAME"@ {
                let value = grammar::single_token(
                    path,
                    line.line_number,
                    line.keyword,
                    line.remainder,
                );
                lemma_plain_keywords();
                manifest_laws::lemma_names_checked(value->Ok_0);
            } else {
                lemma_plain_keywords();
            }
        },
    }
}

proof fn lemma_drafts_are_checked(
    path: Text,
    lines: Seq<DirectiveView>,
    from: int,
    draft: DraftView,
    result: DraftView,
)
    requires
        0 <= from <= lines.len(),
        depofile::drafted_from(path, lines, from, draft) == Ok::<DraftView, Messages>(result),
        is_checked(draft),
    ensures
        is_checked(result),
        forall|i: int| from <= i < lines.len() ==> is_known((#[trigger] lines[i]).keyword),
    decreases lines.len() - from,
{
    if from < lines.len() {
        let next = depofile::step(path, draft, lines[from])->Ok_0;
        lemma_steps_are_checked(path, draft, lines[from], next);
        lemma_drafts_are_checked(path, lines, from + 1, next, result);
    }
}

/// A DepoFile with a line that is about nothing known is refused.
pub proof fn lemma_unknown_directives_are_refused(
    platform: HostPlatform,
    path: Text,
    source: Text,
    host: Text,
    lines: Seq<DirectiveView>,
    index: int,
)
    requires
        directives::directives_of(path, source) == Ok::<Seq<DirectiveView>, Messages>(lines),
        0 <= index < lines.len(),
        !is_known(lines[index].keyword),
    ensures
        depofile::depofile_spec(platform, path, source, host) is Err,
{
    if let Ok(draft) = depofile::drafted_from(path, lines, 0, depofile::blank(host)) {
        lemma_drafts_are_checked(path, lines, 0, depofile::blank(host), draft);
    }
}

proof fn lemma_confined_paths(platform: HostPlatform, list: Seq<Text>, from: int, context: Text)
    requires
        0 <= from <= list.len(),
        depofile::confinements(platform, list, from, context) is Ok,
    ensures
        forall|i: int|
            from <= i < list.len() ==> fetch_laws::stays_below(platform, #[trigger] list[i]),
    decreases list.len() - from,
{
    if from < list.len() {
        lemma_confined_paths(platform, list, from + 1, context);
    }
}

/// Whether every path of a target stays below the root that it is joined to.
pub open spec fn target_stays_below(platform: HostPlatform, target: TargetSpecView) -> bool {
    &&& forall|i: int|
        0 <= i < target.include_dirs.len() ==> fetch_laws::stays_below(
            platform,
            #[trigger] target.include_dirs[i],
        )
    &&& target.static_path matches Some(path) ==> fetch_laws::stays_below(platform, path)
    &&& target.shared_path matches Some(path) ==> fetch_laws::stays_below(platform, path)
    &&& target.object_path matches Some(path) ==> fetch_laws::stays_below(platform, path)
}

proof fn lemma_confined_targets(
    platform: HostPlatform,
    path: Text,
    targets: Seq<TargetSpecView>,
    from: int,
)
    requires
        0 <= from <= targets.len(),
        depofile::target_path_checks(platform, path, targets, from) is Ok,
    ensures
        forall|i: int|
            from <= i < targets.len() ==> target_stays_below(platform, #[trigger] targets[i]),
    decreases targets.len() - from,
{
    if from < targets.len() {
        lemma_confined_targets(platform, path, targets, from + 1);
        lemma_confined_paths(
            platform,
            targets[from].include_dirs,
            0,
            depofile::target_context(path, targets[from].name, " INTERFACE path"@),
        );
    }
}

proof fn lemma_confined_entries(
    platform: HostPlatform,
    path: Text,
    entries: Seq<StageEntryView>,
    from: int,
)
    requires
        0 <= from <= entries.len(),
        depofile::stage_path_checks(platform, path, entries, from) is Ok,
    ensures
        forall|i: int|
            from <= i < entries.len() ==> fetch_laws::stays_below(
                platform,
                (#[trigger] entries[i]).source,
            ) && fetch_laws::stays_below(platform, entries[i].destination),
    decreases entries.len() - from,
{
    if from < entries.len() {
        lemma_confined_entries(platform, path, entries, from + 1);
    }
}

/// Whether something is known of a target besides its name.
pub open spec fn has_content(target: TargetSpecView) -> bool {
    ||| target.interface_declared
    ||| target.static_path is Some
    ||| target.shared_path is Some
    ||| target.object_path is Some
    ||| target.link_libraries.len() > 0
}

proof fn lemma_completed_have_content(
    platform: HostPlatform,
    path: Text,
    draft: DraftView,
    from: int,
    done: Seq<TargetSpecView>,
    targets: Seq<TargetSpecView>,
)
    requires
        0 <= from <= draft.targets.len(),
        depofile::completed_from(platform, path, draft, from, done) == Ok::<
            Seq<TargetSpecView>,
            Messages,
        >(targets),
        forall|i: int| 0 <= i < done.len() ==> has_content(#[trigger] done[i]),
    ensures
        forall|i: int| 0 <= i < targets.len() ==> has_content(#[trigger] targets[i]),
    decreases draft.targets.len() - from,
{
    if from < draft.targets.len() {
        let target = depofile::completed(platform, draft, draft.targets[from]);
        let next = done.push(target);
        assert forall|i: int| 0 <= i < next.len() implies has_content(#[trigger] next[i]) by {
            if i < done.len() {
                assert(next[i] == done[i]);
            }
        }
        lemma_completed_have_content(platform, path, draft, from + 1, next, targets);
    }
}

/// Every package that a DepoFile describes is named well, exports something, and keeps all its
/// paths below the roots that they are joined to; its primary target is one of its targets, each
/// of its targets has some content, and its digest is one.
pub proof fn lemma_accepted_packages_are_sound(
    platform: HostPlatform,
    path: Text,
    source: Text,
    host: Text,
    spec: PackageSpecView,
)
    requires
        depofile::depofile_spec(platform, path, source, host) == Ok::<PackageSpecView, Messages>(
            spec,
        ),
    ensures
        manifest_laws::is_name(spec.name),
        spec.artifacts.len() > 0 || spec.targets.len() > 0,
        spec.source_subdir matches Some(subdir) ==> fetch_laws::stays_below(platform, subdir),
        forall|i: int|
            0 <= i < spec.artifacts.len() ==> fetch_laws::stays_below(
                platform,
                #[trigger] spec.artifacts[i],
            ),
        forall|i: int|
            0 <= i < spec.targets.len() ==> target_stays_below(platform, #[trigger] spec.targets[i])
                && has_content(spec.targets[i]),
        forall|i: int|
            0 <= i < spec.stage_entries.len() ==> fetch_laws::stays_below(
                platform,
                (#[trigger] spec.stage_entries[i]).source,
            ) && fetch_laws::stays_below(platform, spec.stage_entries[i].destination),
        spec.primary_target_name matches Some(name) ==> exists|i: int|
            0 <= i < spec.targets.len() && (#[trigger] spec.targets[i]).name == name,
        spec.fetch matches Some(FetchSpecView::Url { url, sha256: Some(digest) }) ==> is_digest(
            digest,
        ),
{
    let lines = directives::directives_of(path, source)->Ok_0;
    let draft = draft_of(path, lines, host);
    lemma_drafts_are_checked(path, lines, 0, depofile::blank(host), draft);
    lemma_confined_paths(platform, spec.artifacts, 0, "DepoFile "@ + path + " ARTIFACT"@);
    lemma_confined_targets(platform, path, spec.targets, 0);
    lemma_confined_entries(platform, path, spec.stage_entries, 0);
    lemma_completed_have_content(platform, path, draft, 0, Seq::empty(), spec.targets);
    lemma_completed(platform, path, draft, 0, Seq::empty(), spec.targets);
    if let Some(name) = spec.primary_target_name {
        lemma_position(draft.targets, name, 0);
        let k = choose|k: int|
            0 <= k < draft.targets.len() && (#[trigger] draft.targets[k]).name == name;
        assert(spec.targets[k].name == name);
    }
    if draft.artifacts.len() > 0 {
        lemma_distinct_paths(platform, draft.artifacts);
        let first = draft.artifacts[0];
        assert(draft.artifacts.contains(first));
        assert(paths::names_path(platform, spec.artifacts, first));
    }
}

/// Whether at most one of two ways is given.
pub open spec fn not_both(command: Option<Seq<Text>>, script: Option<Text>) -> bool {
    command is None || script is None
}

/// No two lines of an accepted DepoFile fight over a phase: a phase has a command or a script or
/// arguments for the default command, and one that is skipped has none of these. A package built
/// with Cargo says what it installs or stages.
pub proof fn lemma_accepted_phases_are_given_once(
    platform: HostPlatform,
    path: Text,
    source: Text,
    host: Text,
    lines: Seq<DirectiveView>,
    spec: PackageSpecView,
)
    requires
        directives::directives_of(path, source) == Ok::<Seq<DirectiveView>, Messages>(lines),
        depofile::depofile_spec(platform, path, source, host) == Ok::<PackageSpecView, Messages>(
            spec,
        ),
        system_said(last_value(lines, "BUILD_SYSTEM"@)) is Some,
    ensures
        ({
            let system = system_said(last_value(lines, "BUILD_SYSTEM"@));
            let configure = words_if(lines, configure_keyword(system));
            let build = words_if(lines, build_keyword(system));
            let install = words_if(lines, install_keyword(system));
            let configure_script = block_if(lines, configure_script_keyword(system));
            let build_script = block_if(lines, build_script_keyword(system));
            let install_script = block_if(lines, install_script_keyword(system));
            let arguments = values_if(lines, arg_keyword(system)).len() + values_if(
                lines,
                define_keyword(system),
            ).len();
            let build_arguments = values_if(lines, build_arg_keyword(system)).len();
            let install_arguments = values_if(lines, install_arg_keyword(system)).len();
            &&& not_both(configure, configure_script)
            &&& not_both(build, build_script)
            &&& not_both(install, install_script)
            &&& arguments > 0 ==> configure is None && configure_script is None
            &&& build_arguments > 0 ==> build is None && build_script is None
            &&& install_arguments > 0 ==> install is None && install_script is None
            &&& lines_if(lines, skip_keyword(system)).len() > 0 ==> configure is None
                && configure_script is None && values_if(lines, arg_keyword(system)).len() == 0
            &&& system == Some(BuildSystem::Cargo) ==> install_arguments > 0 || install is Some
                || install_script is Some || stage_lines(lines).len() > 0
        }),
{
    lemma_draft_is_told(platform, path, source, host, lines, spec);
}

/// Whether the words of a line about the package itself are such as it may have.
pub open spec fn is_package_line(line: DirectiveView, all: Seq<Text>) -> bool {
    ||| line.keyword == "NAME"@ && all.len() == 1 && manifest_laws::is_name(all[0])
    ||| line.keyword == "VERSION"@ && all.len() == 1
    ||| line.keyword == "SOURCE_SUBDIR"@ && all.len() == 1
    ||| line.keyword == "LAZY"@ && line.remainder.len() == 0
    ||| line.keyword == "SYSTEM_LIBS"@ && all.len() == 1 && (all[0] == "INHERIT"@ || all[0]
        == "NEVER"@ || all[0] == "ALLOW"@)
}

/// Whether the words of a line about the sources are such as it may have, once it is known what
/// the lines before say of the sources.
pub open spec fn is_source_line(
    line: DirectiveView,
    all: Seq<Text>,
    known: Option<FetchSpecView>,
) -> bool {
    ||| line.keyword == "SOURCE"@ && all.len() == 2 && all[0] == "URL"@
    ||| line.keyword == "SOURCE"@ && (all.len() == 2 || all.len() == 3) && all[0] == "GIT"@
    ||| line.keyword == "SHA256"@ && all.len() == 1 && is_digest(all[0]) && known is Some
        && known->Some_0 is Url
    ||| line.keyword == "GIT_SUBMODULES"@ && all.len() == 1 && all[0] == "RECURSIVE"@
        && known is Some && known->Some_0 is Git
}

/// Whether the words of a line about the exports are such as it may have.
pub open spec fn is_export_line(line: DirectiveView, all: Seq<Text>, primary: Option<Text>) -> bool {
    ||| line.keyword == "ARTIFACT"@ && all.len() == 1
    ||| line.keyword == "PRIMARY_TARGET"@ && all.len() == 1 && primary is None
    ||| (line.keyword == "LINK"@ || line.keyword == "DEFINES"@ || line.keyword == "OPTIONS"@
        || line.keyword == "FEATURES"@) && all.len() >= 2
}

/// Whether a word names a build system.
pub open spec fn names_system(word: Text) -> bool {
    word == "CMAKE"@ || word == "MESON"@ || word == "AUTOCONF"@ || word == "CARGO"@ || word
        == "MANUAL"@
}

/// Whether a word names an architecture.
pub open spec fn names_architecture(word: Text) -> bool {
    word == "x86_64"@ || word == "amd64"@ || word == "aarch64"@ || word == "arm64"@ || word
        == "riscv64"@
}

/// Whether the words of a line about the build are such as it may have. The build system can be
/// given only once.
pub open spec fn is_build_line(
    line: DirectiveView,
    all: Seq<Text>,
    system: Option<BuildSystem>,
) -> bool {
    ||| line.keyword == "BUILD_SYSTEM"@ && all.len() == 1 && names_system(all[0]) && system is None
    ||| (line.keyword == "STAGE_FILE"@ || line.keyword == "STAGE_TREE"@) && (all.len() == 2
        || all.len() == 3) && (all[0] == "SOURCE"@ || all[0] == "BUILD"@)
    ||| line.keyword == "BUILD_ROOT"@ && all.len() == 1 && (all[0] == "SYSTEM"@ || all[0]
        == "SCRATCH"@)
    ||| line.keyword == "BUILD_ROOT"@ && all.len() == 2 && all[0] == "OCI"@
    ||| line.keyword == "TOOLCHAIN"@ && all.len() == 1 && (all[0] == "SYSTEM"@ || all[0]
        == "ROOTFS"@)
    ||| line.keyword == "TOOLCHAIN_INPUT"@ && all.len() == 1
    ||| (line.keyword == "BUILD_ARCH"@ || line.keyword == "TARGET_ARCH"@) && all.len() == 1
        && names_architecture(all[0])
}

proof fn lemma_digests(value: Text)
    ensures
        depofile::is_sha256(value) <==> is_digest(value),
{
    if is_digest(value) {
        assert forall|i: int| 0 <= i < value.len() implies depofile::is_hex_digit(
            #[trigger] value[i],
        ) by {}
    }
    if depofile::is_sha256(value) {
        assert forall|i: int| 0 <= i < value.len() implies ('0' <= #[trigger] value[i] <= '9') || (
        'a' <= value[i] <= 'f') || ('A' <= value[i] <= 'F') by {
            assert(depofile::is_hex_digit(value[i]));
        }
    }
}

/// A line about the package itself is taken if and only if its words are such as it may have.
#[verifier::spinoff_prover]
#[verifier::rlimit(60)]
pub proof fn lemma_package_lines_are_taken(
    path: Text,
    draft: DraftView,
    line: DirectiveView,
    all: Seq<Text>,
)
    requires
        tokens::tokens_of(line.remainder) == Ok::<Seq<Text>, Messages>(all),
        line.keyword == "NAME"@ || line.keyword == "VERSION"@ || line.keyword == "SOURCE_SUBDIR"@
            || line.keyword == "LAZY"@ || line.keyword == "SYSTEM_LIBS"@,
    ensures
        depofile::step(path, draft, line) is Ok <==> is_package_line(line, all),
{
    lemma_plain_keywords();
    lemma_keyword_groups();
    lemma_plain_letters();
    if all.len() == 1 {
        manifest_laws::lemma_names_checked(all[0]);
    }
}

/// A line about the sources is taken if and only if its words are such as it may have and it fits
/// what was said of them before.
#[verifier::spinoff_prover]
#[verifier::rlimit(60)]
pub proof fn lemma_source_lines_are_taken(
    path: Text,
    draft: DraftView,
    line: DirectiveView,
    all: Seq<Text>,
)
    requires
        tokens::tokens_of(line.remainder) == Ok::<Seq<Text>, Messages>(all),
        line.keyword == "SOURCE"@ || line.keyword == "SHA256"@ || line.keyword
            == "GIT_SUBMODULES"@,
    ensures
        depofile::step(path, draft, line) is Ok <==> is_source_line(line, all, draft.fetch),
{
    lemma_plain_keywords();
    lemma_keyword_groups();
    lemma_keywords_differ();
    lemma_plain_letters();
    if all.len() == 1 {
        lemma_digests(all[0]);
    }
}

/// A line about the exports is taken if and only if its words are such as it may have; the primary
/// target can be given only once.
#[verifier::spinoff_prover]
#[verifier::rlimit(60)]
pub proof fn lemma_export_lines_are_taken(
    path: Text,
    draft: DraftView,
    line: DirectiveView,
    all: Seq<Text>,
)
    requires
        tokens::tokens_of(line.remainder) == Ok::<Seq<Text>, Messages>(all),
        line.keyword == "ARTIFACT"@ || line.keyword == "PRIMARY_TARGET"@ || line.keyword == "LINK"@
            || line.keyword == "DEFINES"@ || line.keyword == "OPTIONS"@ || line.keyword
            == "FEATURES"@,
    ensures
        depofile::step(path, draft, line) is Ok <==> is_export_line(
            line,
            all,
            draft.primary_target_name,
        ),
{
    lemma_plain_keywords();
    lemma_keyword_groups();
    lemma_keywords_differ();
    lemma_plain_letters();
}

/// A line about the build is taken if and only if its words are such as it may have.
#[verifier::spinoff_prover]
#[verifier::rlimit(60)]
pub proof fn lemma_build_lines_are_taken(
    path: Text,
    draft: DraftView,
    line: DirectiveView,
    all: Seq<Text>,
)
    requires
        tokens::tokens_of(line.remainder) == Ok::<Seq<Text>, Messages>(all),
        line.keyword == "BUILD_SYSTEM"@ || line.keyword == "STAGE_FILE"@ || line.keyword
            == "STAGE_TREE"@ || line.keyword == "BUILD_ROOT"@ || line.keyword == "TOOLCHAIN"@
            || line.keyword == "TOOLCHAIN_INPUT"@ || line.keyword == "BUILD_ARCH"@ || line.keyword
            == "TARGET_ARCH"@,
    ensures
        depofile::step(path, draft, line) is Ok <==> is_build_line(line, all, draft.build_system),
{
    lemma_plain_keywords();
    lemma_keyword_groups();
    lemma_keywords_differ();
    lemma_plain_letters();
    lemma_build_words();
}

/// A line about a phase is taken if and only if the build system that it belongs to was given
/// before and it has what it must have: a word for an argument, words for a command, a block for
/// a script, and nothing for a phase that is skipped.
#[verifier::spinoff_prover]
#[verifier::rlimit(60)]
pub proof fn lemma_phase_lines_are_taken(
    path: Text,
    draft: DraftView,
    line: DirectiveView,
    all: Seq<Text>,
    system: BuildSystem,
)
    requires
        tokens::tokens_of(line.remainder) == Ok::<Seq<Text>, Messages>(all),
        is_about_phase(system, line.keyword),
    ensures
        depofile::step(path, draft, line) is Ok ==> draft.build_system == Some(system),
        draft.build_system == Some(system) && (arg_keyword(Some(system)) == Some(line.keyword)
            || define_keyword(Some(system)) == Some(line.keyword) || build_arg_keyword(Some(system))
            == Some(line.keyword) || install_arg_keyword(Some(system)) == Some(line.keyword)) ==> (
        depofile::step(path, draft, line) is Ok <==> all.len() == 1),
        draft.build_system == Some(system) && (configure_keyword(Some(system))
            == Some(line.keyword) || build_keyword(Some(system)) == Some(line.keyword)
            || install_keyword(Some(system)) == Some(line.keyword)) ==> (depofile::step(
            path,
            draft,
            line,
        ) is Ok <==> all.len() > 0),
        draft.build_system == Some(system) && (configure_script_keyword(Some(system))
            == Some(line.keyword) || build_script_keyword(Some(system)) == Some(line.keyword)
            || install_script_keyword(Some(system)) == Some(line.keyword)) ==> (depofile::step(
            path,
            draft,
            line,
        ) is Ok <==> line.block is Some),
        draft.build_system == Some(system) && skip_keyword(Some(system)) == Some(line.keyword) ==> (
        depofile::step(path, draft, line) is Ok <==> line.remainder.len() == 0),
{
    assert forall|slot: Slot|
        #![trigger keyword_for(Some(system), slot)]
        keyword_for(Some(system), slot) == Some(line.keyword) implies depofile::hook_of(line.keyword)
        == Some((system, slot)) by {
        lemma_names_are_hooks(Some(system), slot);
    }
    assert(keyword_for(Some(system), Slot::Arg) == arg_keyword(Some(system)));
    assert(keyword_for(Some(system), Slot::Define) == define_keyword(Some(system)));
    assert(keyword_for(Some(system), Slot::BuildArg) == build_arg_keyword(Some(system)));
    assert(keyword_for(Some(system), Slot::InstallArg) == install_arg_keyword(Some(system)));
    assert(keyword_for(Some(system), Slot::SkipConfigure) == skip_keyword(Some(system)));
    assert(keyword_for(Some(system), Slot::Configure) == configure_keyword(Some(system)));
    assert(keyword_for(Some(system), Slot::Build) == build_keyword(Some(system)));
    assert(keyword_for(Some(system), Slot::Install) == install_keyword(Some(system)));
    assert(keyword_for(Some(system), Slot::ConfigureScript) == configure_script_keyword(
        Some(system),
    ));
    assert(keyword_for(Some(system), Slot::BuildScript) == build_script_keyword(Some(system)));
    assert(keyword_for(Some(system), Slot::InstallScript) == install_script_keyword(Some(system)));
}

} // verus!
