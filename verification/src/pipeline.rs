//! The commands of a build: which builds are supported, what runs, where and as what.

use vstd::prelude::*;
use crate::arch;
use crate::arch::{
    debian_crossbuild_package, linux_gnu_target_triple, linux_gnu_toolchain_prefix,
    normalize_arch_name,
};
use crate::copying;
use crate::copying::{plan_stage_entries, StageCopy, StageCopyView};
use crate::environment;
use crate::environment::builds_in_image;
use crate::exports::{ExportCandidateRoot, ExportCandidateRootView};
use crate::failure::{failure, outcome, Failure, Messages};
use crate::model::{
    BuildRoot, BuildRootView, BuildSystem, PackageSpec, PackageSpecView, Text, ToolchainSource,
};
use crate::names;
use crate::paths;
use crate::paths::{components, is_absolute, is_absolute_on, join_path, HostPlatform};
use crate::shell;
use crate::shell::shell_phase;
use crate::text;
use crate::text::{
    cat2, cat3, cat4, cat5, cat6, cat7, chars_of, decimal, find_char, join, last_pairs, put, put_all,
    same, slice, Dup,
};

verus! {

/// What is wrong with a declared tool: it has to be an absolute path that is there.
pub open spec fn tool_check(tool: Text, exists: bool) -> Result<(), Messages> {
    if !paths::absolute(tool) {
        Err(seq!["TOOLCHAIN_INPUT '"@ + tool + "' must be an absolute host path"@])
    } else if !exists {
        Err(seq!["TOOLCHAIN_INPUT '"@ + tool + "' does not exist on the host"@])
    } else {
        Ok(())
    }
}

pub fn validate_toolchain_input(toolchain_input: &str, exists: bool) -> (result: Result<
    (),
    Failure,
>)
    ensures
        outcome(result) == tool_check(toolchain_input@, exists),
{
    if !is_absolute(toolchain_input) {
        return Err(
            failure(cat3("TOOLCHAIN_INPUT '", toolchain_input, "' must be an absolute host path")),
        );
    }
    if !exists {
        return Err(
            failure(cat3("TOOLCHAIN_INPUT '", toolchain_input, "' does not exist on the host")),
        );
    }
    Ok(())
}

/// What is wrong with the first faulty tool from position `from` on.
pub open spec fn tools_check(tools: Seq<Text>, existing: Seq<bool>, from: int) -> Result<
    (),
    Messages,
>
    decreases tools.len() - from,
{
    if from >= tools.len() {
        Ok(())
    } else {
        match tool_check(tools[from], existing[from]) {
            Err(messages) => Err(messages),
            Ok(_) => tools_check(tools, existing, from + 1),
        }
    }
}

fn validate_toolchain_inputs(tools: &Vec<String>, existing: &Vec<bool>) -> (result: Result<
    (),
    Failure,
>)
    requires
        tools.len() == existing.len(),
    ensures
        outcome(result) == tools_check(tools.deep_view(), existing@, 0),
{
    let mut from: usize = 0;
    while from < tools.len()
        invariant
            tools.len() == existing.len(),
            from <= tools.len(),
            tools_check(tools.deep_view(), existing@, 0) == tools_check(
                tools.deep_view(),
                existing@,
                from as int,
            ),
        decreases tools.len() - from,
    {
        assert(tools.deep_view()[from as int] == tools[from as int]@);
        validate_toolchain_input(&tools[from], existing[from])?;
        from = from + 1;
    }
    Ok(())
}

/// What is wrong with the place and the tools of a build on Linux.
pub open spec fn linux_place_check(spec: PackageSpecView) -> Result<(), Messages> {
    let package = "package '"@ + spec.id();
    match (spec.build_root, spec.toolchain) {
        (BuildRootView::System, ToolchainSource::System) => if spec.toolchain_inputs.len() > 0 {
            Err(
                seq![
                    package
                        + "' mixes BUILD_ROOT SYSTEM with TOOLCHAIN_INPUT entries, which is not supported"@,
                ],
            )
        } else {
            Ok(())
        },
        (BuildRootView::System, ToolchainSource::Rootfs) => Err(
            seq![
                package
                    + "' uses BUILD_ROOT SYSTEM with TOOLCHAIN ROOTFS, which is not supported"@,
            ],
        ),
        (BuildRootView::Scratch, ToolchainSource::System) => if spec.toolchain_inputs.len() == 0 {
            Err(
                seq![
                    package
                        + "' uses BUILD_ROOT SCRATCH but does not declare any TOOLCHAIN_INPUT entries"@,
                ],
            )
        } else {
            Ok(())
        },
        (BuildRootView::Scratch, ToolchainSource::Rootfs) => Err(
            seq![
                package
                    + "' uses BUILD_ROOT SCRATCH with TOOLCHAIN ROOTFS, which is not supported"@,
            ],
        ),
        (BuildRootView::Oci(reference), ToolchainSource::System) => Err(
            seq![
                package + "' uses BUILD_ROOT OCI "@ + reference
                    + " without TOOLCHAIN ROOTFS, which is not supported"@,
            ],
        ),
        (BuildRootView::Oci(_), ToolchainSource::Rootfs) => Ok(()),
    }
}

fn validate_linux_place(spec: &PackageSpec) -> (result: Result<(), Failure>)
    ensures
        outcome(result) == linux_place_check(spec.deep_view()),
{
    let package = cat2("package '", &spec.package_id());
    assert(spec.toolchain_inputs.deep_view().len() == spec.toolchain_inputs.len());
    let rootfs = spec.toolchain == ToolchainSource::Rootfs;
    match &spec.build_root {
        BuildRoot::System => if rootfs {
            Err(
                failure(
                    cat2(
                        &package,
                        "' uses BUILD_ROOT SYSTEM with TOOLCHAIN ROOTFS, which is not supported",
                    ),
                ),
            )
        } else if spec.toolchain_inputs.len() > 0 {
            Err(
                failure(
                    cat2(
                        &package,
                        "' mixes BUILD_ROOT SYSTEM with TOOLCHAIN_INPUT entries, which is not supported",
                    ),
                ),
            )
        } else {
            Ok(())
        },
        BuildRoot::Scratch => if rootfs {
            Err(
                failure(
                    cat2(
                        &package,
                        "' uses BUILD_ROOT SCRATCH with TOOLCHAIN ROOTFS, which is not supported",
                    ),
                ),
            )
        } else if spec.toolchain_inputs.len() == 0 {
            Err(
                failure(
                    cat2(
                        &package,
                        "' uses BUILD_ROOT SCRATCH but does not declare any TOOLCHAIN_INPUT entries",
                    ),
                ),
            )
        } else {
            Ok(())
        },
        BuildRoot::Oci(reference) => if rootfs {
            Ok(())
        } else {
            Err(
                failure(
                    cat4(
                        &package,
                        "' uses BUILD_ROOT OCI ",
                        reference,
                        " without TOOLCHAIN ROOTFS, which is not supported",
                    ),
                ),
            )
        },
    }
}

/// `package '<id>' requests BUILD_ARCH '<arch>' / TARGET_ARCH '<arch>'`.
pub open spec fn arch_request(spec: PackageSpecView) -> Text {
    "package '"@ + spec.id() + "' requests BUILD_ARCH '"@ + spec.build_arch + "' / TARGET_ARCH '"@
        + spec.target_arch
}

fn describe_arch_request(spec: &PackageSpec) -> (text: String)
    ensures
        text@ == arch_request(spec.deep_view()),
{
    cat6(
        "package '",
        &spec.package_id(),
        "' requests BUILD_ARCH '",
        &spec.build_arch,
        "' / TARGET_ARCH '",
        &spec.target_arch,
    )
}

/// What is wrong with the architectures of a build on Linux.
pub open spec fn linux_arch_check(spec: PackageSpecView, host: Text) -> Result<(), Messages> {
    if (spec.build_arch == host && spec.target_arch == host) || environment::in_image(spec) {
        Ok(())
    } else if spec.build_arch != spec.target_arch {
        Err(
            seq![
                arch_request(spec)
                    + "', but only BUILD_ROOT OCI + TOOLCHAIN ROOTFS is restored for BUILD_ARCH != TARGET_ARCH in this pass"@,
            ],
        )
    } else {
        Err(
            seq![
                arch_request(spec)
                    + "', but only BUILD_ROOT OCI + TOOLCHAIN ROOTFS with BUILD_ARCH == TARGET_ARCH is restored for non-host-native command builds in this pass"@,
            ],
        )
    }
}

fn validate_linux_arch(spec: &PackageSpec, host: &str) -> (result: Result<(), Failure>)
    ensures
        outcome(result) == linux_arch_check(spec.deep_view(), host@),
{
    if (same(&spec.build_arch, host) && same(&spec.target_arch, host)) || builds_in_image(spec) {
        return Ok(());
    }
    let request = describe_arch_request(spec);
    if !same(&spec.build_arch, &spec.target_arch) {
        Err(
            failure(
                cat2(
                    &request,
                    "', but only BUILD_ROOT OCI + TOOLCHAIN ROOTFS is restored for BUILD_ARCH != TARGET_ARCH in this pass",
                ),
            ),
        )
    } else {
        Err(
            failure(
                cat2(
                    &request,
                    "', but only BUILD_ROOT OCI + TOOLCHAIN ROOTFS with BUILD_ARCH == TARGET_ARCH is restored for non-host-native command builds in this pass",
                ),
            ),
        )
    }
}

/// What is wrong with the place, the tools and the architectures of a build on macOS or Windows.
pub open spec fn portable_check(spec: PackageSpecView, host: Text) -> Result<(), Messages> {
    let package = "package '"@ + spec.id();
    if spec.toolchain_inputs.len() > 0 {
        Err(
            seq![
                package
                    + "' uses TOOLCHAIN_INPUT, but TOOLCHAIN_INPUT is only supported on Linux BUILD_ROOT SCRATCH or BUILD_ROOT OCI paths"@,
            ],
        )
    } else {
        match (spec.build_root, spec.toolchain) {
            (BuildRootView::System, ToolchainSource::System) => if spec.build_arch != host
                || spec.target_arch != host {
                Err(
                    seq![
                        arch_request(spec)
                            + "' without BUILD_ROOT OCI; on macOS and Windows, Linux-targeted advanced builds require BUILD_ROOT OCI <image>"@,
                    ],
                )
            } else {
                Ok(())
            },
            (BuildRootView::System, ToolchainSource::Rootfs) => Err(
                seq![
                    package
                        + "' uses TOOLCHAIN ROOTFS without BUILD_ROOT OCI; on macOS and Windows, Linux provider builds require BUILD_ROOT OCI <image>"@,
                ],
            ),
            (BuildRootView::Scratch, _) => Err(
                seq![
                    package
                        + "' uses BUILD_ROOT SCRATCH, but BUILD_ROOT SCRATCH is only supported on Linux"@,
                ],
            ),
            (BuildRootView::Oci(reference), ToolchainSource::System) => Err(
                seq![
                    package + "' uses BUILD_ROOT OCI "@ + reference
                        + " without TOOLCHAIN ROOTFS, which is not supported"@,
                ],
            ),
            (BuildRootView::Oci(_), ToolchainSource::Rootfs) => Ok(()),
        }
    }
}

fn validate_portable(spec: &PackageSpec, host: &str) -> (result: Result<(), Failure>)
    ensures
        outcome(result) == portable_check(spec.deep_view(), host@),
{
    let package = cat2("package '", &spec.package_id());
    assert(spec.toolchain_inputs.deep_view().len() == spec.toolchain_inputs.len());
    if spec.toolchain_inputs.len() > 0 {
        return Err(
            failure(
                cat2(
                    &package,
                    "' uses TOOLCHAIN_INPUT, but TOOLCHAIN_INPUT is only supported on Linux BUILD_ROOT SCRATCH or BUILD_ROOT OCI paths",
                ),
            ),
        );
    }
    let rootfs = spec.toolchain == ToolchainSource::Rootfs;
    match &spec.build_root {
        BuildRoot::System => if rootfs {
            Err(
                failure(
                    cat2(
                        &package,
                        "' uses TOOLCHAIN ROOTFS without BUILD_ROOT OCI; on macOS and Windows, Linux provider builds require BUILD_ROOT OCI <image>",
                    ),
                ),
            )
        } else if !same(&spec.build_arch, host) || !same(&spec.target_arch, host) {
            Err(
                failure(
                    cat2(
                        &describe_arch_request(spec),
                        "' without BUILD_ROOT OCI; on macOS and Windows, Linux-targeted advanced builds require BUILD_ROOT OCI <image>",
                    ),
                ),
            )
        } else {
            Ok(())
        },
        BuildRoot::Scratch => Err(
            failure(
                cat2(
                    &package,
                    "' uses BUILD_ROOT SCRATCH, but BUILD_ROOT SCRATCH is only supported on Linux",
                ),
            ),
        ),
        BuildRoot::Oci(reference) => if rootfs {
            Ok(())
        } else {
            Err(
                failure(
                    cat4(
                        &package,
                        "' uses BUILD_ROOT OCI ",
                        reference,
                        " without TOOLCHAIN ROOTFS, which is not supported",
                    ),
                ),
            )
        },
    }
}

/// Whether a package can be built on a host, and if not, why. `existing` tells of each declared
/// tool whether it is there.
pub open spec fn pipeline_check(
    platform: HostPlatform,
    spec: PackageSpecView,
    host: Text,
    existing: Seq<bool>,
) -> Result<(), Messages> {
    if platform != HostPlatform::Linux {
        portable_check(spec, host)
    } else {
        match linux_place_check(spec) {
            Err(messages) => Err(messages),
            Ok(_) => match tools_check(spec.toolchain_inputs, existing, 0) {
                Err(messages) => Err(messages),
                Ok(_) => linux_arch_check(spec, host),
            },
        }
    }
}

pub fn validate_supported_command_pipeline(
    platform: HostPlatform,
    spec: &PackageSpec,
    host: &str,
    existing: &Vec<bool>,
) -> (result: Result<(), Failure>)
    requires
        spec.toolchain_inputs.len() == existing.len(),
    ensures
        outcome(result) == pipeline_check(platform, spec.deep_view(), host@, existing@),
{
    if platform != HostPlatform::Linux {
        return validate_portable(spec, host);
    }
    validate_linux_place(spec)?;
    validate_toolchain_inputs(&spec.toolchain_inputs, existing)?;
    validate_linux_arch(spec, host)
}

/// The architecture that has to be emulated, if any: that of the build where it is foreign, else
/// that of the target.
pub open spec fn guest_arch(host_arch: Text, spec: PackageSpecView) -> Result<
    Option<Text>,
    Messages,
> {
    match arch::arch_named(host_arch) {
        Err(messages) => Err(messages),
        Ok(host) => match arch::arch_named(spec.build_arch) {
            Err(messages) => Err(messages),
            Ok(build) => if build != host {
                Ok(Some(build))
            } else {
                match arch::arch_named(spec.target_arch) {
                    Err(messages) => Err(messages),
                    Ok(target) => if target != host {
                        Ok(Some(target))
                    } else {
                        Ok(None)
                    },
                }
            },
        },
    }
}

pub fn command_emulator_guest_arch(host_arch: &str, spec: &PackageSpec) -> (result: Result<
    Option<String>,
    Failure,
>)
    ensures
        outcome(result) == guest_arch(host_arch@, spec.deep_view()),
{
    let host = normalize_arch_name(host_arch)?;
    let build = normalize_arch_name(&spec.build_arch)?;
    if !same(&build, &host) {
        return Ok(Some(build));
    }
    let target = normalize_arch_name(&spec.target_arch)?;
    if !same(&target, &host) {
        return Ok(Some(target));
    }
    Ok(None)
}

/// The emulated architecture of a build inside an image; no other build has one.
pub open spec fn emulated_arch(host_arch: Text, spec: PackageSpecView) -> Result<
    Option<Text>,
    Messages,
> {
    if environment::in_image(spec) {
        guest_arch(host_arch, spec)
    } else {
        Ok(None)
    }
}

pub fn command_emulator_arch(host_arch: &str, spec: &PackageSpec) -> (result: Result<
    Option<String>,
    Failure,
>)
    ensures
        outcome(result) == emulated_arch(host_arch@, spec.deep_view()),
{
    if builds_in_image(spec) {
        command_emulator_guest_arch(host_arch, spec)
    } else {
        Ok(None)
    }
}

/// The image that a build takes place in and the architecture that is asked of it, which is
/// left open where it is that of the host.
pub open spec fn image_request(spec: PackageSpecView, host: Text) -> Option<(Text, Option<Text>)> {
    match spec.build_root {
        BuildRootView::Oci(reference) => Some(
            (
                reference,
                if spec.build_arch == host {
                    None
                } else {
                    Some(spec.build_arch)
                },
            ),
        ),
        _ => None,
    }
}

pub fn command_image_request(spec: &PackageSpec, host: &str) -> (request: Option<
    (String, Option<String>),
>)
    ensures
        request.deep_view() == image_request(spec.deep_view(), host@),
{
    match &spec.build_root {
        BuildRoot::Oci(reference) => {
            let arch = if same(&spec.build_arch, host) {
                None
            } else {
                Some(spec.build_arch.dup())
            };
            Some((reference.dup(), arch))
        },
        _ => None,
    }
}

/// Where the commands of a phase run.
pub open spec fn phase_cwd(build_system: BuildSystem, phase: Text) -> Text {
    match build_system {
        BuildSystem::Autoconf | BuildSystem::Cargo => "/work/source"@,
        _ => if phase == "BUILD"@ || phase == "INSTALL"@ {
            "/work/build"@
        } else {
            "/work/source"@
        },
    }
}

pub fn default_phase_cwd(spec: &PackageSpec, phase_name: &str) -> (cwd: &'static str)
    ensures
        cwd@ == phase_cwd(spec.deep_view().build_system, phase_name@),
{
    match spec.build_system {
        BuildSystem::Autoconf | BuildSystem::Cargo => "/work/source",
        BuildSystem::Cmake | BuildSystem::Meson | BuildSystem::Manual => if same(
            phase_name,
            "BUILD",
        ) || same(phase_name, "INSTALL") {
            "/work/build"
        } else {
            "/work/source"
        },
    }
}

/// A character is found no earlier than where the search starts.
pub proof fn lemma_position_behind(s: Text, c: char, from: int)
    requires
        0 <= from <= s.len(),
    ensures
        from <= text::position_of(s, c, from) <= s.len(),
    decreases s.len() - from,
{
    if from < s.len() && s[from] != c {
        lemma_position_behind(s, c, from + 1);
    }
}

/// The bytes of a character, each taken for a character.
pub open spec fn byte_chars(c: char) -> Text {
    vstd::utf8::encode_utf8(seq![c]).map_values(|byte: u8| byte as char)
}

/// What follows `output` when the variables in `value` from position `from` on are replaced: each
/// `${name}` by the value of `name`, and anything else byte by byte.
pub open spec fn interpolated_from(
    value: Text,
    variables: Seq<(Text, Text)>,
    kind: Text,
    from: int,
    output: Text,
) -> Result<Text, Messages>
    decreases value.len() - from,
    when 0 <= from <= value.len()
{
    if from >= value.len() {
        Ok(output)
    } else if value[from] == '$' && from + 1 < value.len() && value[from + 1] == '{' {
        let end = text::position_of(value, '}', from + 2);
        let name = value.subrange(from + 2, end);
        proof {
            lemma_position_behind(value, '}', from + 2);
        }
        if end >= value.len() {
            Err(seq!["unterminated ${NAME} expansion"@])
        } else {
            match text::value_of(variables, name) {
                Some(replacement) => interpolated_from(
                    value,
                    variables,
                    kind,
                    end + 1,
                    output + replacement,
                ),
                None => if names::is_identifier(name) {
                    Err(seq!["undefined "@ + kind + " "@ + name])
                } else {
                    Err(seq!["invalid "@ + kind + " reference "@ + name])
                },
            }
        }
    } else {
        interpolated_from(value, variables, kind, from + 1, output + byte_chars(value[from]))
    }
}

/// `value` with its variables replaced.
pub open spec fn interpolated(value: Text, variables: Seq<(Text, Text)>, kind: Text) -> Result<
    Text,
    Messages,
> {
    interpolated_from(value, variables, kind, 0, Seq::empty())
}

/// `metalor::interpolate_braced_variables` replaces every `${name}` by what the map holds under
/// `name`, and copies every other byte as the character of that number, so ASCII stays as it is.
/// It fails with one message at the first expansion that is not closed, or whose name is neither
/// in the map nor an identifier, or is an identifier but not in the map. The map holds the pairs
/// in `variables`.
#[verifier::external_body]
fn interpolate_braced_variables(
    value: &str,
    variables: &Vec<(String, String)>,
    kind: &str,
) -> (result: Result<String, Failure>)
    requires
        text::keys_differ(variables.deep_view()),
    ensures
        outcome(result) == interpolated(value@, variables.deep_view(), kind@),
{
    let map = variables.iter().map(|pair| (pair.0.clone(), pair.1.clone())).collect();
    match metalor::interpolate_braced_variables(value, &map, kind) {
        Ok(text) => Ok(text),
        Err(error) => Err(
            Failure { messages: error.chain().map(|cause| cause.to_string()).collect() },
        ),
    }
}

proof fn lemma_interpolation_looks_up_values(
    value: Text,
    left: Seq<(Text, Text)>,
    right: Seq<(Text, Text)>,
    kind: Text,
    from: int,
    output: Text,
)
    requires
        0 <= from <= value.len(),
        forall|key: Text| #[trigger] text::value_of(left, key) == text::value_of(right, key),
    ensures
        interpolated_from(value, left, kind, from, output) == interpolated_from(
            value,
            right,
            kind,
            from,
            output,
        ),
    decreases value.len() - from,
{
    if from < value.len() {
        if value[from] == '$' && from + 1 < value.len() && value[from + 1] == '{' {
            let end = text::position_of(value, '}', from + 2);
            let name = value.subrange(from + 2, end);
            lemma_position_behind(value, '}', from + 2);
            if end < value.len() {
                if let Some(replacement) = text::value_of(left, name) {
                    lemma_interpolation_looks_up_values(
                        value,
                        left,
                        right,
                        kind,
                        end + 1,
                        output + replacement,
                    );
                }
            }
        } else {
            lemma_interpolation_looks_up_values(
                value,
                left,
                right,
                kind,
                from + 1,
                output + byte_chars(value[from]),
            );
        }
    }
}

/// The position of the first `$(` at or behind `from`, or the length of `s`.
pub open spec fn substitution_at(s: Text, from: int) -> int
    decreases s.len() - from,
{
    if from >= s.len() {
        s.len() as int
    } else if s[from] == '$' && from + 1 < s.len() && s[from + 1] == '(' {
        from
    } else {
        substitution_at(s, from + 1)
    }
}

/// A text behind a position starts no later than the substitution in it.
pub proof fn lemma_substitution_behind(s: Text, from: int)
    requires
        0 <= from <= s.len(),
    ensures
        from <= substitution_at(s, from) <= s.len(),
        substitution_at(s, from) < s.len() ==> substitution_at(s, from) + 2 <= s.len(),
    decreases s.len() - from,
{
    if from < s.len() {
        if !(s[from] == '$' && from + 1 < s.len() && s[from + 1] == '(') {
            lemma_substitution_behind(s, from + 1);
        }
    }
}

/// What follows `output` when the substitutions in `value` from position `from` on are made:
/// `$(nproc)` is the number of processors, and nothing else is known.
pub open spec fn expanded_from(value: Text, processors: Text, from: int, output: Text) -> Result<
    Text,
    Messages,
>
    decreases value.len() - from,
    when 0 <= from <= value.len()
{
    let start = substitution_at(value, from);
    let end = text::position_of(value, ')', start + 2);
    let name = value.subrange(start + 2, end);
    proof {
        lemma_substitution_behind(value, from);
        if start < value.len() {
            lemma_position_behind(value, ')', start + 2);
        }
    }
    if start >= value.len() {
        Ok(output + value.subrange(from, value.len() as int))
    } else if end >= value.len() {
        Err(seq!["unterminated direct command substitution in '"@ + value + "'"@])
    } else if name == "nproc"@ {
        expanded_from(
            value,
            processors,
            end + 1,
            output + value.subrange(from, start) + processors,
        )
    } else {
        Err(
            seq![
                "unsupported direct command substitution '$("@ + name + ")' in '"@ + value + "'"@,
            ],
        )
    }
}

/// `value` with its substitutions made.
pub open spec fn expanded(value: Text, processors: Text) -> Result<Text, Messages> {
    expanded_from(value, processors, 0, Seq::empty())
}

fn find_substitution(chars: &Vec<char>, from: usize) -> (position: usize)
    requires
        from <= chars.len(),
    ensures
        position == substitution_at(chars@, from as int),
        from <= position <= chars.len(),
        position < chars.len() ==> position + 2 <= chars.len(),
{
    let mut position: usize = from;
    while position < chars.len()
        invariant
            from <= position <= chars.len(),
            substitution_at(chars@, from as int) == substitution_at(chars@, position as int),
        decreases chars.len() - position,
    {
        if chars[position] == '$' && position + 1 < chars.len() && chars[position + 1] == '(' {
            return position;
        }
        position = position + 1;
    }
    position
}

/// Makes the substitutions that are trusted outside a shell. `parallelism` is the number of
/// processors.
pub fn expand_trusted_direct_command_substitutions(value: &str, parallelism: usize) -> (result:
    Result<String, Failure>)
    ensures
        outcome(result) == expanded(value@, text::numeral(parallelism as nat)),
{
    let processors = decimal(parallelism);
    let chars = chars_of(value);
    let mut output = String::new();
    let mut from: usize = 0;
    assert(output@ == Seq::<char>::empty());
    let mut start: usize = find_substitution(&chars, from);
    while start < chars.len()
        invariant
            from <= start <= chars.len(),
            chars@ == value@,
            start == substitution_at(value@, from as int),
            start < chars.len() ==> start + 2 <= chars.len(),
            processors@ == text::numeral(parallelism as nat),
            expanded(value@, processors@) == expanded_from(
                value@,
                processors@,
                from as int,
                output@,
            ),
        decreases chars.len() - from,
    {
        let end: usize = find_char(&chars, ')', start + 2);
        proof {
            lemma_position_behind(value@, ')', start + 2);
        }
        if end >= chars.len() {
            return Err(
                failure(cat3("unterminated direct command substitution in '", value, "'")),
            );
        }
        let name = slice(value, start + 2, end);
        if !same(&name, "nproc") {
            return Err(
                failure(
                    cat5(
                        "unsupported direct command substitution '$(",
                        &name,
                        ")' in '",
                        value,
                        "'",
                    ),
                ),
            );
        }
        output = cat3(&output, &slice(value, from, start), &processors);
        from = end + 1;
        start = find_substitution(&chars, from);
    }
    Ok(cat2(&output, &slice(value, from, chars.len())))
}

/// Whether a command is a script for a shell.
pub open spec fn is_script(command: Seq<Text>) -> bool {
    command.len() == 4 && command[0] == "sh"@ && command[1] == "-eu"@ && command[2] == "-c"@
}

fn runs_script(command: &Vec<String>) -> (yes: bool)
    ensures
        yes == is_script(command.deep_view()),
{
    assert(command.deep_view().len() == command.len());
    if command.len() != 4 {
        return false;
    }
    assert(command.deep_view()[0] == command[0]@);
    assert(command.deep_view()[1] == command[1]@);
    assert(command.deep_view()[2] == command[2]@);
    same(&command[0], "sh") && same(&command[1], "-eu") && same(&command[2], "-c")
}

/// What is made of an argument once its variables are replaced: a script is left to its shell.
pub open spec fn finished_argument(script: bool, argument: Text, processors: Text) -> Result<
    Text,
    Messages,
> {
    if script {
        Ok(argument)
    } else {
        expanded(argument, processors)
    }
}

/// Finishes an argument whose variables are replaced.
pub fn finish_phase_argument(script: bool, argument: String, parallelism: usize) -> (result: Result<
    String,
    Failure,
>)
    ensures
        outcome(result) == finished_argument(
            script,
            argument@,
            text::numeral(parallelism as nat),
        ),
{
    if script {
        Ok(argument)
    } else {
        expand_trusted_direct_command_substitutions(&argument, parallelism)
    }
}

/// The arguments of a command from position `from` on, put behind `done`.
pub open spec fn arguments_from(
    command: Seq<Text>,
    variables: Seq<(Text, Text)>,
    processors: Text,
    from: int,
    done: Seq<Text>,
) -> Result<Seq<Text>, Messages>
    decreases command.len() - from,
{
    if from >= command.len() {
        Ok(done)
    } else {
        match interpolated(command[from], variables, "DepoFile command variable"@) {
            Err(messages) => Err(messages),
            Ok(argument) => match finished_argument(is_script(command), argument, processors) {
                Err(messages) => Err(messages),
                Ok(argument) => arguments_from(
                    command,
                    variables,
                    processors,
                    from + 1,
                    done.push(argument),
                ),
            },
        }
    }
}

/// The arguments that a command of a phase is run with.
pub open spec fn phase_arguments(
    phase: Text,
    command: Seq<Text>,
    variables: Seq<(Text, Text)>,
    processors: Text,
) -> Result<Seq<Text>, Messages> {
    if command.len() == 0 {
        Err(seq![phase + " command array must not be empty"@])
    } else {
        arguments_from(command, variables, processors, 0, Seq::empty())
    }
}

pub fn prepare_phase_arguments(
    phase_name: &str,
    command: &Vec<String>,
    variables: &Vec<(String, String)>,
    parallelism: usize,
) -> (result: Result<Vec<String>, Failure>)
    ensures
        outcome(result) == phase_arguments(
            phase_name@,
            command.deep_view(),
            variables.deep_view(),
            text::numeral(parallelism as nat),
        ),
        result matches Ok(argv) ==> argv.len() == command.len(),
{
    assert(command.deep_view().len() == command.len());
    if command.len() == 0 {
        return Err(failure(cat2(phase_name, " command array must not be empty")));
    }
    let script = runs_script(command);
    let known = last_pairs(variables);
    let ghost processors = text::numeral(parallelism as nat);
    let mut argv: Vec<String> = Vec::new();
    assert(argv.deep_view() == Seq::<Text>::empty());
    let mut from: usize = 0;
    while from < command.len()
        invariant
            from <= command.len(),
            argv.len() == from,
            command.deep_view().len() == command.len(),
            script == is_script(command.deep_view()),
            processors == text::numeral(parallelism as nat),
            text::keys_differ(known.deep_view()),
            forall|key: Text| #[trigger]
                text::value_of(known.deep_view(), key) == text::value_of(
                    variables.deep_view(),
                    key,
                ),
            phase_arguments(
                phase_name@,
                command.deep_view(),
                variables.deep_view(),
                processors,
            ) == arguments_from(
                command.deep_view(),
                variables.deep_view(),
                processors,
                from as int,
                argv.deep_view(),
            ),
        decreases command.len() - from,
    {
        assert(command.deep_view()[from as int] == command[from as int]@);
        proof {
            lemma_interpolation_looks_up_values(
                command[from as int]@,
                known.deep_view(),
                variables.deep_view(),
                "DepoFile command variable"@,
                0,
                Seq::empty(),
            );
        }
        let argument = interpolate_braced_variables(
            &command[from],
            &known,
            "DepoFile command variable",
        )?;
        let argument = finish_phase_argument(script, argument, parallelism)?;
        put(&mut argv, argument);
        assert(argv.deep_view().len() == argv.len());
        from = from + 1;
    }
    Ok(argv)
}

/// `run <phase> in <cwd>: <arguments>`.
pub open spec fn run_line(phase: Text, cwd: Text, argv: Seq<Text>) -> Text {
    "run "@ + phase + " in "@ + cwd + ": "@ + text::joined(argv, " "@) + "\n"@
}

pub fn phase_log_line(phase_name: &str, cwd: &str, argv: &Vec<String>) -> (line: String)
    ensures
        line@ == run_line(phase_name@, cwd@, argv.deep_view()),
{
    cat7("run ", phase_name, " in ", cwd, ": ", &join(argv, " "), "\n")
}

/// Where a command without a directory is found on the system.
pub open spec fn runtime_executable(executable: Text, in_usr_bin: bool, in_bin: bool) -> Result<
    Text,
    Messages,
> {
    if text::has_prefix(executable, "/"@) {
        Ok(executable)
    } else if in_usr_bin {
        Ok(paths::joined_path(HostPlatform::Linux, "/usr/bin"@, executable))
    } else if in_bin {
        Ok(paths::joined_path(HostPlatform::Linux, "/bin"@, executable))
    } else {
        Err(seq!["unable to resolve executable '"@ + executable + "'"@])
    }
}

pub fn resolve_runtime_executable(executable: &str, in_usr_bin: bool, in_bin: bool) -> (result:
    Result<String, Failure>)
    ensures
        outcome(result) == runtime_executable(executable@, in_usr_bin, in_bin),
{
    if text::starts_with(executable, "/") {
        Ok(executable.to_owned())
    } else if in_usr_bin {
        Ok(join_path(HostPlatform::Linux, "/usr/bin", executable))
    } else if in_bin {
        Ok(join_path(HostPlatform::Linux, "/bin", executable))
    } else {
        Err(failure(cat3("unable to resolve executable '", executable, "'")))
    }
}

/// Where the executable of a command is found when it names no place below the working
/// directory: the image knows its own, and macOS and Windows search for it.
pub open spec fn backend_executable(
    platform: HostPlatform,
    spec: PackageSpecView,
    executable: Text,
    in_usr_bin: bool,
    in_bin: bool,
) -> Result<Text, Messages> {
    if platform != HostPlatform::Linux || environment::in_image(spec) {
        Ok(executable)
    } else {
        runtime_executable(executable, in_usr_bin, in_bin)
    }
}

pub fn resolve_phase_executable_for_backend(
    platform: HostPlatform,
    spec: &PackageSpec,
    executable: &str,
    in_usr_bin: bool,
    in_bin: bool,
) -> (result: Result<String, Failure>)
    ensures
        outcome(result) == backend_executable(
            platform,
            spec.deep_view(),
            executable@,
            in_usr_bin,
            in_bin,
        ),
{
    if platform != HostPlatform::Linux || builds_in_image(spec) {
        Ok(executable.to_owned())
    } else {
        resolve_runtime_executable(executable, in_usr_bin, in_bin)
    }
}

/// The path that the components of `executable` from position `from` on lead to from `resolved`.
pub open spec fn below_cwd(
    platform: HostPlatform,
    executable: Text,
    parts: Seq<Text>,
    from: int,
    resolved: Text,
) -> Result<
    Text,
    Messages,
>
    decreases parts.len() - from,
{
    if from >= parts.len() {
        Ok(resolved)
    } else if parts[from] == ".."@ {
        Err(seq!["relative phase executable must not contain '..': "@ + executable])
    } else if parts[from] == "."@ {
        below_cwd(platform, executable, parts, from + 1, resolved)
    } else {
        below_cwd(
            platform,
            executable,
            parts,
            from + 1,
            paths::joined_path(platform, resolved, parts[from]),
        )
    }
}

/// The executable of a command of a phase.
pub open spec fn phase_executable(
    platform: HostPlatform,
    spec: PackageSpecView,
    cwd: Text,
    executable: Text,
    in_usr_bin: bool,
    in_bin: bool,
) -> Result<Text, Messages> {
    if paths::absolute_on(platform, executable) || text::position_of(executable, '/', 0) >= executable.len() {
        backend_executable(platform, spec, executable, in_usr_bin, in_bin)
    } else if !paths::absolute_on(platform, cwd) {
        Err(seq!["phase cwd must be absolute: "@ + cwd])
    } else {
        below_cwd(platform, executable, paths::components_of(platform, executable), 0, cwd)
    }
}

pub fn resolve_phase_executable_for_spec(
    platform: HostPlatform,
    spec: &PackageSpec,
    cwd: &str,
    executable: &str,
    in_usr_bin: bool,
    in_bin: bool,
) -> (result: Result<String, Failure>)
    ensures
        outcome(result) == phase_executable(
            platform,
            spec.deep_view(),
            cwd@,
            executable@,
            in_usr_bin,
            in_bin,
        ),
{
    let chars = chars_of(executable);
    if is_absolute_on(platform, executable) || find_char(&chars, '/', 0) >= chars.len() {
        return resolve_phase_executable_for_backend(
            platform,
            spec,
            executable,
            in_usr_bin,
            in_bin,
        );
    }
    if !is_absolute_on(platform, cwd) {
        return Err(failure(cat2("phase cwd must be absolute: ", cwd)));
    }
    let parts = components(platform, executable);
    let mut resolved = cwd.to_owned();
    let mut from: usize = 0;
    while from < parts.len()
        invariant
            from <= parts.len(),
            parts.deep_view() == paths::components_of(platform, executable@),
            phase_executable(
                platform,
                spec.deep_view(),
                cwd@,
                executable@,
                in_usr_bin,
                in_bin,
            ) == below_cwd(platform, executable@, parts.deep_view(), from as int, resolved@),
        decreases parts.len() - from,
    {
        let part: &str = parts[from].as_str();
        assert(parts.deep_view()[from as int] == part@);
        if same(part, "..") {
            return Err(
                failure(cat2("relative phase executable must not contain '..': ", executable)),
            );
        }
        if !same(part, ".") {
            resolved = join_path(platform, &resolved, part);
        }
        from = from + 1;
    }
    Ok(resolved)
}

/// A log with what a command printed, which ends its line.
pub open spec fn noted(log: Text, printed: Text) -> Text {
    if printed.len() == 0 {
        log
    } else if (log + printed).last() == '\n' {
        log + printed
    } else {
        log + printed + "\n"@
    }
}

fn note(log: &mut String, printed: &str)
    ensures
        final(log)@ == noted(old(log)@, printed@),
{
    if printed.is_empty() {
        return;
    }
    log.append(printed);
    let chars = chars_of(log.as_str());
    assert(chars@ == old(log)@ + printed@);
    if chars[chars.len() - 1] != '\n' {
        log.append("\n");
    }
}

/// Puts what a command printed into the log.
pub fn append_process_output(log: &mut String, stdout: &str, stderr: &str)
    ensures
        final(log)@ == noted(noted(old(log)@, stdout@), stderr@),
{
    note(log, stdout);
    note(log, stderr);
}

/// `s` without the line ends at its end.
pub open spec fn without_line_ends(s: Text) -> Text
    decreases s.len(),
{
    if s.len() > 0 && (s.last() == '\r' || s.last() == '\n') {
        without_line_ends(s.drop_last())
    } else {
        s
    }
}

/// A message with what a command printed below a label, unless that is nothing.
pub open spec fn with_output(message: Text, label: Text, printed: Text) -> Text {
    let shown = without_line_ends(printed);
    if shown.len() == 0 {
        message
    } else {
        message + "\n"@ + label + ":\n"@ + shown
    }
}

pub fn append_process_failure_output(message: &mut String, label: &str, printed: &str)
    ensures
        final(message)@ == with_output(old(message)@, label@, printed@),
{
    let chars = chars_of(printed);
    let mut end: usize = chars.len();
    assert(printed@.take(end as int) == printed@);
    while end > 0 && (chars[end - 1] == '\r' || chars[end - 1] == '\n')
        invariant
            end <= chars.len(),
            chars@ == printed@,
            without_line_ends(printed@) == without_line_ends(printed@.take(end as int)),
        decreases end,
    {
        assert(printed@.take(end as int).drop_last() == printed@.take(end - 1));
        end = end - 1;
    }
    let ghost shown = printed@.take(end as int);
    assert(without_line_ends(shown) == shown);
    if end == 0 {
        return;
    }
    let rest = slice(printed, 0, end);
    assert(rest@ == shown);
    let added = cat5(message.as_str(), "\n", label, ":\n", &rest);
    *message = added;
}

/// What installs a cross compiler inside an image.
pub open spec fn cross_toolchain_script(spec: PackageSpecView) -> Text {
    let prefix = arch::gnu_prefix(spec.target_arch);
    "\nexport DEBIAN_FRONTEND=noninteractive\nif command -v apt-get >/dev/null 2>&1; then\n  apt-get update\n  apt-get install -y "@
        + arch::crossbuild_package(spec.target_arch) + "\nelif ! command -v "@ + prefix
        + "-gcc >/dev/null 2>&1; then\n  echo \"cross-target Linux provider builds currently require a Debian or Ubuntu OCI base image, or a base image that already has "@
        + prefix + "-gcc installed\" >&2\n  exit 1\nfi\n"@
}

pub fn linux_provider_cross_toolchain_bootstrap_script(spec: &PackageSpec) -> (script: String)
    requires
        arch::supported_arch(spec.target_arch@),
    ensures
        script@ == cross_toolchain_script(spec.deep_view()),
{
    let prefix: &str = linux_gnu_toolchain_prefix(&spec.target_arch);
    cat7(
        "\nexport DEBIAN_FRONTEND=noninteractive\nif command -v apt-get >/dev/null 2>&1; then\n  apt-get update\n  apt-get install -y ",
        debian_crossbuild_package(&spec.target_arch),
        "\nelif ! command -v ",
        prefix,
        "-gcc >/dev/null 2>&1; then\n  echo \"cross-target Linux provider builds currently require a Debian or Ubuntu OCI base image, or a base image that already has ",
        prefix,
        "-gcc installed\" >&2\n  exit 1\nfi\n",
    )
}

/// What installs CMake inside an image.
pub open spec fn cmake_script(spec: PackageSpecView) -> Text {
    "\nexport DEBIAN_FRONTEND=noninteractive\nif command -v apt-get >/dev/null 2>&1; then\n  apt-get update\n  apt-get install -y build-essential cmake ninja-build pkg-config ca-certificates\nelse\n  if ! command -v cmake >/dev/null 2>&1 || ! command -v ninja >/dev/null 2>&1; then\n    echo \"BUILD_SYSTEM CMAKE via the Linux provider currently requires a Debian or Ubuntu OCI base image, or a base image that already has cmake and ninja installed\" >&2\n    exit 1\n  fi\n  if [ \""@
        + spec.build_arch + "\" = \""@ + spec.target_arch
        + "\" ]; then\n    if ! command -v cc >/dev/null 2>&1 || ! command -v c++ >/dev/null 2>&1; then\n      echo \"native BUILD_SYSTEM CMAKE via the Linux provider currently requires a Debian or Ubuntu OCI base image, or a base image that already has a native C/C++ toolchain installed\" >&2\n      exit 1\n    fi\n  fi\nfi\n"@
}

pub fn linux_provider_cmake_bootstrap_script(spec: &PackageSpec) -> (script: String)
    ensures
        script@ == cmake_script(spec.deep_view()),
{
    cat5(
        "\nexport DEBIAN_FRONTEND=noninteractive\nif command -v apt-get >/dev/null 2>&1; then\n  apt-get update\n  apt-get install -y build-essential cmake ninja-build pkg-config ca-certificates\nelse\n  if ! command -v cmake >/dev/null 2>&1 || ! command -v ninja >/dev/null 2>&1; then\n    echo \"BUILD_SYSTEM CMAKE via the Linux provider currently requires a Debian or Ubuntu OCI base image, or a base image that already has cmake and ninja installed\" >&2\n    exit 1\n  fi\n  if [ \"",
        &spec.build_arch,
        "\" = \"",
        &spec.target_arch,
        "\" ]; then\n    if ! command -v cc >/dev/null 2>&1 || ! command -v c++ >/dev/null 2>&1; then\n      echo \"native BUILD_SYSTEM CMAKE via the Linux provider currently requires a Debian or Ubuntu OCI base image, or a base image that already has a native C/C++ toolchain installed\" >&2\n      exit 1\n    fi\n  fi\nfi\n",
    )
}

/// What installs Rust inside an image.
pub open spec fn cargo_script(spec: PackageSpecView) -> Text {
    "\nexport DEBIAN_FRONTEND=noninteractive\nif command -v apt-get >/dev/null 2>&1; then\n  apt-get update\n  apt-get install -y build-essential clang cmake curl file git pkg-config ca-certificates\nelif ! command -v cargo >/dev/null 2>&1; then\n  echo \"BUILD_SYSTEM CARGO via the Linux provider currently requires a Debian or Ubuntu OCI base image, or a base image that already has cargo installed\" >&2\n  exit 1\nfi\nexport CARGO_HOME=\"/work/build/provider-cargo-home\"\nexport RUSTUP_HOME=\"/work/build/provider-rustup-home\"\nexport PATH=\"$CARGO_HOME/bin:$PATH\"\nif ! command -v rustup >/dev/null 2>&1; then\n  curl --fail --location --silent --show-error https://sh.rustup.rs | sh -s -- -y --profile minimal\nfi\nif ! command -v cargo >/dev/null 2>&1; then\n  echo \"cargo was unavailable after rustup bootstrap\" >&2\n  exit 1\nfi\nrustup target add "@
        + arch::gnu_triple(spec.build_arch) + "\nrustup target add "@ + arch::gnu_triple(
        spec.target_arch,
    ) + "\n"@
}

pub fn linux_provider_cargo_bootstrap_script(spec: &PackageSpec) -> (script: String)
    requires
        arch::supported_arch(spec.build_arch@),
        arch::supported_arch(spec.target_arch@),
    ensures
        script@ == cargo_script(spec.deep_view()),
{
    cat5(
        "\nexport DEBIAN_FRONTEND=noninteractive\nif command -v apt-get >/dev/null 2>&1; then\n  apt-get update\n  apt-get install -y build-essential clang cmake curl file git pkg-config ca-certificates\nelif ! command -v cargo >/dev/null 2>&1; then\n  echo \"BUILD_SYSTEM CARGO via the Linux provider currently requires a Debian or Ubuntu OCI base image, or a base image that already has cargo installed\" >&2\n  exit 1\nfi\nexport CARGO_HOME=\"/work/build/provider-cargo-home\"\nexport RUSTUP_HOME=\"/work/build/provider-rustup-home\"\nexport PATH=\"$CARGO_HOME/bin:$PATH\"\nif ! command -v rustup >/dev/null 2>&1; then\n  curl --fail --location --silent --show-error https://sh.rustup.rs | sh -s -- -y --profile minimal\nfi\nif ! command -v cargo >/dev/null 2>&1; then\n  echo \"cargo was unavailable after rustup bootstrap\" >&2\n  exit 1\nfi\nrustup target add ",
        linux_gnu_target_triple(&spec.build_arch),
        "\nrustup target add ",
        linux_gnu_target_triple(&spec.target_arch),
        "\n",
    )
}

/// What prepares an image for a build on behalf of another machine.
pub open spec fn bootstrap_commands(spec: PackageSpecView, provider_mode: bool) -> Seq<Seq<Text>> {
    let cross = if spec.build_arch != spec.target_arch {
        shell::script_phase(cross_toolchain_script(spec))
    } else {
        Seq::empty()
    };
    let tools = match spec.build_system {
        BuildSystem::Cmake => shell::script_phase(cmake_script(spec)),
        BuildSystem::Cargo => shell::script_phase(cargo_script(spec)),
        _ => Seq::empty(),
    };
    if provider_mode && environment::in_image(spec) {
        cross + tools
    } else {
        Seq::empty()
    }
}

pub fn linux_provider_bootstrap_commands(spec: &PackageSpec, provider_mode: bool) -> (commands: Vec<
    Vec<String>,
>)
    requires
        arch::supported_arch(spec.build_arch@),
        arch::supported_arch(spec.target_arch@),
    ensures
        commands.deep_view() == bootstrap_commands(spec.deep_view(), provider_mode),
{
    let mut commands: Vec<Vec<String>> = Vec::new();
    assert(commands.deep_view() == Seq::<Seq<Text>>::empty());
    if !provider_mode || !builds_in_image(spec) {
        return commands;
    }
    if !same(&spec.build_arch, &spec.target_arch) {
        put_all(
            &mut commands,
            &shell_phase(linux_provider_cross_toolchain_bootstrap_script(spec)),
        );
    }
    match spec.build_system {
        BuildSystem::Cmake => {
            put_all(&mut commands, &shell_phase(linux_provider_cmake_bootstrap_script(spec)));
        },
        BuildSystem::Cargo => {
            put_all(&mut commands, &shell_phase(linux_provider_cargo_bootstrap_script(spec)));
        },
        _ => {},
    }
    commands
}

/// Commands that run in one directory, one after the other.
#[derive(Clone, Debug, PartialEq, Eq)]
pub struct CommandPhase {
    pub name: String,
    pub cwd: String,
    pub commands: Vec<Vec<String>>,
}

/// The model of [`CommandPhase`].
pub struct CommandPhaseView {
    pub name: Text,
    pub cwd: Text,
    pub commands: Seq<Seq<Text>>,
}

impl DeepView for CommandPhase {
    type V = CommandPhaseView;

    open spec fn deep_view(&self) -> CommandPhaseView {
        CommandPhaseView {
            name: self.name@,
            cwd: self.cwd@,
            commands: self.commands.deep_view(),
        }
    }
}

/// The phase `name` of a build.
pub open spec fn phase(
    spec: PackageSpecView,
    name: Text,
    place: Text,
    commands: Seq<Seq<Text>>,
) -> CommandPhaseView {
    CommandPhaseView { name, cwd: phase_cwd(spec.build_system, place), commands }
}

/// The phases of a build, in order.
pub open spec fn phases_of(
    platform: HostPlatform,
    spec: PackageSpecView,
    provider_mode: bool,
) -> Seq<
    CommandPhaseView,
> {
    let own = seq![
        phase(spec, "CONFIGURE"@, "CONFIGURE"@, spec.configure),
        phase(spec, "BUILD"@, "BUILD"@, spec.build),
        phase(spec, "INSTALL"@, "INSTALL"@, spec.install),
    ];
    if platform == HostPlatform::Linux {
        seq![
            phase(
                spec,
                "PROVIDER_BOOTSTRAP"@,
                "CONFIGURE"@,
                bootstrap_commands(spec, provider_mode),
            ),
        ] + own
    } else {
        own
    }
}

fn put_phase(
    phases: &mut Vec<CommandPhase>,
    spec: &PackageSpec,
    name: &str,
    place: &str,
    commands: Vec<Vec<String>>,
)
    ensures
        final(phases).deep_view() == old(phases).deep_view().push(
            phase(spec.deep_view(), name@, place@, commands.deep_view()),
        ),
{
    put(
        phases,
        CommandPhase {
            name: name.to_owned(),
            cwd: default_phase_cwd(spec, place).to_owned(),
            commands,
        },
    );
}

pub fn command_phases(platform: HostPlatform, spec: &PackageSpec, provider_mode: bool) -> (phases:
    Vec<CommandPhase>)
    requires
        arch::supported_arch(spec.build_arch@),
        arch::supported_arch(spec.target_arch@),
    ensures
        phases.deep_view() == phases_of(platform, spec.deep_view(), provider_mode),
{
    let mut phases: Vec<CommandPhase> = Vec::new();
    assert(phases.deep_view() == Seq::<CommandPhaseView>::empty());
    if platform == HostPlatform::Linux {
        put_phase(
            &mut phases,
            spec,
            "PROVIDER_BOOTSTRAP",
            "CONFIGURE",
            linux_provider_bootstrap_commands(spec, provider_mode),
        );
    }
    put_phase(&mut phases, spec, "CONFIGURE", "CONFIGURE", spec.configure.dup());
    put_phase(&mut phases, spec, "BUILD", "BUILD", spec.build.dup());
    put_phase(&mut phases, spec, "INSTALL", "INSTALL", spec.install.dup());
    phases
}

/// Whether the exports of a package are looked for in its build and source directories: it is
/// built by hand, and nothing installs or stages its files.
pub open spec fn exports_anywhere(spec: PackageSpecView) -> bool {
    spec.build_system == BuildSystem::Manual && spec.install.len() == 0
        && spec.stage_entries.len() == 0
}

pub fn exports_from_candidates(spec: &PackageSpec) -> (yes: bool)
    ensures
        yes == exports_anywhere(spec.deep_view()),
{
    assert(spec.install.deep_view().len() == spec.install.len());
    assert(spec.stage_entries.deep_view().len() == spec.stage_entries.len());
    spec.build_system == BuildSystem::Manual && spec.install.len() == 0
        && spec.stage_entries.len() == 0
}

/// Where the files of a build stand on the host.
#[derive(Clone, Debug, PartialEq, Eq)]
pub struct BuildRoots {
    pub source: String,
    pub build: String,
    pub prefix: String,
}

/// The model of [`BuildRoots`].
pub struct BuildRootsView {
    pub source: Text,
    pub build: Text,
    pub prefix: Text,
}

impl DeepView for BuildRoots {
    type V = BuildRootsView;

    open spec fn deep_view(&self) -> BuildRootsView {
        BuildRootsView { source: self.source@, build: self.build@, prefix: self.prefix@ }
    }
}

/// What a build does: it runs the phases, then makes the copies below the prefix, and then looks
/// for the exports in the candidates.
#[derive(Clone, Debug, PartialEq, Eq)]
pub struct PipelinePlan {
    pub phases: Vec<CommandPhase>,
    pub copies: Vec<StageCopy>,
    pub candidates: Vec<ExportCandidateRoot>,
}

/// The model of [`PipelinePlan`].
pub struct PipelinePlanView {
    pub phases: Seq<CommandPhaseView>,
    pub copies: Seq<StageCopyView>,
    pub candidates: Seq<ExportCandidateRootView>,
}

impl DeepView for PipelinePlan {
    type V = PipelinePlanView;

    open spec fn deep_view(&self) -> PipelinePlanView {
        PipelinePlanView {
            phases: self.phases.deep_view(),
            copies: self.copies.deep_view(),
            candidates: self.candidates.deep_view(),
        }
    }
}

/// Where the exports of a package are looked for.
pub open spec fn export_candidates(spec: PackageSpecView, roots: BuildRootsView) -> Seq<
    ExportCandidateRootView,
> {
    if exports_anywhere(spec) {
        seq![
            ExportCandidateRootView { label: "build"@, root: roots.build },
            ExportCandidateRootView { label: "source"@, root: roots.source },
        ]
    } else {
        seq![ExportCandidateRootView { label: "source"@, root: roots.prefix }]
    }
}

/// What the build of a package does.
pub open spec fn pipeline_plan(
    platform: HostPlatform,
    spec: PackageSpecView,
    provider_mode: bool,
    roots: BuildRootsView,
) -> PipelinePlanView {
    PipelinePlanView {
        phases: phases_of(platform, spec, provider_mode),
        copies: copying::stage_copies(roots.source, roots.build, spec.stage_entries),
        candidates: export_candidates(spec, roots),
    }
}

fn candidate(label: &str, root: &str) -> (candidate: ExportCandidateRoot)
    ensures
        candidate.deep_view() == (ExportCandidateRootView { label: label@, root: root@ }),
{
    ExportCandidateRoot { label: label.to_owned(), root: root.to_owned() }
}

fn list_export_candidates(spec: &PackageSpec, roots: &BuildRoots) -> (candidates: Vec<
    ExportCandidateRoot,
>)
    ensures
        candidates.deep_view() == export_candidates(spec.deep_view(), roots.deep_view()),
{
    let mut candidates: Vec<ExportCandidateRoot> = Vec::new();
    assert(candidates.deep_view() == Seq::<ExportCandidateRootView>::empty());
    if exports_from_candidates(spec) {
        put(&mut candidates, candidate("build", &roots.build));
        put(&mut candidates, candidate("source", &roots.source));
    } else {
        put(&mut candidates, candidate("source", &roots.prefix));
    }
    candidates
}

/// Plans the build of a package.
pub fn plan_command_pipeline(
    platform: HostPlatform,
    spec: &PackageSpec,
    provider_mode: bool,
    roots: &BuildRoots,
) -> (plan: PipelinePlan)
    requires
        arch::supported_arch(spec.build_arch@),
        arch::supported_arch(spec.target_arch@),
    ensures
        plan.deep_view() == pipeline_plan(
            platform,
            spec.deep_view(),
            provider_mode,
            roots.deep_view(),
        ),
{
    PipelinePlan {
        phases: command_phases(platform, spec, provider_mode),
        copies: plan_stage_entries(&roots.source, &roots.build, &spec.stage_entries),
        candidates: list_export_candidates(spec, roots),
    }
}

/// Whether anything has to be run or staged before the exports of a package can be copied.
pub open spec fn needs_pipeline(spec: PackageSpecView) -> bool {
    spec.configure.len() > 0 || spec.build.len() > 0 || spec.install.len() > 0
        || spec.stage_entries.len() > 0
}

pub fn uses_command_pipeline(spec: &PackageSpec) -> (yes: bool)
    ensures
        yes == needs_pipeline(spec.deep_view()),
{
    assert(spec.configure.deep_view().len() == spec.configure.len());
    assert(spec.build.deep_view().len() == spec.build.len());
    assert(spec.install.deep_view().len() == spec.install.len());
    assert(spec.stage_entries.deep_view().len() == spec.stage_entries.len());
    spec.configure.len() > 0 || spec.build.len() > 0 || spec.install.len() > 0
        || spec.stage_entries.len() > 0
}

} // verus!
