//! The commands of a package's configure, build and install phases.

use vstd::prelude::*;
use crate::arch;
use crate::arch::linux_gnu_toolchain_prefix;
use crate::model::{BuildSystem, Text};
use crate::shell;
use crate::shell::{shell_join, shell_phase, single};
use crate::text::{cat2, cat3, put_all};

verus! {

/// What a DepoFile says of the three phases: arguments for the default commands, a command
/// given directly, or a shell script.
#[derive(Clone, Debug, PartialEq, Eq)]
pub struct BuildSystemCommandInputs {
    pub configure_args: Vec<String>,
    pub build_args: Vec<String>,
    pub install_args: Vec<String>,
    pub configure_direct: Option<Vec<String>>,
    pub build_direct: Option<Vec<String>>,
    pub install_direct: Option<Vec<String>>,
    pub configure_override: Option<String>,
    pub build_override: Option<String>,
    pub install_override: Option<String>,
}

/// The model of [`BuildSystemCommandInputs`].
pub struct CommandInputsView {
    pub configure_args: Seq<Text>,
    pub build_args: Seq<Text>,
    pub install_args: Seq<Text>,
    pub configure_direct: Option<Seq<Text>>,
    pub build_direct: Option<Seq<Text>>,
    pub install_direct: Option<Seq<Text>>,
    pub configure_override: Option<Text>,
    pub build_override: Option<Text>,
    pub install_override: Option<Text>,
}

impl DeepView for BuildSystemCommandInputs {
    type V = CommandInputsView;

    open spec fn deep_view(&self) -> CommandInputsView {
        CommandInputsView {
            configure_args: self.configure_args.deep_view(),
            build_args: self.build_args.deep_view(),
            install_args: self.install_args.deep_view(),
            configure_direct: self.configure_direct.deep_view(),
            build_direct: self.build_direct.deep_view(),
            install_direct: self.install_direct.deep_view(),
            configure_override: self.configure_override.deep_view(),
            build_override: self.build_override.deep_view(),
            install_override: self.install_override.deep_view(),
        }
    }
}

impl CommandInputsView {
    /// No phase has both a direct command and a script.
    pub open spec fn consistent(self) -> bool {
        &&& self.configure_direct is None || self.configure_override is None
        &&& self.build_direct is None || self.build_override is None
        &&& self.install_direct is None || self.install_override is None
    }
}

/// The commands of the three phases.
#[derive(Clone, Debug, PartialEq, Eq)]
pub struct BuildSystemCommands {
    pub configure: Vec<Vec<String>>,
    pub build: Vec<Vec<String>>,
    pub install: Vec<Vec<String>>,
}

/// The model of [`BuildSystemCommands`].
pub struct CommandsView {
    pub configure: Seq<Seq<Text>>,
    pub build: Seq<Seq<Text>>,
    pub install: Seq<Seq<Text>>,
}

impl DeepView for BuildSystemCommands {
    type V = CommandsView;

    open spec fn deep_view(&self) -> CommandsView {
        CommandsView {
            configure: self.configure.deep_view(),
            build: self.build.deep_view(),
            install: self.install.deep_view(),
        }
    }
}

/// The commands of a phase: the direct command, else the script, else the default.
pub open spec fn phase_commands(
    direct: Option<Seq<Text>>,
    script: Option<Text>,
    default: Seq<Seq<Text>>,
) -> Seq<Seq<Text>> {
    match direct {
        Some(command) => seq![command],
        None => match script {
            Some(script) => shell::script_phase(script),
            None => default,
        },
    }
}

/// `args` as further words of a shell command line.
pub open spec fn shell_tail(args: Seq<Text>) -> Text {
    if args.len() == 0 {
        ""@
    } else {
        " "@ + shell::command_line(args)
    }
}

fn further_words(args: &Vec<String>) -> (tail: String)
    ensures
        tail@ == shell_tail(args.deep_view()),
{
    if args.len() == 0 {
        "".to_owned()
    } else {
        cat2(" ", &shell_join(args))
    }
}

/// How a build system configures where the DepoFile gives no command.
pub open spec fn default_configure(build_system: BuildSystem, args: Seq<Text>) -> Seq<Seq<Text>> {
    match build_system {
        BuildSystem::Cmake => seq![
            seq![
                "cmake"@,
                "-S"@,
                "${DEPO_SOURCE_DIR}"@,
                "-B"@,
                "${DEPO_BUILD_DIR}"@,
                "-G"@,
                "Ninja"@,
                "-DCMAKE_BUILD_TYPE=Release"@,
                "-DCMAKE_INSTALL_PREFIX=${DEPO_PREFIX}"@,
                "-DCMAKE_INSTALL_LIBDIR=lib"@,
            ] + args,
        ],
        BuildSystem::Meson => seq![
            seq![
                "meson"@,
                "setup"@,
                "${DEPO_BUILD_DIR}"@,
                "${DEPO_SOURCE_DIR}"@,
                "--wipe"@,
                "--buildtype=release"@,
                "--prefix=${DEPO_PREFIX}"@,
                "--libdir=lib"@,
            ] + args,
        ],
        BuildSystem::Autoconf => shell::script_phase(
            "./configure --prefix=\"$DEPO_PREFIX\" --libdir=\"$DEPO_PREFIX/lib\""@ + shell_tail(
                args,
            ),
        ),
        BuildSystem::Cargo => Seq::empty(),
        BuildSystem::Manual => Seq::empty(),
    }
}

/// How a build system builds where the DepoFile gives no command.
pub open spec fn default_build(build_system: BuildSystem, args: Seq<Text>) -> Seq<Seq<Text>> {
    match build_system {
        BuildSystem::Cmake => seq![
            seq!["cmake"@, "--build"@, "${DEPO_BUILD_DIR}"@, "--parallel"@] + args,
        ],
        BuildSystem::Meson => seq![
            seq!["meson"@, "compile"@, "-C"@, "${DEPO_BUILD_DIR}"@] + args,
        ],
        BuildSystem::Autoconf => shell::script_phase("make -j$(nproc)"@ + shell_tail(args)),
        BuildSystem::Cargo => shell::script_phase(
            shell::command_line(
                seq![
                    "cargo"@,
                    "build"@,
                    "--release"@,
                    "--target-dir"@,
                    "${DEPO_BUILD_DIR}/cargo-target"@,
                ] + args,
            ),
        ),
        BuildSystem::Manual => Seq::empty(),
    }
}

/// How a build system installs where the DepoFile gives no command.
pub open spec fn default_install(build_system: BuildSystem, args: Seq<Text>) -> Seq<Seq<Text>> {
    match build_system {
        BuildSystem::Cmake => seq![seq!["cmake"@, "--install"@, "${DEPO_BUILD_DIR}"@] + args],
        BuildSystem::Meson => seq![
            seq!["meson"@, "install"@, "-C"@, "${DEPO_BUILD_DIR}"@] + args,
        ],
        BuildSystem::Autoconf => shell::script_phase("make install"@ + shell_tail(args)),
        BuildSystem::Cargo => if args.len() == 0 {
            Seq::empty()
        } else {
            shell::script_phase(
                shell::command_line(
                    seq![
                        "cargo"@,
                        "install"@,
                        "--path"@,
                        "${DEPO_SOURCE_DIR}"@,
                        "--root"@,
                        "${DEPO_PREFIX}"@,
                    ] + args,
                ),
            )
        },
        BuildSystem::Manual => Seq::empty(),
    }
}

fn default_configure_commands(build_system: BuildSystem, args: &Vec<String>) -> (commands: Vec<
    Vec<String>,
>)
    ensures
        commands.deep_view() == default_configure(build_system, args.deep_view()),
{
    match build_system {
        BuildSystem::Cmake => {
            let mut argv = vec![
                "cmake".to_owned(),
                "-S".to_owned(),
                "${DEPO_SOURCE_DIR}".to_owned(),
                "-B".to_owned(),
                "${DEPO_BUILD_DIR}".to_owned(),
                "-G".to_owned(),
                "Ninja".to_owned(),
                "-DCMAKE_BUILD_TYPE=Release".to_owned(),
                "-DCMAKE_INSTALL_PREFIX=${DEPO_PREFIX}".to_owned(),
                "-DCMAKE_INSTALL_LIBDIR=lib".to_owned(),
            ];
            assert(argv.deep_view() == seq![
                "cmake"@,
                "-S"@,
                "${DEPO_SOURCE_DIR}"@,
                "-B"@,
                "${DEPO_BUILD_DIR}"@,
                "-G"@,
                "Ninja"@,
                "-DCMAKE_BUILD_TYPE=Release"@,
                "-DCMAKE_INSTALL_PREFIX=${DEPO_PREFIX}"@,
                "-DCMAKE_INSTALL_LIBDIR=lib"@,
            ]);
            put_all(&mut argv, args);
            single(argv)
        },
        BuildSystem::Meson => {
            let mut argv = vec![
                "meson".to_owned(),
                "setup".to_owned(),
                "${DEPO_BUILD_DIR}".to_owned(),
                "${DEPO_SOURCE_DIR}".to_owned(),
                "--wipe".to_owned(),
                "--buildtype=release".to_owned(),
                "--prefix=${DEPO_PREFIX}".to_owned(),
                "--libdir=lib".to_owned(),
            ];
            assert(argv.deep_view() == seq![
                "meson"@,
                "setup"@,
                "${DEPO_BUILD_DIR}"@,
                "${DEPO_SOURCE_DIR}"@,
                "--wipe"@,
                "--buildtype=release"@,
                "--prefix=${DEPO_PREFIX}"@,
                "--libdir=lib"@,
            ]);
            put_all(&mut argv, args);
            single(argv)
        },
        BuildSystem::Autoconf => shell_phase(
            cat2(
                "./configure --prefix=\"$DEPO_PREFIX\" --libdir=\"$DEPO_PREFIX/lib\"",
                &further_words(args),
            ),
        ),
        BuildSystem::Cargo => no_commands(),
        BuildSystem::Manual => no_commands(),
    }
}

/// A phase that does nothing.
fn no_commands() -> (commands: Vec<Vec<String>>)
    ensures
        commands.deep_view() == Seq::<Seq<Text>>::empty(),
{
    let commands: Vec<Vec<String>> = Vec::new();
    assert(commands.deep_view() == Seq::<Seq<Text>>::empty());
    commands
}

fn default_build_commands(build_system: BuildSystem, args: &Vec<String>) -> (commands: Vec<
    Vec<String>,
>)
    ensures
        commands.deep_view() == default_build(build_system, args.deep_view()),
{
    match build_system {
        BuildSystem::Cmake => {
            let mut argv = vec![
                "cmake".to_owned(),
                "--build".to_owned(),
                "${DEPO_BUILD_DIR}".to_owned(),
                "--parallel".to_owned(),
            ];
            assert(argv.deep_view() == seq![
                "cmake"@,
                "--build"@,
                "${DEPO_BUILD_DIR}"@,
                "--parallel"@,
            ]);
            put_all(&mut argv, args);
            single(argv)
        },
        BuildSystem::Meson => {
            let mut argv = vec![
                "meson".to_owned(),
                "compile".to_owned(),
                "-C".to_owned(),
                "${DEPO_BUILD_DIR}".to_owned(),
            ];
            assert(argv.deep_view() == seq!["meson"@, "compile"@, "-C"@, "${DEPO_BUILD_DIR}"@]);
            put_all(&mut argv, args);
            single(argv)
        },
        BuildSystem::Autoconf => shell_phase(cat2("make -j$(nproc)", &further_words(args))),
        BuildSystem::Cargo => {
            let mut argv = vec![
                "cargo".to_owned(),
                "build".to_owned(),
                "--release".to_owned(),
                "--target-dir".to_owned(),
                "${DEPO_BUILD_DIR}/cargo-target".to_owned(),
            ];
            assert(argv.deep_view() == seq![
                "cargo"@,
                "build"@,
                "--release"@,
                "--target-dir"@,
                "${DEPO_BUILD_DIR}/cargo-target"@,
            ]);
            put_all(&mut argv, args);
            shell_phase(shell_join(&argv))
        },
        BuildSystem::Manual => no_commands(),
    }
}

fn default_install_commands(build_system: BuildSystem, args: &Vec<String>) -> (commands: Vec<
    Vec<String>,
>)
    ensures
        commands.deep_view() == default_install(build_system, args.deep_view()),
{
    match build_system {
        BuildSystem::Cmake => {
            let mut argv = vec![
                "cmake".to_owned(),
                "--install".to_owned(),
                "${DEPO_BUILD_DIR}".to_owned(),
            ];
            assert(argv.deep_view() == seq!["cmake"@, "--install"@, "${DEPO_BUILD_DIR}"@]);
            put_all(&mut argv, args);
            single(argv)
        },
        BuildSystem::Meson => {
            let mut argv = vec![
                "meson".to_owned(),
                "install".to_owned(),
                "-C".to_owned(),
                "${DEPO_BUILD_DIR}".to_owned(),
            ];
            assert(argv.deep_view() == seq!["meson"@, "install"@, "-C"@, "${DEPO_BUILD_DIR}"@]);
            put_all(&mut argv, args);
            single(argv)
        },
        BuildSystem::Autoconf => shell_phase(cat2("make install", &further_words(args))),
        BuildSystem::Cargo => if args.len() == 0 {
            no_commands()
        } else {
            let mut argv = vec![
                "cargo".to_owned(),
                "install".to_owned(),
                "--path".to_owned(),
                "${DEPO_SOURCE_DIR}".to_owned(),
                "--root".to_owned(),
                "${DEPO_PREFIX}".to_owned(),
            ];
            assert(argv.deep_view() == seq![
                "cargo"@,
                "install"@,
                "--path"@,
                "${DEPO_SOURCE_DIR}"@,
                "--root"@,
                "${DEPO_PREFIX}"@,
            ]);
            put_all(&mut argv, args);
            shell_phase(shell_join(&argv))
        },
        BuildSystem::Manual => no_commands(),
    }
}

/// The commands of all three phases.
pub open spec fn commands_for(
    build_system: BuildSystem,
    inputs: CommandInputsView,
) -> CommandsView {
    CommandsView {
        configure: phase_commands(
            inputs.configure_direct,
            inputs.configure_override,
            default_configure(build_system, inputs.configure_args),
        ),
        build: phase_commands(
            inputs.build_direct,
            inputs.build_override,
            default_build(build_system, inputs.build_args),
        ),
        install: phase_commands(
            inputs.install_direct,
            inputs.install_override,
            default_install(build_system, inputs.install_args),
        ),
    }
}

pub fn synthesize_build_system_commands(
    build_system: BuildSystem,
    inputs: BuildSystemCommandInputs,
) -> (commands: BuildSystemCommands)
    requires
        inputs.deep_view().consistent(),
    ensures
        commands.deep_view() == commands_for(build_system, inputs.deep_view()),
{
    let configure = match (inputs.configure_direct, inputs.configure_override) {
        (Some(argv), _) => single(argv),
        (None, Some(script)) => shell_phase(script),
        (None, None) => default_configure_commands(build_system, &inputs.configure_args),
    };
    let build = match (inputs.build_direct, inputs.build_override) {
        (Some(argv), _) => single(argv),
        (None, Some(script)) => shell_phase(script),
        (None, None) => default_build_commands(build_system, &inputs.build_args),
    };
    let install = match (inputs.install_direct, inputs.install_override) {
        (Some(argv), _) => single(argv),
        (None, Some(script)) => shell_phase(script),
        (None, None) => default_install_commands(build_system, &inputs.install_args),
    };
    BuildSystemCommands { configure, build, install }
}

/// The CMake definitions that select the GNU cross tools for `target_arch`.
pub open spec fn cmake_cross_args(target_arch: Text) -> Seq<Text> {
    let prefix = arch::gnu_prefix(target_arch);
    seq![
        "-DCMAKE_SYSTEM_NAME=Linux"@,
        "-DCMAKE_SYSTEM_PROCESSOR="@ + target_arch,
        "-DCMAKE_C_COMPILER="@ + prefix + "-gcc"@,
        "-DCMAKE_CXX_COMPILER="@ + prefix + "-g++"@,
        "-DCMAKE_AR="@ + prefix + "-ar"@,
        "-DCMAKE_RANLIB="@ + prefix + "-ranlib"@,
        "-DCMAKE_STRIP="@ + prefix + "-strip"@,
    ]
}

pub fn default_cmake_cross_configure_args(target_arch: &str) -> (args: Vec<String>)
    requires
        arch::supported_arch(target_arch@),
    ensures
        args.deep_view() == cmake_cross_args(target_arch@),
{
    let prefix = linux_gnu_toolchain_prefix(target_arch);
    let args = vec![
        "-DCMAKE_SYSTEM_NAME=Linux".to_owned(),
        cat2("-DCMAKE_SYSTEM_PROCESSOR=", target_arch),
        cat3("-DCMAKE_C_COMPILER=", prefix, "-gcc"),
        cat3("-DCMAKE_CXX_COMPILER=", prefix, "-g++"),
        cat3("-DCMAKE_AR=", prefix, "-ar"),
        cat3("-DCMAKE_RANLIB=", prefix, "-ranlib"),
        cat3("-DCMAKE_STRIP=", prefix, "-strip"),
    ];
    assert(args.deep_view() == cmake_cross_args(target_arch@));
    args
}

} // verus!
