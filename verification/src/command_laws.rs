//! Which commands a build runs, where, and with what arguments.

use vstd::prelude::*;
use crate::build_laws;
use crate::failure::Messages;
use crate::model::{BuildSystem, PackageSpecView, Text, ToolchainSource};
use crate::paths::HostPlatform;
use crate::pipeline;
use crate::pipeline::CommandPhaseView;
use crate::text;
use crate::text_laws;

verus! {

/// Whether a phase has a name, runs in a directory and runs commands.
pub open spec fn is_phase(
    phase: CommandPhaseView,
    name: Text,
    cwd: Text,
    commands: Seq<Seq<Text>>,
) -> bool {
    phase.name == name && phase.cwd == cwd && phase.commands == commands
}

/// A build configures, builds and installs, in this order, with the commands of the package. All
/// of it runs in the sources where the build system is Autoconf or Cargo; with any other, only
/// what configures does, and the rest runs in the build directory. On Linux an image is prepared
/// first, where there is one and it is run for another host.
pub proof fn lemma_phases_come_in_order(
    platform: HostPlatform,
    spec: PackageSpecView,
    provider_mode: bool,
)
    ensures
        ({
            let phases = pipeline::phases_of(platform, spec, provider_mode);
            let first: int = if platform == HostPlatform::Linux {
                1
            } else {
                0
            };
            let inside = spec.build_system == BuildSystem::Autoconf || spec.build_system
                == BuildSystem::Cargo;
            let later = if inside {
                "/work/source"@
            } else {
                "/work/build"@
            };
            &&& phases.len() == first + 3
            &&& is_phase(phases[first], "CONFIGURE"@, "/work/source"@, spec.configure)
            &&& is_phase(phases[first + 1], "BUILD"@, later, spec.build)
            &&& is_phase(phases[first + 2], "INSTALL"@, later, spec.install)
            &&& first == 1 ==> phases[0].name == "PROVIDER_BOOTSTRAP"@ && phases[0].cwd
                == "/work/source"@
            &&& first == 1 && !(provider_mode && spec.build_root is Oci && spec.toolchain
                == ToolchainSource::Rootfs) ==> phases[0].commands.len() == 0
        }),
{
    reveal_strlit("CONFIGURE");
    reveal_strlit("BUILD");
    reveal_strlit("INSTALL");
    assert("CONFIGURE"@.len() == 9 && "BUILD"@.len() == 5 && "INSTALL"@.len() == 7);
}

/// The outcome of putting a text before another that may be missing.
pub open spec fn put_before(front: Text, rest: Result<Text, Messages>) -> Result<Text, Messages> {
    match rest {
        Ok(rest) => Ok(front + rest),
        Err(messages) => Err(messages),
    }
}

proof fn lemma_interpolated_output(
    value: Text,
    variables: Seq<(Text, Text)>,
    kind: Text,
    from: int,
    output: Text,
)
    requires
        0 <= from <= value.len(),
    ensures
        pipeline::interpolated_from(value, variables, kind, from, output) == put_before(
            output,
            pipeline::interpolated_from(value, variables, kind, from, Seq::empty()),
        ),
    decreases value.len() - from,
{
    let none = Seq::<char>::empty();
    if from >= value.len() {
        assert(output + none =~= output);
    } else if value[from] == '$' && from + 1 < value.len() && value[from + 1] == '{' {
        let end = text::position_of(value, '}', from + 2);
        text_laws::lemma_first_position(value, '}', from + 2);
        if end < value.len() {
            let name = value.subrange(from + 2, end);
            if let Some(found) = text::value_of(variables, name) {
                lemma_interpolated_output(value, variables, kind, end + 1, output + found);
                lemma_interpolated_output(value, variables, kind, end + 1, none + found);
                assert(none + found =~= found);
                if let Ok(rest) = pipeline::interpolated_from(
                    value,
                    variables,
                    kind,
                    end + 1,
                    none,
                ) {
                    assert(output + found + rest =~= output + (found + rest));
                }
            }
        }
    } else {
        let bytes = pipeline::byte_chars(value[from]);
        lemma_interpolated_output(value, variables, kind, from + 1, output + bytes);
        lemma_interpolated_output(value, variables, kind, from + 1, none + bytes);
        assert(none + bytes =~= bytes);
        if let Ok(rest) = pipeline::interpolated_from(value, variables, kind, from + 1, none) {
            assert(output + bytes + rest =~= output + (bytes + rest));
        }
    }
}

proof fn lemma_position_shifts(front: Text, s: Text, c: char, from: int)
    requires
        0 <= from,
    ensures
        text::position_of(front + s, c, front.len() + from) == front.len() + text::position_of(
            s,
            c,
            from,
        ),
    decreases s.len() - from,
{
    if from < s.len() && s[from] != c {
        lemma_position_shifts(front, s, c, from + 1);
    }
}

proof fn lemma_interpolated_shifts(
    front: Text,
    value: Text,
    variables: Seq<(Text, Text)>,
    kind: Text,
    from: int,
    output: Text,
)
    requires
        0 <= from <= value.len(),
    ensures
        pipeline::interpolated_from(front + value, variables, kind, front.len() + from, output)
            == pipeline::interpolated_from(value, variables, kind, from, output),
    decreases value.len() - from,
{
    let all = front + value;
    let at: int = front.len() + from;
    if from < value.len() {
        assert(all[at] == value[from]);
        if from + 1 < value.len() {
            assert(all[at + 1] == value[from + 1]);
        }
        if value[from] == '$' && from + 1 < value.len() && value[from + 1] == '{' {
            lemma_position_shifts(front, value, '}', from + 2);
            text_laws::lemma_first_position(value, '}', from + 2);
            let end = text::position_of(value, '}', from + 2);
            if end < value.len() {
                let name = value.subrange(from + 2, end);
                assert(all.subrange(at + 2, front.len() + end) =~= name);
                if let Some(found) = text::value_of(variables, name) {
                    lemma_interpolated_shifts(
                        front,
                        value,
                        variables,
                        kind,
                        end + 1,
                        output + found,
                    );
                }
            }
        } else {
            lemma_interpolated_shifts(
                front,
                value,
                variables,
                kind,
                from + 1,
                output + pipeline::byte_chars(value[from]),
            );
        }
    }
}

proof fn lemma_plain_front(
    front: Text,
    value: Text,
    variables: Seq<(Text, Text)>,
    kind: Text,
    from: int,
)
    requires
        build_laws::is_plain_argument(front),
        0 <= from <= front.len(),
    ensures
        pipeline::interpolated_from(front + value, variables, kind, from, front.take(from))
            == pipeline::interpolated_from(
            front + value,
            variables,
            kind,
            front.len() as int,
            front,
        ),
    decreases front.len() - from,
{
    if from < front.len() {
        assert((front + value)[from] == front[from]);
        assert(front[from] != '$');
        build_laws::lemma_ascii_bytes(front[from]);
        assert(front.take(from) + seq![front[from]] =~= front.take(from + 1));
        lemma_plain_front(front, value, variables, kind, from + 1);
    } else {
        assert(front.take(from) =~= front);
    }
}

/// A variable between `${` and `}`.
pub open spec fn variable(name: Text) -> Text {
    seq!['$', '{'] + name + seq!['}']
}

/// A variable in an argument is replaced by its value, whatever stands before and behind it; one
/// that is not known is refused.
pub proof fn lemma_variables_are_replaced(
    front: Text,
    name: Text,
    behind: Text,
    variables: Seq<(Text, Text)>,
    kind: Text,
)
    requires
        build_laws::is_plain_argument(front),
        text_laws::lacks(name, '}'),
    ensures
        text::value_of(variables, name) matches Some(value) ==> pipeline::interpolated(
            front + (variable(name) + behind),
            variables,
            kind,
        ) == put_before(front + value, pipeline::interpolated(behind, variables, kind)),
        text::value_of(variables, name) is None ==> pipeline::interpolated(
            front + (variable(name) + behind),
            variables,
            kind,
        ) is Err,
{
    let none = Seq::<char>::empty();
    let rest = variable(name) + behind;
    let all = front + rest;
    let end: int = 2 + name.len() as int;
    assert(front.take(0) =~= none);
    lemma_plain_front(front, rest, variables, kind, 0);
    lemma_interpolated_shifts(front, rest, variables, kind, 0, front);
    assert(rest[0] == '$' && rest[1] == '{');
    assert(rest[end] == '}');
    text_laws::lemma_first_position(rest, '}', 2);
    let found = text::position_of(rest, '}', 2);
    if found < end {
        assert(rest[found] == name[found - 2]);
    }
    assert(found == end) by {
        if found > end {
            assert(rest[end] != '}');
        }
    }
    assert(rest.subrange(2, end) =~= name);
    if let Some(value) = text::value_of(variables, name) {
        let head = variable(name);
        assert(end + 1 == head.len());
        lemma_interpolated_shifts(head, behind, variables, kind, 0, front + value);
        lemma_interpolated_output(behind, variables, kind, 0, front + value);
    }
}

/// Whether a command hands a script to a shell.
pub open spec fn is_shell_script(command: Seq<Text>) -> bool {
    command.len() == 4 && command[0] == "sh"@ && command[1] == "-eu"@ && command[2] == "-c"@
}

/// Whether an argument is what becomes of a word of a command: its variables are replaced, and,
/// unless a shell does it, its substitutions made.
pub open spec fn becomes(
    command: Seq<Text>,
    word: Text,
    argument: Text,
    variables: Seq<(Text, Text)>,
    processors: Text,
) -> bool {
    let replaced = pipeline::interpolated(word, variables, "DepoFile command variable"@);
    &&& replaced is Ok
    &&& is_shell_script(command) ==> argument == replaced->Ok_0
    &&& !is_shell_script(command) ==> pipeline::expanded(replaced->Ok_0, processors) == Ok::<
        Text,
        Messages,
    >(argument)
}

proof fn lemma_arguments(
    command: Seq<Text>,
    variables: Seq<(Text, Text)>,
    processors: Text,
    from: int,
    done: Seq<Text>,
    result: Seq<Text>,
)
    requires
        0 <= from == done.len() <= command.len(),
        forall|i: int|
            0 <= i < from ==> becomes(command, command[i], #[trigger] done[i], variables, processors),
        pipeline::arguments_from(command, variables, processors, from, done) == Ok::<
            Seq<Text>,
            Messages,
        >(result),
    ensures
        result.len() == command.len(),
        forall|i: int|
            0 <= i < command.len() ==> becomes(
                command,
                command[i],
                #[trigger] result[i],
                variables,
                processors,
            ),
    decreases command.len() - from,
{
    if from < command.len() {
        let replaced = pipeline::interpolated(
            command[from],
            variables,
            "DepoFile command variable"@,
        )->Ok_0;
        let argument = pipeline::finished_argument(
            pipeline::is_script(command),
            replaced,
            processors,
        )->Ok_0;
        let next = done.push(argument);
        assert forall|i: int| 0 <= i < from + 1 implies becomes(
            command,
            command[i],
            #[trigger] next[i],
            variables,
            processors,
        ) by {
            if i < from {
                assert(next[i] == done[i]);
            }
        }
        lemma_arguments(command, variables, processors, from + 1, next, result);
    }
}

/// A command is run with one argument for each of its words, in order; an empty one is refused.
pub proof fn lemma_commands_are_run_word_by_word(
    phase: Text,
    command: Seq<Text>,
    variables: Seq<(Text, Text)>,
    processors: Text,
)
    ensures
        command.len() == 0 ==> pipeline::phase_arguments(phase, command, variables, processors)
            is Err,
        pipeline::phase_arguments(phase, command, variables, processors) matches Ok(arguments)
            ==> arguments.len() == command.len() && forall|i: int|
            0 <= i < command.len() ==> becomes(
                command,
                command[i],
                #[trigger] arguments[i],
                variables,
                processors,
            ),
{
    if let Ok(arguments) = pipeline::phase_arguments(phase, command, variables, processors) {
        lemma_arguments(command, variables, processors, 0, Seq::empty(), arguments);
    }
}

proof fn lemma_substitution_at(s: Text, from: int, at: int)
    requires
        0 <= from <= at < s.len() - 1,
        s[at] == '$' && s[at + 1] == '(',
        forall|i: int| from <= i < at ==> #[trigger] s[i] != '$',
    ensures
        pipeline::substitution_at(s, from) == at,
    decreases at - from,
{
    if from < at {
        lemma_substitution_at(s, from + 1, at);
    }
}

proof fn lemma_substitution_shifts(front: Text, s: Text, from: int)
    requires
        0 <= from,
    ensures
        pipeline::substitution_at(front + s, front.len() + from) == front.len()
            + pipeline::substitution_at(s, from),
    decreases s.len() - from,
{
    if from < s.len() {
        assert((front + s)[front.len() + from] == s[from]);
        if from + 1 < s.len() {
            assert((front + s)[front.len() + from + 1] == s[from + 1]);
        }
        if !(s[from] == '$' && from + 1 < s.len() && s[from + 1] == '(') {
            lemma_substitution_shifts(front, s, from + 1);
        }
    }
}

/// Whether two outcomes are the same text or both refused.
pub open spec fn agree(left: Result<Text, Messages>, right: Result<Text, Messages>) -> bool {
    (left is Ok <==> right is Ok) && (left is Ok ==> left->Ok_0 == right->Ok_0)
}

proof fn lemma_expanded_shifts(
    front: Text,
    value: Text,
    processors: Text,
    from: int,
    output: Text,
)
    requires
        0 <= from <= value.len(),
    ensures
        agree(
            pipeline::expanded_from(front + value, processors, front.len() + from, output),
            put_before(
                output,
                pipeline::expanded_from(value, processors, from, Seq::empty()),
            ),
        ),
    decreases value.len() - from,
{
    let none = Seq::<char>::empty();
    let all = front + value;
    let at: int = front.len() + from;
    lemma_substitution_shifts(front, value, from);
    let start = pipeline::substitution_at(value, from);
    pipeline::lemma_substitution_behind(value, from);
    pipeline::lemma_substitution_behind(all, at);
    if start >= value.len() {
        assert(all.subrange(at, all.len() as int) =~= value.subrange(from, value.len() as int));
        assert(none + value.subrange(from, value.len() as int) =~= value.subrange(
            from,
            value.len() as int,
        ));
    } else {
        lemma_position_shifts(front, value, ')', start + 2);
        text_laws::lemma_first_position(value, ')', start + 2);
        let end = text::position_of(value, ')', start + 2);
        if end < value.len() {
            let name = value.subrange(start + 2, end);
            assert(all.subrange(front.len() + start + 2, front.len() + end) =~= name);
            if name == "nproc"@ {
                let piece = value.subrange(from, start);
                assert(all.subrange(at, front.len() + start) =~= piece);
                lemma_expanded_shifts(
                    front,
                    value,
                    processors,
                    end + 1,
                    output + piece + processors,
                );
                lemma_expanded_shifts(
                    Seq::empty(),
                    value,
                    processors,
                    end + 1,
                    none + piece + processors,
                );
                assert(none + value =~= value);
                if let Ok(rest) = pipeline::expanded_from(value, processors, end + 1, none) {
                    assert(output + piece + processors + rest =~= output + (none + piece
                        + processors + rest));
                }
            }
        }
    }
}

/// `$(nproc)` in an argument stands for the number of processors, and no other substitution is
/// known.
pub proof fn lemma_processors_are_counted(front: Text, name: Text, behind: Text, processors: Text)
    requires
        text_laws::lacks(front, '$'),
        text_laws::lacks(name, ')'),
    ensures
        ({
            let value = front + (seq!['$', '('] + name + seq![')'] + behind);
            let result = pipeline::expanded(value, processors);
            &&& name == "nproc"@ ==> agree(
                result,
                put_before(front + processors, pipeline::expanded(behind, processors)),
            )
            &&& name != "nproc"@ ==> result is Err
        }),
{
    let head = front + (seq!['$', '('] + name + seq![')']);
    let value = front + (seq!['$', '('] + name + seq![')'] + behind);
    let start = front.len() as int;
    let end: int = start + 2 + name.len();
    assert(value =~= head + behind);
    assert(value[start] == '$' && value[start + 1] == '(');
    assert forall|i: int| 0 <= i < start implies #[trigger] value[i] != '$' by {
        assert(value[i] == front[i]);
    }
    lemma_substitution_at(value, 0, start);
    text_laws::lemma_first_position(value, ')', start + 2);
    let found = text::position_of(value, ')', start + 2);
    assert(value[end] == ')');
    if found < end {
        assert(value[found] == name[found - start - 2]);
    }
    assert(found == end) by {
        if found > end {
            assert(value[end] != ')');
        }
    }
    assert(value.subrange(start + 2, end) =~= name);
    if name == "nproc"@ {
        let none = Seq::<char>::empty();
        assert(none + value.subrange(0, start) + processors =~= front + processors);
        assert(head.len() == end + 1);
        lemma_expanded_shifts(head, behind, processors, 0, front + processors);
    }
}

} // verus!
