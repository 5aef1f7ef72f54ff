//! What the phases of a build run, word by word, and how a shell reads it.

use vstd::prelude::*;
use crate::build_system;
use crate::build_system::CommandInputsView;
use crate::model::{BuildSystem, Text};
use crate::shell;
use crate::text;

verus! {

/// A character that a POSIX shell may treat as more than itself outside quotation marks.
pub open spec fn is_special(c: char) -> bool {
    ||| c == ' ' || c == '\t' || c == '\n' || c == '\r'
    ||| c == '\'' || c == '"' || c == '\\' || c == '`' || c == '$'
    ||| c == '|' || c == '&' || c == ';' || c == '<' || c == '>' || c == '(' || c == ')'
    ||| c == '*' || c == '?' || c == '[' || c == ']' || c == '#' || c == '~' || c == '!'
    ||| c == '{' || c == '}' || c == '^'
}

/// Where a shell stands in its input.
pub enum Quotation {
    Outside,
    Single,
    Double,
}

/// The words that a POSIX shell reads from a line, from a position on, put behind `done`; none
/// where the line holds more than quoted and plain words with spaces between them. `begun` tells
/// whether a word is begun, and `word` is what it holds so far.
pub open spec fn words_from(
    line: Text,
    from: int,
    quotation: Quotation,
    begun: bool,
    word: Text,
    done: Seq<Text>,
) -> Option<Seq<Text>>
    decreases line.len() - from,
{
    if from >= line.len() {
        match quotation {
            Quotation::Outside => Some(
                if begun {
                    done.push(word)
                } else {
                    done
                },
            ),
            _ => None,
        }
    } else {
        let c = line[from];
        match quotation {
            Quotation::Outside => if c == ' ' {
                words_from(
                    line,
                    from + 1,
                    Quotation::Outside,
                    false,
                    Seq::empty(),
                    if begun {
                        done.push(word)
                    } else {
                        done
                    },
                )
            } else if c == '\'' {
                words_from(line, from + 1, Quotation::Single, true, word, done)
            } else if c == '"' {
                words_from(line, from + 1, Quotation::Double, true, word, done)
            } else if is_special(c) {
                None
            } else {
                words_from(line, from + 1, Quotation::Outside, true, word.push(c), done)
            },
            Quotation::Single => if c == '\'' {
                words_from(line, from + 1, Quotation::Outside, true, word, done)
            } else {
                words_from(line, from + 1, Quotation::Single, true, word.push(c), done)
            },
            Quotation::Double => if c == '"' {
                words_from(line, from + 1, Quotation::Outside, true, word, done)
            } else if c == '$' || c == '`' || c == '\\' {
                None
            } else {
                words_from(line, from + 1, Quotation::Double, true, word.push(c), done)
            },
        }
    }
}

/// The words that a POSIX shell reads from a line.
pub open spec fn shell_words(line: Text) -> Option<Seq<Text>> {
    words_from(line, 0, Quotation::Outside, false, Seq::empty(), Seq::empty())
}

proof fn lemma_plain_is_read(line: Text, from: int, to: int, word: Text, begun: bool, done: Seq<Text>)
    requires
        0 <= from <= to <= line.len(),
        forall|i: int| from <= i < to ==> shell::is_plain(#[trigger] line[i]),
        from == to ==> begun,
    ensures
        words_from(line, from, Quotation::Outside, begun, word, done) == words_from(
            line,
            to,
            Quotation::Outside,
            true,
            word + line.subrange(from, to),
            done,
        ),
    decreases to - from,
{
    if from < to {
        lemma_plain_is_read(line, from + 1, to, word.push(line[from]), true, done);
        assert(word.push(line[from]) + line.subrange(from + 1, to) == word + line.subrange(
            from,
            to,
        ));
    } else {
        assert(word + line.subrange(from, to) == word);
    }
}

/// What replaces a single quotation mark between single quotation marks.
spec fn mark() -> Text {
    seq!['\'', '"', '\'', '"', '\'']
}

proof fn lemma_replaced_split(value: Text, with: Text, count: int)
    requires
        0 <= count < value.len(),
    ensures
        text::replaced(value.take(count + 1), '\'', with) == text::replaced(
            value.take(count),
            '\'',
            with,
        ) + if value[count] == '\'' {
            with
        } else {
            seq![value[count]]
        },
{
    assert(value.take(count + 1).drop_last() == value.take(count));
    assert(value.take(count + 1).last() == value[count]);
    let before = text::replaced(value.take(count), '\'', with);
    assert(before.push(value[count]) == before + seq![value[count]]);
}

proof fn lemma_replaced_is_prefix(value: Text, with: Text, count: int)
    requires
        0 <= count <= value.len(),
    ensures
        text::replaced(value.take(count), '\'', with).len() <= text::replaced(
            value,
            '\'',
            with,
        ).len(),
        text::replaced(value, '\'', with).take(
            text::replaced(value.take(count), '\'', with).len() as int,
        ) == text::replaced(value.take(count), '\'', with),
    decreases value.len() - count,
{
    let whole = text::replaced(value, '\'', with);
    if count == value.len() {
        assert(value.take(count) == value);
        assert(whole.take(whole.len() as int) == whole);
    } else {
        lemma_replaced_is_prefix(value, with, count + 1);
        lemma_replaced_split(value, with, count);
        let shorter = text::replaced(value.take(count), '\'', with);
        let longer = text::replaced(value.take(count + 1), '\'', with);
        assert(whole.take(shorter.len() as int) == whole.take(longer.len() as int).take(
            shorter.len() as int,
        ));
        assert(longer.take(shorter.len() as int) == shorter);
    }
}

/// What stands between single quotation marks is read as it was before the marks in it were
/// replaced.
proof fn lemma_quoted_is_read(line: Text, at: int, value: Text, count: int, word: Text, done: Seq<Text>)
    requires
        0 <= at,
        at + text::replaced(value, '\'', mark()).len() <= line.len(),
        line.subrange(at, at + text::replaced(value, '\'', mark()).len()) == text::replaced(
            value,
            '\'',
            mark(),
        ),
        0 <= count <= value.len(),
    ensures
        words_from(
            line,
            at + text::replaced(value.take(count), '\'', mark()).len(),
            Quotation::Single,
            true,
            word + value.take(count),
            done,
        ) == words_from(
            line,
            at + text::replaced(value, '\'', mark()).len(),
            Quotation::Single,
            true,
            word + value,
            done,
        ),
    decreases value.len() - count,
{
    let whole = text::replaced(value, '\'', mark());
    if count == value.len() {
        assert(value.take(count) == value);
    } else {
        lemma_quoted_is_read(line, at, value, count + 1, word, done);
        lemma_replaced_split(value, mark(), count);
        lemma_replaced_is_prefix(value, mark(), count + 1);
        let shorter = text::replaced(value.take(count), '\'', mark());
        let longer = text::replaced(value.take(count + 1), '\'', mark());
        let from = at + shorter.len();
        let c = value[count];
        assert forall|k: int| 0 <= k < longer.len() implies #[trigger] longer[k] == line[at + k] by {
            assert(whole.take(longer.len() as int)[k] == whole[k]);
            assert(line.subrange(at, at + whole.len())[k] == line[at + k]);
        }
        assert(word + value.take(count + 1) == (word + value.take(count)).push(c));
        let known = word + value.take(count);
        if c == '\'' {
            assert(longer == shorter + mark());
            assert(longer[shorter.len() as int] == '\'');
            assert(longer[shorter.len() as int + 1] == '"');
            assert(longer[shorter.len() as int + 2] == '\'');
            assert(longer[shorter.len() as int + 3] == '"');
            assert(longer[shorter.len() as int + 4] == '\'');
            assert(line[from] == '\'' && line[from + 1] == '"' && line[from + 2] == '\''
                && line[from + 3] == '"' && line[from + 4] == '\'');
            assert(words_from(line, from, Quotation::Single, true, known, done) == words_from(
                line,
                from + 1,
                Quotation::Outside,
                true,
                known,
                done,
            ));
            assert(words_from(line, from + 1, Quotation::Outside, true, known, done) == words_from(
                line,
                from + 2,
                Quotation::Double,
                true,
                known,
                done,
            ));
            assert(words_from(line, from + 2, Quotation::Double, true, known, done) == words_from(
                line,
                from + 3,
                Quotation::Double,
                true,
                known.push(c),
                done,
            ));
            assert(words_from(line, from + 3, Quotation::Double, true, known.push(c), done)
                == words_from(line, from + 4, Quotation::Outside, true, known.push(c), done));
            assert(words_from(line, from + 4, Quotation::Outside, true, known.push(c), done)
                == words_from(line, from + 5, Quotation::Single, true, known.push(c), done));
        } else {
            assert(longer[shorter.len() as int] == c);
            assert(line[from] == c);
        }
    }
}

/// One word, quoted, is read as a whole.
proof fn lemma_word_is_read(line: Text, at: int, value: Text, done: Seq<Text>)
    requires
        0 <= at,
        at + shell::quoted(value).len() <= line.len(),
        line.subrange(at, at + shell::quoted(value).len()) == shell::quoted(value),
    ensures
        words_from(line, at, Quotation::Outside, false, Seq::empty(), done) == words_from(
            line,
            at + shell::quoted(value).len(),
            Quotation::Outside,
            true,
            value,
            done,
        ),
{
    let quoted = shell::quoted(value);
    assert forall|k: int| 0 <= k < quoted.len() implies #[trigger] quoted[k] == line[at + k] by {
        assert(line.subrange(at, at + quoted.len())[k] == line[at + k]);
    }
    reveal_strlit("''");
    reveal_strlit("'");
    reveal_strlit("'\"'\"'");
    assert("'\"'\"'"@ == mark());
    let none = Seq::<char>::empty();
    if value.len() == 0 {
        assert(value == none);
        assert(quoted[0] == '\'' && quoted[1] == '\'');
        assert(words_from(line, at, Quotation::Outside, false, none, done) == words_from(
            line,
            at + 1,
            Quotation::Single,
            true,
            none,
            done,
        ));
    } else if shell::is_plain_word(value) {
        assert forall|i: int| at <= i < at + quoted.len() implies shell::is_plain(
            #[trigger] line[i],
        ) by {
            assert(quoted[i - at] == line[i]);
            assert(shell::is_plain(value[i - at]));
        }
        lemma_plain_is_read(line, at, at + quoted.len() as int, none, false, done);
        assert(none + value == value);
    } else {
        let inner = text::replaced(value, '\'', mark());
        assert(quoted == "'"@ + inner + "'"@);
        assert(quoted[0] == '\'');
        assert(quoted[quoted.len() - 1] == '\'');
        assert(line[at] == '\'');
        let end = at + 1 + inner.len();
        assert(line[end as int] == '\'') by {
            assert(quoted[1 + inner.len() as int] == '\'');
        }
        assert(line.subrange(at + 1, end as int) == inner) by {
            assert forall|k: int| 0 <= k < inner.len() implies line[at + 1 + k]
                == #[trigger] inner[k] by {
                assert(quoted[1 + k] == inner[k]);
            }
        }
        lemma_quoted_is_read(line, at + 1, value, 0, none, done);
        assert(value.take(0) == none);
        assert(text::replaced(value.take(0), '\'', mark()) == none);
        assert(none + none == none);
        assert(none + value == value);
    }
}

proof fn lemma_line_is_read(values: Seq<Text>, count: int)
    requires
        0 < count <= values.len(),
    ensures
        ({
            let line = shell::command_line(values);
            let part = shell::command_line(values.take(count));
            &&& part.len() <= line.len()
            &&& line.take(part.len() as int) == part
            &&& shell_words(line) == words_from(
                line,
                part.len() as int,
                Quotation::Outside,
                true,
                values[count - 1],
                values.take(count - 1),
            )
        }),
    decreases count,
{
    let line = shell::command_line(values);
    let part = shell::command_line(values.take(count));
    lemma_line_prefix(values, count);
    let word = shell::quoted(values[count - 1]);
    reveal_strlit(" ");
    assert forall|k: int| 0 <= k < part.len() implies #[trigger] part[k] == line[k] by {
        assert(line.take(part.len() as int)[k] == line[k]);
    }
    if count == 1 {
        let all = shell::quoted_all(values.take(1));
        assert(all[0] == word);
        assert(part == word);
        assert(line.subrange(0, word.len() as int) == word);
        assert(values.take(0) == Seq::<Text>::empty());
        lemma_word_is_read(line, 0, values[0], Seq::empty());
    } else {
        lemma_line_is_read(values, count - 1);
        let before = shell::command_line(values.take(count - 1));
        lemma_line_step(values, count);
        assert(part == before + " "@ + word);
        let at = before.len() as int;
        assert(part[at] == ' ');
        assert(line[at] == ' ');
        assert(values.take(count - 2).push(values[count - 2]) == values.take(count - 1));
        assert(line.subrange(at + 1, at + 1 + word.len()) == word) by {
            assert forall|k: int| 0 <= k < word.len() implies line[at + 1 + k]
                == #[trigger] word[k] by {
                assert(part[at + 1 + k] == word[k]);
            }
        }
        lemma_word_is_read(line, at + 1, values[count - 1], values.take(count - 1));
    }
}

proof fn lemma_line_step(values: Seq<Text>, count: int)
    requires
        1 < count <= values.len(),
    ensures
        shell::command_line(values.take(count)) == shell::command_line(values.take(count - 1))
            + " "@ + shell::quoted(values[count - 1]),
{
    let all = shell::quoted_all(values.take(count));
    assert(all.drop_last() == shell::quoted_all(values.take(count - 1)));
    assert(all.last() == shell::quoted(values[count - 1]));
}

proof fn lemma_line_prefix(values: Seq<Text>, count: int)
    requires
        0 < count <= values.len(),
    ensures
        shell::command_line(values.take(count)).len() <= shell::command_line(values).len(),
        shell::command_line(values).take(shell::command_line(values.take(count)).len() as int)
            == shell::command_line(values.take(count)),
    decreases values.len() - count,
{
    let line = shell::command_line(values);
    if count == values.len() {
        assert(values.take(count) == values);
        assert(line.take(line.len() as int) == line);
    } else {
        lemma_line_prefix(values, count + 1);
        lemma_line_step(values, count + 1);
        let longer = shell::command_line(values.take(count + 1));
        let part = shell::command_line(values.take(count));
        assert(line.take(part.len() as int) == line.take(longer.len() as int).take(
            part.len() as int,
        ));
        assert(longer.take(part.len() as int) == part);
    }
}

/// A shell reads the words of a command line as they were given, whatever characters they hold.
pub proof fn lemma_shells_read_the_words(values: Seq<Text>)
    ensures
        shell_words(shell::command_line(values)) == Some(values),
{
    if values.len() == 0 {
        assert(shell::quoted_all(values).len() == 0);
        assert(values == Seq::<Text>::empty());
    } else {
        let count = values.len() as int;
        lemma_line_is_read(values, count);
        assert(values.take(count) == values);
        assert(values.take(count - 1).push(values[count - 1]) == values);
    }
}

/// Whether a phase runs a script in a shell that stops at errors and at unset variables.
pub open spec fn runs_script(commands: Seq<Seq<Text>>, script: Text) -> bool {
    commands == seq![seq!["sh"@, "-eu"@, "-c"@, script]]
}

/// Whether a phase has a shell run a command with these words behind it.
pub open spec fn runs_line(commands: Seq<Seq<Text>>, start: Text, args: Seq<Text>) -> bool {
    if args.len() == 0 {
        runs_script(commands, start)
    } else {
        exists|tail: Text| #[trigger]
            shell_words(tail) == Some(args) && runs_script(commands, start + " "@ + tail)
    }
}

/// Whether a phase has a shell run exactly these words.
pub open spec fn runs_words(commands: Seq<Seq<Text>>, words: Seq<Text>) -> bool {
    exists|line: Text| #[trigger] shell_words(line) == Some(words) && runs_script(commands, line)
}

proof fn lemma_tail_is_read(commands: Seq<Seq<Text>>, start: Text, args: Seq<Text>)
    requires
        commands == shell::script_phase(start + build_system::shell_tail(args)),
    ensures
        runs_line(commands, start, args),
{
    reveal_strlit("");
    if args.len() == 0 {
        assert(start + ""@ == start);
    } else {
        let tail = shell::command_line(args);
        lemma_shells_read_the_words(args);
        assert(start + (" "@ + tail) == start + " "@ + tail);
        assert(shell_words(tail) == Some(args));
    }
}

/// Where a DepoFile gives no command for it, CMake is configured with Ninja for a release below
/// the prefix, then builds and installs the build directory, each with the arguments given for
/// that phase behind it.
pub proof fn lemma_cmake_phases(inputs: CommandInputsView)
    ensures
        ({
            let commands = build_system::commands_for(BuildSystem::Cmake, inputs);
            &&& inputs.configure_direct is None && inputs.configure_override is None
                ==> commands.configure == seq![
                seq![
                    "cmake"@,
                    "-S"@,
                    "${DEPO_SOURCE_DIR}"@,
                    "-B"@,
                    "${DEPO_BUILD_DIR}"@,
                    "-G"@,
                    "Ninja"@,
                    "-DCMAKE_BUILD_TYPE=Release"@,
                    "-DCMAKE_INSTALL_PREFIX=${DEPO_PREFIX}"@,
                    "-DCMAKE_INSTALL_LIBDIR=lib"@,
                ] + inputs.configure_args,
            ]
            &&& inputs.build_direct is None && inputs.build_override is None ==> commands.build
                == seq![
                seq!["cmake"@, "--build"@, "${DEPO_BUILD_DIR}"@, "--parallel"@]
                    + inputs.build_args,
            ]
            &&& inputs.install_direct is None && inputs.install_override is None
                ==> commands.install == seq![
                seq!["cmake"@, "--install"@, "${DEPO_BUILD_DIR}"@] + inputs.install_args,
            ]
        }),
{
}

/// Where a DepoFile gives no command for it, Meson is set up for a release below the prefix, then
/// compiles and installs the build directory.
pub proof fn lemma_meson_phases(inputs: CommandInputsView)
    ensures
        ({
            let commands = build_system::commands_for(BuildSystem::Meson, inputs);
            &&& inputs.configure_direct is None && inputs.configure_override is None
                ==> commands.configure == seq![
                seq![
                    "meson"@,
                    "setup"@,
                    "${DEPO_BUILD_DIR}"@,
                    "${DEPO_SOURCE_DIR}"@,
                    "--wipe"@,
                    "--buildtype=release"@,
                    "--prefix=${DEPO_PREFIX}"@,
                    "--libdir=lib"@,
                ] + inputs.configure_args,
            ]
            &&& inputs.build_direct is None && inputs.build_override is None ==> commands.build
                == seq![
                seq!["meson"@, "compile"@, "-C"@, "${DEPO_BUILD_DIR}"@] + inputs.build_args,
            ]
            &&& inputs.install_direct is None && inputs.install_override is None
                ==> commands.install == seq![
                seq!["meson"@, "install"@, "-C"@, "${DEPO_BUILD_DIR}"@] + inputs.install_args,
            ]
        }),
{
}

/// Where a DepoFile gives no command for it, Autoconf runs `./configure` for the prefix, then
/// `make` with a job for each processor, then `make install`, and the arguments given for a
/// phase reach the command as they are.
pub proof fn lemma_autoconf_phases(inputs: CommandInputsView)
    ensures
        ({
            let commands = build_system::commands_for(BuildSystem::Autoconf, inputs);
            &&& inputs.configure_direct is None && inputs.configure_override is None ==> runs_line(
                commands.configure,
                "./configure --prefix=\"$DEPO_PREFIX\" --libdir=\"$DEPO_PREFIX/lib\""@,
                inputs.configure_args,
            )
            &&& inputs.build_direct is None && inputs.build_override is None ==> runs_line(
                commands.build,
                "make -j$(nproc)"@,
                inputs.build_args,
            )
            &&& inputs.install_direct is None && inputs.install_override is None ==> runs_line(
                commands.install,
                "make install"@,
                inputs.install_args,
            )
        }),
{
    let commands = build_system::commands_for(BuildSystem::Autoconf, inputs);
    if inputs.configure_direct is None && inputs.configure_override is None {
        lemma_tail_is_read(
            commands.configure,
            "./configure --prefix=\"$DEPO_PREFIX\" --libdir=\"$DEPO_PREFIX/lib\""@,
            inputs.configure_args,
        );
    }
    if inputs.build_direct is None && inputs.build_override is None {
        lemma_tail_is_read(commands.build, "make -j$(nproc)"@, inputs.build_args);
    }
    if inputs.install_direct is None && inputs.install_override is None {
        lemma_tail_is_read(commands.install, "make install"@, inputs.install_args);
    }
}

/// Where a DepoFile gives no command for it, Cargo has nothing to configure, builds a release in
/// the build directory, and installs the sources into the prefix if and only if arguments are
/// given for that.
pub proof fn lemma_cargo_phases(inputs: CommandInputsView)
    ensures
        ({
            let commands = build_system::commands_for(BuildSystem::Cargo, inputs);
            &&& inputs.configure_direct is None && inputs.configure_override is None
                ==> commands.configure.len() == 0
            &&& inputs.build_direct is None && inputs.build_override is None ==> runs_words(
                commands.build,
                seq![
                    "cargo"@,
                    "build"@,
                    "--release"@,
                    "--target-dir"@,
                    "${DEPO_BUILD_DIR}/cargo-target"@,
                ] + inputs.build_args,
            )
            &&& inputs.install_direct is None && inputs.install_override is None ==> (
            if inputs.install_args.len() == 0 {
                commands.install.len() == 0
            } else {
                runs_words(
                    commands.install,
                    seq![
                        "cargo"@,
                        "install"@,
                        "--path"@,
                        "${DEPO_SOURCE_DIR}"@,
                        "--root"@,
                        "${DEPO_PREFIX}"@,
                    ] + inputs.install_args,
                )
            })
        }),
{
    let commands = build_system::commands_for(BuildSystem::Cargo, inputs);
    let building = seq![
        "cargo"@,
        "build"@,
        "--release"@,
        "--target-dir"@,
        "${DEPO_BUILD_DIR}/cargo-target"@,
    ] + inputs.build_args;
    let installing = seq![
        "cargo"@,
        "install"@,
        "--path"@,
        "${DEPO_SOURCE_DIR}"@,
        "--root"@,
        "${DEPO_PREFIX}"@,
    ] + inputs.install_args;
    lemma_shells_read_the_words(building);
    lemma_shells_read_the_words(installing);
    assert(shell_words(shell::command_line(building)) == Some(building));
    assert(shell_words(shell::command_line(installing)) == Some(installing));
}

/// Without a build system of its own a package runs in each phase what its DepoFile gives, and
/// nothing else. Under any build system a command that is given takes the place of the default,
/// and so does a script, which a shell runs up to the first error.
pub proof fn lemma_given_phases(system: BuildSystem, inputs: CommandInputsView)
    ensures
        ({
            let commands = build_system::commands_for(system, inputs);
            &&& inputs.configure_direct matches Some(command) ==> commands.configure
                == seq![command]
            &&& inputs.build_direct matches Some(command) ==> commands.build == seq![command]
            &&& inputs.install_direct matches Some(command) ==> commands.install == seq![command]
            &&& inputs.configure_direct is None && inputs.configure_override is Some
                ==> runs_script(commands.configure, inputs.configure_override->Some_0)
            &&& inputs.build_direct is None && inputs.build_override is Some
                ==> runs_script(commands.build, inputs.build_override->Some_0)
            &&& inputs.install_direct is None && inputs.install_override is Some
                ==> runs_script(commands.install, inputs.install_override->Some_0)
            &&& system == BuildSystem::Manual && inputs.configure_direct is None
                && inputs.configure_override is None ==> commands.configure.len() == 0
            &&& system == BuildSystem::Manual && inputs.build_direct is None
                && inputs.build_override is None ==> commands.build.len() == 0
            &&& system == BuildSystem::Manual && inputs.install_direct is None
                && inputs.install_override is None ==> commands.install.len() == 0
        }),
{
}

} // verus!
