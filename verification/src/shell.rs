//! Words quoted for a POSIX shell.

use vstd::prelude::*;
use crate::model::Text;
use crate::names;
use crate::names::alphanumeric;
use crate::text;
use crate::text::{cat3, chars_of, join, put, replace};

verus! {

/// A character that needs no quoting.
pub open spec fn is_plain(c: char) -> bool {
    names::is_alphanumeric(c) || c == '/' || c == '.' || c == '_' || c == '-' || c == ':'
        || c == '=' || c == '+' || c == '@' || c == '%'
}

/// Decides whether `c` needs no quoting.
pub fn plain(c: char) -> (yes: bool)
    ensures
        yes == is_plain(c),
{
    alphanumeric(c) || c == '/' || c == '.' || c == '_' || c == '-' || c == ':' || c == '='
        || c == '+' || c == '@' || c == '%'
}

/// Whether a shell takes the whole text as one literal word without quotes.
pub open spec fn is_plain_word(value: Text) -> bool {
    value.len() > 0 && forall|i: int| 0 <= i < value.len() ==> is_plain(#[trigger] value[i])
}

/// A word that a POSIX shell reads back as `value`.
pub open spec fn quoted(value: Text) -> Text {
    if value.len() == 0 {
        "''"@
    } else if is_plain_word(value) {
        value
    } else {
        "'"@ + text::replaced(value, '\'', "'\"'\"'"@) + "'"@
    }
}

pub fn shell_quote(value: &str) -> (word: String)
    ensures
        word@ == quoted(value@),
{
    if value.is_empty() {
        return "''".to_owned();
    }
    let chars = chars_of(value);
    let mut index: usize = 0;
    while index < chars.len() && plain(chars[index])
        invariant
            chars@ == value@,
            index <= chars.len(),
            forall|i: int| 0 <= i < index ==> is_plain(#[trigger] value@[i]),
        decreases chars.len() - index,
    {
        index = index + 1;
    }
    if index == chars.len() {
        return value.to_owned();
    }
    assert(!is_plain(value@[index as int]));
    cat3("'", &replace(value, '\'', "'\"'\"'"), "'")
}

/// The quoted words of `values`.
pub open spec fn quoted_all(values: Seq<Text>) -> Seq<Text> {
    values.map_values(|value: Text| quoted(value))
}

/// `values` as words of one command line.
pub open spec fn command_line(values: Seq<Text>) -> Text {
    text::joined(quoted_all(values), " "@)
}

pub fn shell_join(values: &Vec<String>) -> (line: String)
    ensures
        line@ == command_line(values.deep_view()),
{
    let mut words: Vec<String> = Vec::new();
    let mut index: usize = 0;
    while index < values.len()
        invariant
            index <= values.len(),
            words.deep_view() == quoted_all(values.deep_view().take(index as int)),
        decreases values.len() - index,
    {
        put(&mut words, shell_quote(&values[index]));
        index = index + 1;
        assert(words.deep_view() == quoted_all(values.deep_view().take(index as int)));
    }
    assert(values.deep_view().take(index as int) == values.deep_view());
    join(&words, " ")
}

/// The commands of a phase that runs `script` in a shell that stops at the first error.
pub open spec fn script_phase(script: Text) -> Seq<Seq<Text>> {
    seq![seq!["sh"@, "-eu"@, "-c"@, script]]
}

pub fn shell_phase(script: String) -> (commands: Vec<Vec<String>>)
    ensures
        commands.deep_view() == script_phase(script@),
{
    let command = vec!["sh".to_owned(), "-eu".to_owned(), "-c".to_owned(), script];
    assert(command.deep_view() == seq!["sh"@, "-eu"@, "-c"@, script@]);
    single(command)
}

/// A phase of one command.
pub fn single(command: Vec<String>) -> (commands: Vec<Vec<String>>)
    ensures
        commands.deep_view() == seq![command.deep_view()],
{
    let commands = vec![command];
    assert(commands.deep_view() == seq![command.deep_view()]);
    commands
}

} // verus!
