//! Names that packages, namespaces and aliases may have, and the lines of a manifest.

use vstd::prelude::*;
use crate::failure::{failure, outcome, Failure, Messages};
use crate::model::Text;
use crate::text;
use crate::text::{cat3, chars_of};

verus! {

/// An ASCII letter.
pub open spec fn is_letter(c: char) -> bool {
    ('a' <= c <= 'z') || ('A' <= c <= 'Z')
}

/// An ASCII decimal digit.
pub open spec fn is_digit(c: char) -> bool {
    '0' <= c <= '9'
}

/// An ASCII letter or digit.
pub open spec fn is_alphanumeric(c: char) -> bool {
    is_letter(c) || is_digit(c)
}

/// Decides whether `c` is an ASCII letter or digit.
pub fn alphanumeric(c: char) -> (yes: bool)
    ensures
        yes == is_alphanumeric(c),
{
    ('a' <= c && c <= 'z') || ('A' <= c && c <= 'Z') || ('0' <= c && c <= '9')
}

/// A non-empty text of ASCII letters, digits and underscores that does not start with a digit.
pub open spec fn is_identifier(s: Text) -> bool {
    &&& s.len() > 0
    &&& !is_digit(s[0])
    &&& forall|i: int| 0 <= i < s.len() ==> #[trigger] s[i] == '_' || is_alphanumeric(s[i])
}

/// `metalor::valid_identifier` accepts exactly the texts that start with an ASCII letter or an
/// underscore and go on with ASCII letters, digits and underscores.
#[verifier::external_body]
fn valid_identifier(value: &str) -> (yes: bool)
    ensures
        yes == is_identifier(value@),
{
    metalor::valid_identifier(value)
}

/// The significant lines among `lines` from position `from` on, put behind `done`: each with
/// its number, counted from one, and without white space at its ends.
pub open spec fn significant_from(
    lines: Seq<Text>,
    from: int,
    done: Seq<(usize, Text)>,
) -> Seq<(usize, Text)>
    decreases lines.len() - from,
{
    if from >= lines.len() {
        done
    } else {
        let line = text::trimmed(lines[from]);
        if line.len() == 0 || line[0] == '#' {
            significant_from(lines, from + 1, done)
        } else {
            significant_from(lines, from + 1, done.push(((from + 1) as usize, line)))
        }
    }
}

/// The lines of `source` that are neither blank nor start with `#`.
pub open spec fn significant(source: Text) -> Seq<(usize, Text)> {
    significant_from(text::pieces(source, '\n'), 0, Seq::empty())
}

/// `metalor::significant_lines` yields, in order, every line that is neither blank nor a `#`
/// comment, trimmed and with its number counted from one. A carriage return before a line
/// feed is white space, so trimming removes it like any other.
#[verifier::external_body]
pub(crate) fn significant_lines(source: &str) -> (lines: Vec<(usize, String)>)
    ensures
        lines.deep_view() == significant(source@),
{
    metalor::significant_lines(source).map(|line| (line.number, line.text.to_string())).collect()
}

/// The outcome of checking a package name.
pub open spec fn package_name_check(name: Text) -> Result<(), Messages> {
    if is_identifier(name) {
        Ok(())
    } else {
        Err(seq!["invalid package name '"@ + name + "'"@])
    }
}

pub fn ensure_package_name(name: &str) -> (result: Result<(), Failure>)
    ensures
        outcome(result) == package_name_check(name@),
{
    if !valid_identifier(name) {
        return Err(failure(cat3("invalid package name '", name, "'")));
    }
    Ok(())
}

/// A character that a namespace may hold.
pub open spec fn is_namespace_char(c: char) -> bool {
    is_alphanumeric(c) || c == '-' || c == '_' || c == '.'
}

/// The outcome of checking a namespace.
pub open spec fn namespace_check(namespace: Text) -> Result<(), Messages> {
    if namespace.len() == 0 {
        Err(seq!["invalid empty namespace"@])
    } else if forall|i: int| 0 <= i < namespace.len() ==> is_namespace_char(#[trigger] namespace[i]) {
        Ok(())
    } else {
        Err(seq!["invalid namespace '"@ + namespace + "'"@])
    }
}

pub fn ensure_namespace_name(namespace: &str) -> (result: Result<(), Failure>)
    ensures
        outcome(result) == namespace_check(namespace@),
{
    if namespace.is_empty() {
        return Err(failure("invalid empty namespace".to_owned()));
    }
    let chars = chars_of(namespace);
    let mut index: usize = 0;
    while index < chars.len()
        invariant
            chars@ == namespace@,
            namespace@.len() > 0,
            index <= chars.len(),
            forall|i: int| 0 <= i < index ==> is_namespace_char(#[trigger] namespace@[i]),
        decreases chars.len() - index,
    {
        let c = chars[index];
        if !(alphanumeric(c) || c == '-' || c == '_' || c == '.') {
            assert(!is_namespace_char(namespace@[index as int]));
            return Err(failure(cat3("invalid namespace '", namespace, "'")));
        }
        index = index + 1;
    }
    Ok(())
}

/// The outcome of checking an alias.
pub open spec fn alias_check(alias: Text) -> Result<(), Messages> {
    if is_identifier(alias) {
        Ok(())
    } else {
        Err(seq!["invalid alias '"@ + alias + "'"@])
    }
}

pub fn ensure_alias_name(alias: &str) -> (result: Result<(), Failure>)
    ensures
        outcome(result) == alias_check(alias@),
{
    if !valid_identifier(alias) {
        return Err(failure(cat3("invalid alias '", alias, "'")));
    }
    Ok(())
}

} // verus!
