//! The directives of a DepoFile: one per line, some followed by a block of lines.

use vstd::prelude::*;
use crate::failure;
use crate::failure::{at, failure, outcome, Failure, Messages};
use crate::model::Text;
use crate::text;
use crate::text::{
    cat4, cat5, chars_of, lines, put, same, slice, starts_with, strip_prefix, strip_suffix, trim,
    white_space,
};

verus! {

/// One directive: its keyword, and either what follows on the line or the block below it.
#[derive(Clone, Debug, PartialEq, Eq)]
pub struct DepofileDirective {
    pub line_number: usize,
    pub keyword: String,
    pub remainder: String,
    pub block: Option<String>,
}

/// The model of [`DepofileDirective`].
pub struct DirectiveView {
    pub line_number: nat,
    pub keyword: Text,
    pub remainder: Text,
    pub block: Option<Text>,
}

impl DeepView for DepofileDirective {
    type V = DirectiveView;

    open spec fn deep_view(&self) -> DirectiveView {
        DirectiveView {
            line_number: self.line_number as nat,
            keyword: self.keyword@,
            remainder: self.remainder@,
            block: self.block.deep_view(),
        }
    }
}

/// The position of the first white space in `s` at or behind `from`, or the length.
pub open spec fn word_end(s: Text, from: int) -> int
    decreases s.len() - from,
{
    if from >= s.len() {
        s.len() as int
    } else if text::is_white_space(s[from]) {
        from
    } else {
        word_end(s, from + 1)
    }
}

/// The first word of a line and what follows it, both without white space at their ends.
pub open spec fn keyword_split(line: Text) -> (Text, Text) {
    let trimmed = text::trimmed(line);
    let end = word_end(trimmed, 0);
    (trimmed.subrange(0, end), text::trimmed(trimmed.subrange(end, trimmed.len() as int)))
}

/// Splits a line into its first word and the rest.
pub fn split_keyword(line: &str) -> (parts: (String, String))
    ensures
        parts.0@ == keyword_split(line@).0,
        parts.1@ == keyword_split(line@).1,
{
    let trimmed = trim(line);
    let chars = chars_of(&trimmed);
    let mut end: usize = 0;
    while end < chars.len() && !white_space(chars[end])
        invariant
            chars@ == trimmed@,
            end <= chars.len(),
            word_end(trimmed@, 0) == word_end(trimmed@, end as int),
        decreases chars.len() - end,
    {
        end = end + 1;
    }
    (slice(&trimmed, 0, end), trim(&slice(&trimmed, end, chars.len())))
}

/// `s` without the quotation mark `mark` at both ends, where it has it at both.
pub open spec fn unquoted(s: Text, mark: Text) -> Option<Text> {
    if text::has_prefix(s, mark) && text::has_suffix(
        text::after(s, mark.len() as int),
        mark,
    ) {
        let rest = text::after(s, mark.len() as int);
        Some(rest.subrange(0, rest.len() - mark.len()))
    } else {
        None
    }
}

/// Removes the quotation mark `mark` from both ends.
pub fn unquote(value: &str, mark: &str) -> (result: Option<String>)
    ensures
        result.deep_view() == unquoted(value@, mark@),
{
    match strip_prefix(value, mark) {
        Some(rest) => strip_suffix(&rest, mark),
        None => None,
    }
}

/// The delimiter that ends a block, from what follows `<<`.
pub open spec fn block_delimiter(path: Text, line: nat, keyword: Text, raw: Text) -> Result<
    Text,
    Messages,
> {
    let delimiter = text::trimmed(raw);
    let empty: Result<Text, Messages> = Err(
        seq![failure::place(path, line) + ": "@ + keyword + " block delimiter must not be empty"@],
    );
    if delimiter.len() == 0 {
        Err(
            seq![failure::place(path, line) + ": "@ + keyword
                + " block requires a heredoc delimiter after <<"@],
        )
    } else {
        match unquoted(delimiter, "'"@) {
            Some(value) => if value.len() == 0 {
                empty
            } else {
                Ok(value)
            },
            None => match unquoted(delimiter, "\""@) {
                Some(value) => if value.len() == 0 {
                    empty
                } else {
                    Ok(value)
                },
                None => Ok(delimiter),
            },
        }
    }
}

pub fn parse_block_delimiter(
    path: &str,
    line_number: usize,
    keyword: &str,
    raw_value: &str,
) -> (result: Result<String, Failure>)
    ensures
        outcome(result) == block_delimiter(path@, line_number as nat, keyword@, raw_value@),
{
    let delimiter = trim(raw_value);
    if delimiter.as_str().is_empty() {
        return Err(
            failure(
                cat4(
                    &at(path, line_number),
                    ": ",
                    keyword,
                    " block requires a heredoc delimiter after <<",
                ),
            ),
        );
    }
    let value = match unquote(&delimiter, "'") {
        Some(value) => value,
        None => match unquote(&delimiter, "\"") {
            Some(value) => value,
            None => {
                return Ok(delimiter);
            },
        },
    };
    if value.as_str().is_empty() {
        return Err(
            failure(
                cat4(
                    &at(path, line_number),
                    ": ",
                    keyword,
                    " block delimiter must not be empty",
                ),
            ),
        );
    }
    Ok(value)
}

/// The position of the first line at or behind `from` that is `delimiter` but for white space
/// at its ends, or the number of lines.
pub open spec fn block_end(lines: Seq<Text>, from: int, delimiter: Text) -> int
    decreases lines.len() - from,
{
    if from >= lines.len() {
        lines.len() as int
    } else if text::trimmed(lines[from]) == delimiter {
        from
    } else {
        block_end(lines, from + 1, delimiter)
    }
}

/// A block does not end before it begins.
pub proof fn lemma_block_end_bounds(lines: Seq<Text>, from: int, delimiter: Text)
    requires
        0 <= from <= lines.len(),
    ensures
        from <= block_end(lines, from, delimiter) <= lines.len(),
    decreases lines.len() - from,
{
    if from < lines.len() {
        lemma_block_end_bounds(lines, from + 1, delimiter);
    }
}

/// The lines from `from` up to but not including `to`, each ended by a line feed.
pub open spec fn block_text(lines: Seq<Text>, from: int, to: int) -> Text
    decreases to - from,
{
    if from >= to {
        Seq::empty()
    } else {
        block_text(lines, from, to - 1) + lines[to - 1] + "\n"@
    }
}

/// The directives among the lines of a DepoFile from position `from` on, put behind `done`.
pub open spec fn directives_from(
    path: Text,
    lines: Seq<Text>,
    from: int,
    done: Seq<DirectiveView>,
) -> Result<Seq<DirectiveView>, Messages>
    decreases lines.len() - from,
{
    if from < 0 || from >= lines.len() {
        Ok(done)
    } else {
        let line = (from + 1) as nat;
        let trimmed = text::trimmed(lines[from]);
        if trimmed.len() == 0 || text::has_prefix(trimmed, "#"@) {
            directives_from(path, lines, from + 1, done)
        } else {
            let (keyword, remainder) = keyword_split(trimmed);
            if text::has_prefix(remainder, "<<"@) {
                match block_delimiter(
                    path,
                    line,
                    keyword,
                    text::after(remainder, "<<"@.len() as int),
                ) {
                    Err(messages) => Err(messages),
                    Ok(delimiter) => {
                        proof {
                            lemma_block_end_bounds(lines, from + 1, delimiter);
                        }
                        let end = block_end(lines, from + 1, delimiter);
                        if end >= lines.len() {
                            Err(
                                seq![failure::place(path, line) + ": unterminated "@ + keyword
                                    + " block; missing terminator "@ + delimiter],
                            )
                        } else {
                            directives_from(
                                path,
                                lines,
                                end + 1,
                                done.push(
                                    DirectiveView {
                                        line_number: line,
                                        keyword,
                                        remainder: Seq::empty(),
                                        block: Some(block_text(lines, from + 1, end)),
                                    },
                                ),
                            )
                        }
                    },
                }
            } else {
                directives_from(
                    path,
                    lines,
                    from + 1,
                    done.push(
                        DirectiveView { line_number: line, keyword, remainder, block: None },
                    ),
                )
            }
        }
    }
}

/// The directives of a DepoFile. Blank lines and lines that start with `#` are skipped; a
/// directive whose arguments start with `<<` takes the lines up to the delimiter as its block.
pub open spec fn directives_of(path: Text, source: Text) -> Result<Seq<DirectiveView>, Messages> {
    directives_from(path, text::lines_of(source), 0, Seq::empty())
}

pub fn depofile_directives(path: &str, source: &str) -> (result: Result<
    Vec<DepofileDirective>,
    Failure,
>)
    ensures
        outcome(result) == directives_of(path@, source@),
{
    let lines = lines(source);
    let mut directives: Vec<DepofileDirective> = Vec::new();
    let mut index: usize = 0;
    assert(directives.deep_view() == Seq::<DirectiveView>::empty());
    while index < lines.len()
        invariant
            lines.deep_view() == text::lines_of(source@),
            index <= lines.len(),
            directives_of(path@, source@) == directives_from(
                path@,
                lines.deep_view(),
                index as int,
                directives.deep_view(),
            ),
        decreases lines.len() - index,
    {
        let ghost start = index;
        let line_number: usize = index + 1;
        let trimmed = trim(&lines[index]);
        index = index + 1;
        if trimmed.as_str().is_empty() || starts_with(&trimmed, "#") {
            continue;
        }
        let (keyword, remainder) = split_keyword(&trimmed);
        if let Some(raw_delimiter) = strip_prefix(&remainder, "<<") {
            let delimiter = parse_block_delimiter(path, line_number, &keyword, &raw_delimiter)?;
            let mut body = String::new();
            let ghost first = index;
            while index < lines.len() && !same(&trim(&lines[index]), &delimiter)
                invariant
                    first <= index <= lines.len(),
                    block_end(lines.deep_view(), first as int, delimiter@) == block_end(
                        lines.deep_view(),
                        index as int,
                        delimiter@,
                    ),
                    body@ == block_text(lines.deep_view(), first as int, index as int),
                decreases lines.len() - index,
            {
                body.append(&lines[index]);
                body.append("\n");
                index = index + 1;
            }
            if index >= lines.len() {
                return Err(
                    failure(
                        cat5(
                            &at(path, line_number),
                            ": unterminated ",
                            &keyword,
                            " block; missing terminator ",
                            &delimiter,
                        ),
                    ),
                );
            }
            index = index + 1;
            put(
                &mut directives,
                DepofileDirective { line_number, keyword, remainder: String::new(), block: Some(body) },
            );
        } else {
            put(
                &mut directives,
                DepofileDirective { line_number, keyword, remainder, block: None },
            );
        }
    }
    Ok(directives)
}

} // verus!
