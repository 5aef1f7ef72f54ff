//! How the lines of a DepoFile make its directives.

use vstd::prelude::*;
use crate::directives;
use crate::directives::DirectiveView;
use crate::failure::Messages;
use crate::model::Text;
use crate::record_laws;
use crate::text;
use crate::text_laws;

verus! {

/// A line that says nothing: it is blank or a comment.
pub open spec fn is_idle(line: Text) -> bool {
    text::trimmed(line).len() == 0 || text::trimmed(line)[0] == '#'
}

/// Whether a line is a keyword and what follows it, with white space between and behind.
pub open spec fn is_split(
    line: Text,
    keyword: Text,
    between: Text,
    rest: Text,
    behind: Text,
) -> bool {
    &&& text::trimmed(line) == keyword + between + rest + behind
    &&& keyword.len() > 0
    &&& forall|i: int| 0 <= i < keyword.len() ==> !text::is_white_space(#[trigger] keyword[i])
    &&& text_laws::is_blank(between)
    &&& text_laws::is_blank(behind)
    &&& rest.len() > 0 ==> between.len() > 0
    &&& text_laws::is_trim(rest)
}

/// Whether a delimiter is what is written behind `<<`, without the quotes around it.
pub open spec fn is_delimiter(written: Text, delimiter: Text) -> bool {
    &&& delimiter.len() > 0
    &&& ({
        ||| written == delimiter
        ||| written == seq!['\''] + delimiter + seq!['\'']
        ||| written == seq!['"'] + delimiter + seq!['"']
    })
}

/// What opens a block.
pub open spec fn marked(written: Text) -> Text {
    seq!['<', '<'] + written
}

/// Whether a directive is what the lines up to and with the one at `end` say from its own line
/// on. One with a block ends at the first line that is the delimiter.
pub open spec fn spans(lines: Seq<Text>, directive: DirectiveView, end: int) -> bool {
    let own = directive.line_number - 1;
    &&& 0 <= own <= end < lines.len()
    &&& !is_idle(lines[own])
    &&& match directive.block {
        None => end == own && !text::has_prefix(directive.remainder, seq!['<', '<'])
            && exists|between: Text, behind: Text|
            #[trigger] is_split(
                lines[own],
                directive.keyword,
                between,
                directive.remainder,
                behind,
            ),
        Some(block) => {
            &&& directive.remainder.len() == 0
            &&& block == record_laws::unlined(lines.subrange(own + 1, end))
            &&& own < end
            &&& exists|between: Text, written: Text, behind: Text|
                #[trigger] is_split(
                    lines[own],
                    directive.keyword,
                    between,
                    marked(written),
                    behind,
                ) && is_delimiter(text::trimmed(written), text::trimmed(lines[end]))
            &&& forall|m: int|
                own < m < end ==> text::trimmed(#[trigger] lines[m]) != text::trimmed(lines[end])
        },
    }
}

/// Whether a line belongs to a directive.
pub open spec fn covers(directive: DirectiveView, end: int, line: int) -> bool {
    directive.line_number - 1 <= line <= end
}

/// Whether directives are what the first lines say, in order, and no line that says something is
/// left out. `ends` holds the last line of each.
pub open spec fn are_read(
    lines: Seq<Text>,
    found: Seq<DirectiveView>,
    ends: Seq<int>,
    count: int,
) -> bool {
    &&& ends.len() == found.len()
    &&& forall|k: int|
        0 <= k < found.len() ==> spans(lines, #[trigger] found[k], ends[k]) && ends[k] < count
    &&& forall|j: int, k: int|
        0 <= j < k < found.len() ==> #[trigger] ends[j] < (#[trigger] found[k]).line_number - 1
    &&& forall|i: int|
        0 <= i < count ==> is_idle(#[trigger] lines[i]) || exists|k: int|
            0 <= k < found.len() && covers(#[trigger] found[k], ends[k], i)
}

proof fn lemma_trim_stays(s: Text)
    requires
        text_laws::is_trim(s),
    ensures
        text::trimmed(s) == s,
{
}

proof fn lemma_word_end(s: Text, from: int)
    requires
        0 <= from <= s.len(),
    ensures
        from <= directives::word_end(s, from) <= s.len(),
        forall|i: int|
            from <= i < directives::word_end(s, from) ==> !text::is_white_space(#[trigger] s[i]),
        directives::word_end(s, from) < s.len() ==> text::is_white_space(
            s[directives::word_end(s, from)],
        ),
    decreases s.len() - from,
{
    if from < s.len() && !text::is_white_space(s[from]) {
        lemma_word_end(s, from + 1);
    }
}

proof fn lemma_keyword_split(line: Text) -> (gaps: (Text, Text))
    requires
        !is_idle(line),
    ensures
        is_split(
            line,
            directives::keyword_split(text::trimmed(line)).0,
            gaps.0,
            directives::keyword_split(text::trimmed(line)).1,
            gaps.1,
        ),
{
    let s = text::trimmed(line);
    text_laws::lemma_trimming_takes_white_space_only(line);
    lemma_trim_stays(s);
    lemma_word_end(s, 0);
    let end = directives::word_end(s, 0);
    let keyword = s.subrange(0, end);
    let tail = s.subrange(end, s.len() as int);
    let gaps = text_laws::lemma_trimming_takes_white_space_only(tail);
    let rest = text::trimmed(tail);
    assert(s =~= keyword + tail);
    assert(keyword + (gaps.0 + rest + gaps.1) =~= keyword + gaps.0 + rest + gaps.1);
    assert(!text::is_white_space(s[0]));
    assert(end > 0);
    assert forall|i: int| 0 <= i < keyword.len() implies !text::is_white_space(
        #[trigger] keyword[i],
    ) by {
        assert(keyword[i] == s[i]);
    }
    if rest.len() > 0 && gaps.0.len() == 0 {
        assert(tail[0] == rest[0]);
        assert(tail[0] == s[end]);
    }
    gaps
}

proof fn lemma_unquoted(s: Text, mark: Text, c: char)
    requires
        mark == seq![c],
    ensures
        directives::unquoted(s, mark) matches Some(value) ==> s == seq![c] + value + seq![c],
{
    if let Some(value) = directives::unquoted(s, mark) {
        let rest = text::after(s, 1);
        assert(s.subrange(0, 1)[0] == mark[0]);
        assert(rest.subrange(rest.len() - 1, rest.len() as int)[0] == mark[0]);
        assert(s[0] == c);
        assert(s.last() == rest.last());
        assert(s =~= seq![c] + value + seq![c]);
    }
}

proof fn lemma_delimiter(path: Text, line: nat, keyword: Text, raw: Text)
    ensures
        directives::block_delimiter(path, line, keyword, raw) matches Ok(delimiter)
            ==> is_delimiter(text::trimmed(raw), delimiter),
{
    reveal_strlit("'");
    reveal_strlit("\"");
    assert("'"@ =~= seq!['\'']);
    assert("\""@ =~= seq!['"']);
    lemma_unquoted(text::trimmed(raw), "'"@, '\'');
    lemma_unquoted(text::trimmed(raw), "\""@, '"');
}

proof fn lemma_block_end(lines: Seq<Text>, from: int, delimiter: Text)
    requires
        0 <= from <= lines.len(),
    ensures
        from <= directives::block_end(lines, from, delimiter) <= lines.len(),
        directives::block_end(lines, from, delimiter) < lines.len() ==> text::trimmed(
            lines[directives::block_end(lines, from, delimiter)],
        ) == delimiter,
        forall|m: int|
            from <= m < directives::block_end(lines, from, delimiter) ==> text::trimmed(
                #[trigger] lines[m],
            ) != delimiter,
    decreases lines.len() - from,
{
    if from < lines.len() && text::trimmed(lines[from]) != delimiter {
        lemma_block_end(lines, from + 1, delimiter);
    }
}

proof fn lemma_unlined_last(lines: Seq<Text>)
    requires
        lines.len() > 0,
    ensures
        record_laws::unlined(lines) == record_laws::unlined(lines.drop_last()) + lines.last()
            + "\n"@,
    decreases lines.len(),
{
    let rest = lines.subrange(1, lines.len() as int);
    if lines.len() == 1 {
        assert(rest =~= Seq::<Text>::empty());
        assert(lines.drop_last() =~= Seq::<Text>::empty());
        assert(record_laws::unlined(rest) =~= Seq::<char>::empty());
        assert(record_laws::unlined(lines) =~= record_laws::unlined(lines.drop_last())
            + lines.last() + "\n"@);
    } else {
        lemma_unlined_last(rest);
        let fewer = lines.drop_last();
        assert(rest.drop_last() =~= fewer.subrange(1, fewer.len() as int));
        assert(lines[0] + "\n"@ + (record_laws::unlined(rest.drop_last()) + rest.last() + "\n"@)
            =~= lines[0] + "\n"@ + record_laws::unlined(rest.drop_last()) + rest.last() + "\n"@);
    }
}

proof fn lemma_block_text(lines: Seq<Text>, from: int, to: int)
    requires
        0 <= from <= to <= lines.len(),
    ensures
        directives::block_text(lines, from, to) == record_laws::unlined(lines.subrange(from, to)),
    decreases to - from,
{
    if from < to {
        lemma_block_text(lines, from, to - 1);
        let part = lines.subrange(from, to);
        assert(part.drop_last() =~= lines.subrange(from, to - 1));
        lemma_unlined_last(part);
    } else {
        assert(lines.subrange(from, to) =~= Seq::<Text>::empty());
    }
}

proof fn lemma_more_are_read(
    lines: Seq<Text>,
    found: Seq<DirectiveView>,
    ends: Seq<int>,
    count: int,
    directive: DirectiveView,
    end: int,
)
    requires
        are_read(lines, found, ends, count),
        0 <= count < lines.len(),
        directive.line_number == count + 1,
        spans(lines, directive, end),
    ensures
        are_read(lines, found.push(directive), ends.push(end), end + 1),
{
    let more = found.push(directive);
    let marks = ends.push(end);
    assert forall|k: int| 0 <= k < more.len() implies spans(lines, #[trigger] more[k], marks[k])
        && marks[k] < end + 1 by {
        if k < found.len() {
            assert(more[k] == found[k] && marks[k] == ends[k]);
        }
    }
    assert forall|j: int, k: int| 0 <= j < k < more.len() implies #[trigger] marks[j] < (
    #[trigger] more[k]).line_number - 1 by {
        assert(marks[j] == ends[j]);
        assert(more[j] == found[j]);
        if k < found.len() {
            assert(more[k] == found[k]);
        }
    }
    assert forall|i: int| 0 <= i < end + 1 implies is_idle(#[trigger] lines[i]) || exists|k: int|
        0 <= k < more.len() && covers(#[trigger] more[k], marks[k], i) by {
        if i < count {
            if !is_idle(lines[i]) {
                let k = choose|k: int|
                    0 <= k < found.len() && covers(#[trigger] found[k], ends[k], i);
                assert(covers(more[k], marks[k], i));
            }
        } else {
            assert(covers(more[found.len() as int], marks[found.len() as int], i));
        }
    }
}

proof fn lemma_plain_line(lines: Seq<Text>, from: int) -> (directive: DirectiveView)
    requires
        0 <= from < lines.len(),
        !is_idle(lines[from]),
        !text::has_prefix(
            directives::keyword_split(text::trimmed(lines[from])).1,
            seq!['<', '<'],
        ),
    ensures
        directive == (DirectiveView {
            line_number: (from + 1) as nat,
            keyword: directives::keyword_split(text::trimmed(lines[from])).0,
            remainder: directives::keyword_split(text::trimmed(lines[from])).1,
            block: None,
        }),
        spans(lines, directive, from),
{
    let gaps = lemma_keyword_split(lines[from]);
    let (keyword, remainder) = directives::keyword_split(text::trimmed(lines[from]));
    let directive = DirectiveView {
        line_number: (from + 1) as nat,
        keyword,
        remainder,
        block: None,
    };
    let own = directive.line_number - 1;
    assert(own == from);
    assert(is_split(lines[own], directive.keyword, gaps.0, directive.remainder, gaps.1));
    directive
}

proof fn lemma_block_line(
    path: Text,
    lines: Seq<Text>,
    from: int,
    delimiter: Text,
    end: int,
) -> (directive: DirectiveView)
    requires
        0 <= from < lines.len(),
        !is_idle(lines[from]),
        ({
            let (keyword, remainder) = directives::keyword_split(text::trimmed(lines[from]));
            &&& text::has_prefix(remainder, seq!['<', '<'])
            &&& directives::block_delimiter(
                path,
                (from + 1) as nat,
                keyword,
                text::after(remainder, 2),
            ) == Ok::<Text, Messages>(delimiter)
        }),
        end == directives::block_end(lines, from + 1, delimiter),
        end < lines.len(),
    ensures
        directive == (DirectiveView {
            line_number: (from + 1) as nat,
            keyword: directives::keyword_split(text::trimmed(lines[from])).0,
            remainder: Seq::empty(),
            block: Some(directives::block_text(lines, from + 1, end)),
        }),
        spans(lines, directive, end),
{
    let gaps = lemma_keyword_split(lines[from]);
    let (keyword, remainder) = directives::keyword_split(text::trimmed(lines[from]));
    let written = text::after(remainder, 2);
    lemma_delimiter(path, (from + 1) as nat, keyword, written);
    lemma_block_end(lines, from + 1, delimiter);
    lemma_block_text(lines, from + 1, end);
    assert(remainder =~= seq!['<', '<'] + written) by {
        assert(remainder.subrange(0, 2) =~= seq!['<', '<']);
        assert(remainder =~= remainder.subrange(0, 2) + written);
    }
    let directive = DirectiveView {
        line_number: (from + 1) as nat,
        keyword,
        remainder: Seq::empty(),
        block: Some(directives::block_text(lines, from + 1, end)),
    };
    let own = directive.line_number - 1;
    assert(own == from);
    assert(is_split(lines[own], directive.keyword, gaps.0, marked(written), gaps.1));
    directive
}

proof fn lemma_directives(
    path: Text,
    lines: Seq<Text>,
    from: int,
    done: Seq<DirectiveView>,
    ends: Seq<int>,
    result: Seq<DirectiveView>,
) -> (all: Seq<int>)
    requires
        0 <= from <= lines.len(),
        are_read(lines, done, ends, from),
        directives::directives_from(path, lines, from, done) == Ok::<Seq<DirectiveView>, Messages>(
            result,
        ),
    ensures
        are_read(lines, result, all, lines.len() as int),
    decreases lines.len() - from,
{
    reveal_strlit("#");
    reveal_strlit("<<");
    assert("#"@.len() == 1 && "#"@[0] == '#');
    assert("<<"@ =~= seq!['<', '<']);
    if from >= lines.len() {
        ends
    } else {
        let trimmed = text::trimmed(lines[from]);
        if trimmed.len() > 0 {
            assert(trimmed.subrange(0, 1)[0] == trimmed[0]);
            if trimmed[0] == '#' {
                assert(trimmed.subrange(0, 1) =~= "#"@);
            }
        }
        if is_idle(lines[from]) {
            lemma_directives(path, lines, from + 1, done, ends, result)
        } else {
            let (keyword, remainder) = directives::keyword_split(trimmed);
            if text::has_prefix(remainder, "<<"@) {
                let delimiter = directives::block_delimiter(
                    path,
                    (from + 1) as nat,
                    keyword,
                    text::after(remainder, 2),
                )->Ok_0;
                lemma_block_end(lines, from + 1, delimiter);
                let end = directives::block_end(lines, from + 1, delimiter);
                let directive = lemma_block_line(path, lines, from, delimiter, end);
                lemma_more_are_read(lines, done, ends, from, directive, end);
                lemma_directives(
                    path,
                    lines,
                    end + 1,
                    done.push(directive),
                    ends.push(end),
                    result,
                )
            } else {
                let directive = lemma_plain_line(lines, from);
                lemma_more_are_read(lines, done, ends, from, directive, from);
                lemma_directives(
                    path,
                    lines,
                    from + 1,
                    done.push(directive),
                    ends.push(from),
                    result,
                )
            }
        }
    }
}

/// The directives of a DepoFile are what its lines say, in order: each line that is neither blank
/// nor a comment is a directive, a keyword and what follows it, or belongs to the block of the
/// directive before it, which runs up to the line that holds its delimiter alone.
pub proof fn lemma_directives_are_what_the_lines_say(
    path: Text,
    lines: Seq<Text>,
    result: Seq<DirectiveView>,
) -> (ends: Seq<int>)
    requires
        forall|k: int| 0 <= k < lines.len() ==> record_laws::line_storable(#[trigger] lines[k]),
        directives::directives_of(path, record_laws::unlined(lines)) == Ok::<
            Seq<DirectiveView>,
            Messages,
        >(result),
    ensures
        are_read(lines, result, ends, lines.len() as int),
{
    record_laws::lemma_lines_of_unlined(lines);
    lemma_directives(path, lines, 0, Seq::empty(), Seq::empty(), result)
}

} // verus!
