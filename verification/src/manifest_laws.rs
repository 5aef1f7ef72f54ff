//! What the lines of a manifest ask for.

use vstd::prelude::*;
use crate::depofile_laws;
use crate::failure::Messages;
use crate::manifest;
use crate::model::{PackageRequestView, Text};
use crate::names;
use crate::text;
use crate::text_laws;
use crate::tokens;

verus! {

/// A letter of the alphabet, a digit or an underscore.
pub open spec fn is_plain(c: char) -> bool {
    ||| 'a' <= c <= 'z'
    ||| 'A' <= c <= 'Z'
    ||| '0' <= c <= '9'
    ||| c == '_'
}

/// A name of letters, digits and underscores that does not start with a digit.
pub open spec fn is_name(s: Text) -> bool {
    &&& s.len() > 0
    &&& !('0' <= s[0] <= '9')
    &&& forall|i: int| 0 <= i < s.len() ==> is_plain(#[trigger] s[i])
}

/// A namespace, which may hold dots and hyphens too.
pub open spec fn is_namespace(s: Text) -> bool {
    &&& s.len() > 0
    &&& forall|i: int| 0 <= i < s.len() ==> is_plain(#[trigger] s[i]) || s[i] == '.' || s[i] == '-'
}

/// Whether a word names an option and another is a value that it takes.
pub open spec fn is_option(option: Text, value: Text) -> bool {
    ||| option == "NAMESPACE"@ && is_namespace(value)
    ||| option == "VERSION"@
    ||| option == "MIN_VERSION"@
    ||| option == "SOURCE"@ && (value == "AUTO"@ || value == "DEPO"@ || value == "SYSTEM"@)
    ||| option == "AS"@ && is_name(value)
}

/// Whether words are a request: the name of a package, then options with a value each.
pub open spec fn is_request(words: Seq<Text>) -> bool {
    &&& words.len() > 0
    &&& is_name(words[0])
    &&& options_from(words, 1)
}

/// Whether the words from a position on are options with a value each.
pub open spec fn options_from(words: Seq<Text>, from: int) -> bool
    decreases words.len() - from,
{
    from < words.len() ==> from + 1 < words.len() && is_option(words[from], words[from + 1])
        && options_from(words, from + 2)
}

/// What the words of a request ask for: each option counts where it is given last.
pub open spec fn asked(words: Seq<Text>) -> PackageRequestView {
    PackageRequestView {
        name: words[0],
        namespace: match depofile_laws::option_value(words, "NAMESPACE"@) {
            Some(namespace) => namespace,
            None => "release"@,
        },
        inherit_namespace: false,
        mode: depofile_laws::versions_asked(words),
        source: depofile_laws::origin_asked(depofile_laws::option_value(words, "SOURCE"@)),
        alias: depofile_laws::option_value(words, "AS"@),
    }
}

proof fn lemma_option_lengths()
    ensures
        "NAMESPACE"@.len() == 9,
        "VERSION"@.len() == 7,
        "MIN_VERSION"@.len() == 11,
        "SOURCE"@.len() == 6,
        "AS"@.len() == 2,
        "SYSTEM"@.len() == 6,
        "DEPO"@.len() == 4 && "DEPO"@[0] == 'D',
        "AUTO"@.len() == 4 && "AUTO"@[0] == 'A',
{
    reveal_strlit("NAMESPACE");
    reveal_strlit("VERSION");
    reveal_strlit("MIN_VERSION");
    reveal_strlit("SOURCE");
    reveal_strlit("AS");
    reveal_strlit("SYSTEM");
    reveal_strlit("DEPO");
    reveal_strlit("AUTO");
}

pub(crate) proof fn lemma_names_checked(s: Text)
    ensures
        names::package_name_check(s) is Ok <==> is_name(s),
        names::alias_check(s) is Ok <==> is_name(s),
        names::namespace_check(s) is Ok <==> is_namespace(s),
{
    if names::is_identifier(s) {
        assert(forall|i: int| 0 <= i < s.len() ==> is_plain(#[trigger] s[i]));
    }
    if is_name(s) {
        assert forall|i: int| 0 <= i < s.len() implies #[trigger] s[i] == '_'
            || names::is_alphanumeric(s[i]) by {
            assert(is_plain(s[i]));
        }
    }
    if is_namespace(s) {
        assert forall|i: int| 0 <= i < s.len() implies names::is_namespace_char(#[trigger] s[i]) by {
            assert(is_plain(s[i]) || s[i] == '.' || s[i] == '-');
        }
    }
    if names::namespace_check(s) is Ok {
        assert forall|i: int| 0 <= i < s.len() implies is_plain(#[trigger] s[i]) || s[i] == '.'
            || s[i] == '-' by {
            assert(names::is_namespace_char(s[i]));
        }
    }
}

proof fn lemma_options(path: Text, line: nat, all: Seq<Text>, from: int)
    requires
        1 <= from <= all.len(),
    ensures
        manifest::request_options(path, line, all, from, asked(all.take(from))) is Ok
            <==> options_from(all, from),
        manifest::request_options(path, line, all, from, asked(all.take(from))) matches Ok(result)
            ==> result == asked(all),
    decreases all.len() - from,
{
    if from == all.len() {
        assert(all.take(from) =~= all);
    } else {
        lemma_option_lengths();
        if from + 1 < all.len() {
            lemma_names_checked(all[from + 1]);
            let more = all.take(from + 2);
            assert(more.take(more.len() - 2) =~= all.take(from));
            assert(more[more.len() - 2] == all[from]);
            assert(more.last() == all[from + 1]);
            assert(more[0] == all.take(from)[0]);
            lemma_options(path, line, all, from + 2);
        }
    }
}

/// Whether a line asks for a package with certain words: they stand between the brackets of
/// `depos_require`.
pub open spec fn asks_with(line: Text, inside: Text, words: Seq<Text>) -> bool {
    &&& line == "depos_require("@ + inside + ")"@
    &&& tokens::tokens_of(inside) == Ok::<Seq<Text>, Messages>(words)
}

/// A line of a manifest is a request if and only if its words are one, and it asks for what they
/// say.
pub proof fn lemma_lines_ask_for_what_they_say(
    path: Text,
    line: nat,
    text: Text,
    inside: Text,
    words: Seq<Text>,
)
    requires
        asks_with(text, inside, words),
    ensures
        manifest::line_request(path, line, text) is Ok <==> is_request(words),
        manifest::line_request(path, line, text) matches Ok(request) ==> request == asked(words),
{
    let head = "depos_require("@;
    reveal_strlit("depos_require(");
    reveal_strlit(")");
    assert(text.subrange(0, head.len() as int) =~= head);
    assert(text.subrange(text.len() - 1, text.len() as int) =~= ")"@);
    assert(text.subrange(head.len() as int, text.len() - 1) =~= inside);
    if words.len() > 0 {
        lemma_names_checked(words[0]);
        let first = words.take(1);
        assert(first[0] == words[0]);
        lemma_options(path, line, words, 1);
    }
}

/// A line without the brackets of `depos_require` is no request.
pub proof fn lemma_other_lines_are_refused(path: Text, line: nat, text: Text)
    requires
        manifest::line_request(path, line, text) is Ok,
    ensures
        exists|inside: Text, words: Seq<Text>|
            #[trigger] asks_with(text, inside, words) && is_request(words),
{
    let head = "depos_require("@;
    reveal_strlit("depos_require(");
    reveal_strlit(")");
    let inside = text.subrange(head.len() as int, text.len() - 1);
    let words = tokens::tokens_of(inside)->Ok_0;
    assert(text.subrange(text.len() - 1, text.len() as int)[0] == text.last());
    assert(head.last() == '(');
    assert(text.subrange(0, head.len() as int)[head.len() - 1] == '(');
    assert(text =~= head + inside + ")"@);
    assert(asks_with(text, inside, words));
    lemma_lines_ask_for_what_they_say(path, line, text, inside, words);
}

/// The lines that count: without white space at their ends, those that are neither empty nor
/// comments.
pub open spec fn counting(lines: Seq<Text>) -> Seq<Text>
    decreases lines.len(),
{
    if lines.len() == 0 {
        Seq::empty()
    } else {
        let before = counting(lines.drop_last());
        let line = text::trimmed(lines.last());
        if line.len() == 0 || line[0] == '#' {
            before
        } else {
            before.push(line)
        }
    }
}

proof fn lemma_significant(lines: Seq<Text>, from: int, done: Seq<(usize, Text)>)
    requires
        0 <= from <= lines.len(),
        done.map_values(|pair: (usize, Text)| pair.1) == counting(lines.take(from)),
    ensures
        names::significant_from(lines, from, done).map_values(|pair: (usize, Text)| pair.1)
            == counting(lines),
    decreases lines.len() - from,
{
    if from == lines.len() {
        assert(lines.take(from) =~= lines);
    } else {
        let next = lines.take(from + 1);
        assert(next.drop_last() =~= lines.take(from));
        assert(next.last() == lines[from]);
        let line = text::trimmed(lines[from]);
        let more = done.push(((from + 1) as usize, line));
        assert(more.map_values(|pair: (usize, Text)| pair.1) =~= done.map_values(
            |pair: (usize, Text)| pair.1,
        ).push(line));
        if line.len() == 0 || line[0] == '#' {
            lemma_significant(lines, from + 1, done);
        } else {
            lemma_significant(lines, from + 1, more);
        }
    }
}

/// Whether a request is what a line asks for.
pub open spec fn is_asked_by(request: PackageRequestView, line: Text) -> bool {
    exists|inside: Text, words: Seq<Text>|
        #[trigger] asks_with(line, inside, words) && is_request(words) && request == asked(words)
}

proof fn lemma_requests(
    path: Text,
    lines: Seq<(usize, Text)>,
    from: int,
    done: Seq<PackageRequestView>,
    requests: Seq<PackageRequestView>,
)
    requires
        0 <= from == done.len() <= lines.len(),
        forall|k: int| 0 <= k < done.len() ==> is_asked_by(#[trigger] done[k], lines[k].1),
        manifest::requests_from(path, lines, from, done) == Ok::<Seq<PackageRequestView>, Messages>(
            requests,
        ),
    ensures
        requests.len() == lines.len(),
        forall|k: int| 0 <= k < lines.len() ==> is_asked_by(#[trigger] requests[k], lines[k].1),
    decreases lines.len() - from,
{
    if from < lines.len() {
        let (number, line) = lines[from];
        lemma_other_lines_are_refused(path, number as nat, line);
        let (inside, words) = choose|inside: Text, words: Seq<Text>|
            #[trigger] asks_with(line, inside, words) && is_request(words);
        lemma_lines_ask_for_what_they_say(path, number as nat, line, inside, words);
        let request = manifest::line_request(path, number as nat, line)->Ok_0;
        assert(is_asked_by(request, line));
        let next = done.push(request);
        assert forall|k: int| 0 <= k < next.len() implies is_asked_by(
            #[trigger] next[k],
            lines[k].1,
        ) by {
            if k < done.len() {
                assert(next[k] == done[k]);
            }
        }
        lemma_requests(path, lines, from + 1, next, requests);
    }
}

/// A manifest asks for what its lines ask for, in their order; blank lines and comments ask for
/// nothing.
pub proof fn lemma_manifests_ask_for_what_their_lines_say(
    path: Text,
    lines: Seq<Text>,
    requests: Seq<PackageRequestView>,
)
    requires
        lines.len() > 0,
        forall|k: int| 0 <= k < lines.len() ==> text_laws::lacks(#[trigger] lines[k], '\n'),
        manifest::manifest_requests(path, text_laws::with_between(lines, '\n')) == Ok::<
            Seq<PackageRequestView>,
            Messages,
        >(requests),
    ensures
        requests.len() == counting(lines).len(),
        forall|k: int|
            0 <= k < requests.len() ==> is_asked_by(#[trigger] requests[k], counting(lines)[k]),
{
    let source = text_laws::with_between(lines, '\n');
    text_laws::lemma_pieces_are_what_was_joined(lines, '\n');
    let none = Seq::<(usize, Text)>::empty();
    assert(none.map_values(|pair: (usize, Text)| pair.1) =~= counting(lines.take(0)));
    lemma_significant(lines, 0, none);
    let found = names::significant(source);
    let texts = found.map_values(|pair: (usize, Text)| pair.1);
    lemma_requests(path, found, 0, Seq::empty(), requests);
    assert forall|k: int| 0 <= k < requests.len() implies is_asked_by(
        #[trigger] requests[k],
        counting(lines)[k],
    ) by {
        assert(texts[k] == found[k].1);
    }
}

} // verus!
