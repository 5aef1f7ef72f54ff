//! How texts are split, joined, trimmed, replaced and written as numbers.

use vstd::prelude::*;
use crate::model::Text;
use crate::text;
use crate::text::Order;
use crate::tokens;
use crate::version_laws;

verus! {

/// Whether a text holds a character nowhere.
pub open spec fn lacks(s: Text, c: char) -> bool {
    forall|i: int| 0 <= i < s.len() ==> #[trigger] s[i] != c
}

/// Texts with a character between each two of them.
pub open spec fn with_between(parts: Seq<Text>, c: char) -> Text
    decreases parts.len(),
{
    if parts.len() == 0 {
        Seq::empty()
    } else if parts.len() == 1 {
        parts[0]
    } else {
        with_between(parts.drop_last(), c).push(c) + parts.last()
    }
}

proof fn lemma_pieces_from(s: Text, c: char, start: int, from: int, done: Seq<Text>)
    requires
        0 <= start <= from <= s.len(),
        forall|i: int| start <= i < from ==> #[trigger] s[i] != c,
        forall|k: int| 0 <= k < done.len() ==> lacks(#[trigger] done[k], c),
        done.len() == 0 ==> start == 0,
        done.len() > 0 ==> with_between(done, c).push(c) == s.take(start),
    ensures
        ({
            let all = text::pieces_from(s, c, start, from, done);
            &&& all.len() > 0
            &&& forall|k: int| 0 <= k < all.len() ==> lacks(#[trigger] all[k], c)
            &&& with_between(all, c) == s
        }),
    decreases s.len() - from,
{
    if from >= s.len() {
        let last = s.subrange(start, s.len() as int);
        let all = done.push(last);
        assert(all.drop_last() =~= done);
        assert forall|k: int| 0 <= k < all.len() implies lacks(#[trigger] all[k], c) by {
            if k < done.len() {
                assert(all[k] == done[k]);
            } else {
                assert forall|i: int| 0 <= i < last.len() implies #[trigger] last[i] != c by {
                    assert(last[i] == s[start + i]);
                }
            }
        }
        if done.len() > 0 {
            assert(s.take(start) + last =~= s);
        } else {
            assert(last =~= s);
        }
    } else if s[from] == c {
        let piece = s.subrange(start, from);
        let next = done.push(piece);
        assert(next.drop_last() =~= done);
        assert forall|k: int| 0 <= k < next.len() implies lacks(#[trigger] next[k], c) by {
            if k < done.len() {
                assert(next[k] == done[k]);
            } else {
                assert forall|i: int| 0 <= i < piece.len() implies #[trigger] piece[i] != c by {
                    assert(piece[i] == s[start + i]);
                }
            }
        }
        if done.len() > 0 {
            assert((s.take(start) + piece).push(c) =~= s.take(from + 1));
        } else {
            assert(piece.push(c) =~= s.take(from + 1));
        }
        lemma_pieces_from(s, c, from + 1, from + 1, next);
    } else {
        lemma_pieces_from(s, c, start, from + 1, done);
    }
}

/// A text is its pieces with the separator between each two of them, and no piece holds the
/// separator.
pub proof fn lemma_pieces_make_the_text(s: Text, c: char)
    ensures
        text::pieces(s, c).len() > 0,
        with_between(text::pieces(s, c), c) == s,
        forall|k: int|
            0 <= k < text::pieces(s, c).len() ==> lacks(#[trigger] text::pieces(s, c)[k], c),
{
    lemma_pieces_from(s, c, 0, 0, Seq::empty());
}

proof fn lemma_last_split_is_unique(front: Text, x: Text, other: Text, y: Text, c: char)
    requires
        front.push(c) + x == other.push(c) + y,
        lacks(x, c),
        lacks(y, c),
    ensures
        front == other,
        x == y,
{
    let s = front.push(c) + x;
    let t = other.push(c) + y;
    assert(s == t);
    assert(s.len() == front.len() + 1 + x.len());
    assert(t.len() == other.len() + 1 + y.len());
    assert(s[front.len() as int] == c);
    assert(t[other.len() as int] == c);
    if front.len() < other.len() {
        assert(s[other.len() as int] == x[other.len() - front.len() - 1]);
    } else if other.len() < front.len() {
        assert(t[front.len() as int] == y[front.len() - other.len() - 1]);
    }
    assert(front =~= s.take(front.len() as int));
    assert(other =~= t.take(front.len() as int));
    assert(x =~= s.subrange(front.len() as int + 1, s.len() as int));
    assert(y =~= t.subrange(front.len() as int + 1, t.len() as int));
}

proof fn lemma_between_is_unique(a: Seq<Text>, b: Seq<Text>, c: char)
    requires
        a.len() > 0,
        b.len() > 0,
        with_between(a, c) == with_between(b, c),
        forall|k: int| 0 <= k < a.len() ==> lacks(#[trigger] a[k], c),
        forall|k: int| 0 <= k < b.len() ==> lacks(#[trigger] b[k], c),
    ensures
        a == b,
    decreases a.len(),
{
    let x = a.last();
    let y = b.last();
    assert(lacks(a[a.len() - 1], c) && lacks(b[b.len() - 1], c));
    let front = with_between(a.drop_last(), c);
    let other = with_between(b.drop_last(), c);
    if a.len() > 1 && b.len() > 1 {
        assert(with_between(a, c) == front.push(c) + x);
        assert(with_between(b, c) == other.push(c) + y);
        lemma_last_split_is_unique(front, x, other, y, c);
        lemma_between_is_unique(a.drop_last(), b.drop_last(), c);
        assert(a =~= a.drop_last().push(x));
        assert(b =~= b.drop_last().push(y));
    } else if a.len() > 1 {
        assert(y == front.push(c) + x);
        assert(y[front.len() as int] == c);
    } else if b.len() > 1 {
        assert(x == other.push(c) + y);
        assert(x[other.len() as int] == c);
    } else {
        assert(a =~= b);
    }
}

/// Texts that hold no separator are the pieces of the text that they make with it.
pub proof fn lemma_pieces_are_what_was_joined(parts: Seq<Text>, c: char)
    requires
        parts.len() > 0,
        forall|k: int| 0 <= k < parts.len() ==> lacks(#[trigger] parts[k], c),
    ensures
        text::pieces(with_between(parts, c), c) == parts,
{
    let s = with_between(parts, c);
    lemma_pieces_make_the_text(s, c);
    lemma_between_is_unique(text::pieces(s, c), parts, c);
}

/// Joining with one character is putting it between each two.
pub proof fn lemma_joined_with_one(parts: Seq<Text>, c: char)
    ensures
        text::joined(parts, seq![c]) == with_between(parts, c),
    decreases parts.len(),
{
    if parts.len() > 1 {
        lemma_joined_with_one(parts.drop_last(), c);
        assert(with_between(parts.drop_last(), c) + seq![c] =~= with_between(
            parts.drop_last(),
            c,
        ).push(c));
    }
}

/// Joining one list behind another puts the separator between the two.
pub proof fn lemma_joined_lists(a: Seq<Text>, b: Seq<Text>, sep: Text)
    requires
        a.len() > 0,
        b.len() > 0,
    ensures
        text::joined(a + b, sep) == text::joined(a, sep) + sep + text::joined(b, sep),
    decreases b.len(),
{
    let all = a + b;
    assert(all.drop_last() =~= a + b.drop_last());
    assert(all.last() == b.last());
    if b.len() == 1 {
        assert(a + b.drop_last() =~= a);
    } else {
        lemma_joined_lists(a, b.drop_last(), sep);
        assert(text::joined(a, sep) + sep + text::joined(b.drop_last(), sep) + sep + b.last()
            =~= text::joined(a, sep) + sep + (text::joined(b.drop_last(), sep) + sep + b.last()));
    }
}

/// A text is parted at the first place of a character; where it holds the character nowhere, it
/// is not parted.
pub proof fn lemma_parted_at_the_first(s: Text, c: char)
    ensures
        text::parted(s, c) matches Some((left, right)) ==> s == left.push(c) + right && lacks(
            left,
            c,
        ),
        text::parted(s, c) is None <==> lacks(s, c),
{
    lemma_first_position(s, c, 0);
    if let Some((left, right)) = text::parted(s, c) {
        assert(s =~= left.push(c) + right);
    }
}

pub(crate) proof fn lemma_first_position(s: Text, c: char, from: int)
    requires
        0 <= from <= s.len(),
    ensures
        from <= text::position_of(s, c, from) <= s.len(),
        forall|i: int| from <= i < text::position_of(s, c, from) ==> #[trigger] s[i] != c,
        text::position_of(s, c, from) < s.len() ==> s[text::position_of(s, c, from)] == c,
    decreases s.len() - from,
{
    if from < s.len() && s[from] != c {
        lemma_first_position(s, c, from + 1);
    }
}

/// White space is what separates: the characters that show in ASCII are none, a space, a tab and
/// the ends of lines are.
pub proof fn lemma_white_space(c: char)
    ensures
        '!' <= c <= '~' ==> !text::is_white_space(c),
        c == ' ' || c == '\t' || c == '\n' || c == '\r' ==> text::is_white_space(c),
{
}

/// Whether a text is white space alone.
pub open spec fn is_blank(s: Text) -> bool {
    forall|i: int| 0 <= i < s.len() ==> text::is_white_space(#[trigger] s[i])
}

/// Whether a text neither starts nor ends with white space.
pub open spec fn is_trim(s: Text) -> bool {
    s.len() > 0 ==> !text::is_white_space(s[0]) && !text::is_white_space(s.last())
}

proof fn lemma_trimmed_start(s: Text) -> (before: Text)
    ensures
        is_blank(before),
        s == before + text::trimmed_start(s),
        text::trimmed_start(s).len() > 0 ==> !text::is_white_space(text::trimmed_start(s)[0]),
    decreases s.len(),
{
    if s.len() > 0 && text::is_white_space(s[0]) {
        let rest = s.subrange(1, s.len() as int);
        let before = lemma_trimmed_start(rest);
        let all = seq![s[0]] + before;
        assert(s =~= seq![s[0]] + rest);
        assert(all + text::trimmed_start(rest) =~= seq![s[0]] + (before + text::trimmed_start(rest)));
        assert forall|i: int| 0 <= i < all.len() implies text::is_white_space(#[trigger] all[i]) by {
            if i > 0 {
                assert(all[i] == before[i - 1]);
            }
        }
        all
    } else {
        assert(s =~= Seq::<char>::empty() + s);
        Seq::empty()
    }
}

proof fn lemma_trimmed_end(s: Text) -> (behind: Text)
    ensures
        is_blank(behind),
        s == text::trimmed_end(s) + behind,
        text::trimmed_end(s).len() > 0 ==> !text::is_white_space(text::trimmed_end(s).last())
            && text::trimmed_end(s)[0] == s[0],
    decreases s.len(),
{
    if s.len() > 0 && text::is_white_space(s.last()) {
        let behind = lemma_trimmed_end(s.drop_last());
        let all = behind.push(s.last());
        let kept = text::trimmed_end(s.drop_last());
        assert(s =~= s.drop_last().push(s.last()));
        assert(kept + all =~= (kept + behind).push(s.last()));
        assert forall|i: int| 0 <= i < all.len() implies text::is_white_space(#[trigger] all[i]) by {
            if i < behind.len() {
                assert(all[i] == behind[i]);
            }
        }
        all
    } else {
        assert(s =~= s + Seq::<char>::empty());
        Seq::empty()
    }
}

/// Trimming takes white space away at both ends and nothing else, and leaves none there.
pub proof fn lemma_trimming_takes_white_space_only(s: Text) -> (ends: (Text, Text))
    ensures
        is_blank(ends.0),
        is_blank(ends.1),
        s == ends.0 + text::trimmed(s) + ends.1,
        is_trim(text::trimmed(s)),
{
    let before = lemma_trimmed_start(s);
    let behind = lemma_trimmed_end(text::trimmed_start(s));
    assert(s =~= before + text::trimmed(s) + behind);
    (before, behind)
}

/// A replaced character becomes the replacement wherever it stands, and all else stays.
pub proof fn lemma_replaced_everywhere(before: Text, behind: Text, c: char, with: Text)
    ensures
        text::replaced(before.push(c) + behind, c, with) == text::replaced(before, c, with) + with
            + text::replaced(behind, c, with),
        lacks(before, c) ==> text::replaced(before, c, with) == before,
    decreases before.len(), behind.len(),
{
    if behind.len() == 0 {
        assert(before.push(c) + behind =~= before.push(c));
        assert(before.push(c).drop_last() =~= before);
        assert(text::replaced(before, c, with) + with + behind =~= text::replaced(before, c, with)
            + with);
    } else {
        let s = before.push(c) + behind;
        assert(s.drop_last() =~= before.push(c) + behind.drop_last());
        assert(s.last() == behind.last());
        lemma_replaced_everywhere(before, behind.drop_last(), c, with);
        let front = text::replaced(before, c, with) + with;
        let rest = text::replaced(behind.drop_last(), c, with);
        if behind.last() == c {
            assert(front + rest + with =~= front + (rest + with));
        } else {
            assert((front + rest).push(behind.last()) =~= front + rest.push(behind.last()));
        }
    }
    if lacks(before, c) && before.len() > 0 {
        assert(before[before.len() - 1] != c);
        assert forall|i: int| 0 <= i < before.len() - 1 implies #[trigger] before.drop_last()[i]
            != c by {
            assert(before.drop_last()[i] == before[i]);
        }
        lemma_replaced_everywhere(before.drop_last(), Seq::empty(), c, with);
        assert(before.drop_last().push(before.last()) =~= before);
    }
}

/// The last value under a key counts; where nothing stands under it, there is none.
pub proof fn lemma_last_value_counts(pairs: Seq<(Text, Text)>, key: Text)
    ensures
        text::value_of(pairs, key) matches Some(value) ==> exists|at: int|
            0 <= at < pairs.len() && #[trigger] pairs[at] == (key, value) && forall|i: int|
                at < i < pairs.len() ==> (#[trigger] pairs[i]).0 != key,
        text::value_of(pairs, key) is None <==> forall|i: int|
            0 <= i < pairs.len() ==> (#[trigger] pairs[i]).0 != key,
{
    lemma_last_among(pairs, key, pairs.len() as int);
}

proof fn lemma_last_among(pairs: Seq<(Text, Text)>, key: Text, count: int)
    requires
        0 <= count <= pairs.len(),
    ensures
        text::last_paired(pairs, key, count) matches Some(value) ==> exists|at: int|
            0 <= at < count && #[trigger] pairs[at] == (key, value) && forall|i: int|
                at < i < count ==> (#[trigger] pairs[i]).0 != key,
        text::last_paired(pairs, key, count) is None <==> forall|i: int|
            0 <= i < count ==> (#[trigger] pairs[i]).0 != key,
    decreases count,
{
    if count > 0 {
        if pairs[count - 1].0 == key {
            assert(pairs[count - 1] == (key, pairs[count - 1].1));
        } else {
            lemma_last_among(pairs, key, count - 1);
        }
    }
}

/// Whether texts agree before a position and the first is less there, or ends there.
pub open spec fn is_less_at(a: Text, b: Text, at: int) -> bool {
    &&& 0 <= at <= a.len()
    &&& at < b.len()
    &&& a.take(at) == b.take(at)
    &&& at < a.len() ==> a[at] < b[at]
}

proof fn lemma_order_from(a: Text, b: Text, from: int)
    requires
        0 <= from <= a.len(),
        from <= b.len(),
        a.take(from) == b.take(from),
    ensures
        text::order_from(a, b, from) == Order::Less ==> exists|at: int|
            #[trigger] is_less_at(a, b, at),
        text::order_from(a, b, from) == Order::Greater ==> exists|at: int|
            #[trigger] is_less_at(b, a, at),
        text::order_from(a, b, from) == Order::Equal ==> a == b,
    decreases a.len() - from,
{
    if from < a.len() && from < b.len() && a[from] == b[from] {
        assert(a.take(from + 1) =~= a.take(from).push(a[from]));
        assert(b.take(from + 1) =~= b.take(from).push(b[from]));
        lemma_order_from(a, b, from + 1);
    } else if from == a.len() && from == b.len() {
        assert(a =~= a.take(from));
        assert(b =~= b.take(from));
    } else if from == a.len() || (from < b.len() && a[from] < b[from]) {
        assert(is_less_at(a, b, from));
    } else {
        assert(is_less_at(b, a, from));
    }
}

/// Texts are ordered by the first character in which they differ, and a text that goes on is
/// greater than one that ends there.
pub proof fn lemma_first_difference_orders_texts(a: Text, b: Text)
    ensures
        text::text_order(a, b) == Order::Less ==> exists|at: int| #[trigger] is_less_at(a, b, at),
        text::text_order(a, b) == Order::Greater ==> exists|at: int|
            #[trigger] is_less_at(b, a, at),
        text::text_order(a, b) == Order::Equal <==> a == b,
{
    assert(a.take(0) =~= b.take(0));
    lemma_order_from(a, b, 0);
    text::lemma_order_equal(a, b, 0);
}

/// The numeral of a number stands for it, in decimal digits without a leading zero.
pub proof fn lemma_numerals_stand_for_their_numbers(n: nat)
    ensures
        version_laws::number(text::numeral(n)) == n,
        text::numeral(n).len() > 0,
        forall|i: int|
            0 <= i < text::numeral(n).len() ==> '0' <= #[trigger] text::numeral(n)[i] <= '9',
        n > 0 ==> text::numeral(n)[0] != '0',
        n == 0 ==> text::numeral(n).len() == 1,
    decreases n,
{
    let s = text::numeral(n);
    if n < 10 {
        assert(s.drop_last() =~= Seq::<char>::empty());
        assert(version_laws::number(Seq::<char>::empty()) == 0);
        assert(s.last() == text::digit(n));
    } else {
        lemma_numerals_stand_for_their_numbers(n / 10);
        assert(s.drop_last() =~= text::numeral(n / 10));
        assert(s.last() == text::digit(n % 10));
        assert(n / 10 > 0);
        assert(s[0] == text::numeral(n / 10)[0]);
        assert forall|i: int| 0 <= i < s.len() implies '0' <= #[trigger] s[i] <= '9' by {
            if i < s.len() - 1 {
                assert(s[i] == text::numeral(n / 10)[i]);
            }
        }
    }
}

/// A word that needs no quotes: it holds neither white space nor a double quote.
pub open spec fn is_bare(word: Text) -> bool {
    &&& word.len() > 0
    &&& forall|i: int|
        0 <= i < word.len() ==> !text::is_white_space(#[trigger] word[i]) && word[i] != '"'
}

proof fn lemma_bare_word(s: Text, from: int, end: int, current: Text, done: Seq<Text>)
    requires
        0 <= from <= end <= s.len(),
        forall|i: int|
            from <= i < end ==> !text::is_white_space(#[trigger] s[i]) && s[i] != '"',
    ensures
        tokens::tokens_from(s, from, false, current, done) == tokens::tokens_from(
            s,
            end,
            false,
            current + s.subrange(from, end),
            done,
        ),
    decreases end - from,
{
    if from < end {
        lemma_bare_word(s, from + 1, end, current.push(s[from]), done);
        assert(current.push(s[from]) + s.subrange(from + 1, end) =~= current + s.subrange(
            from,
            end,
        ));
    } else {
        assert(current + s.subrange(from, end) =~= current);
    }
}

proof fn lemma_bare_words(words: Seq<Text>, s: Text, from: int, done: Seq<Text>)
    requires
        0 <= from <= s.len(),
        words.len() > 0,
        forall|k: int| 0 <= k < words.len() ==> is_bare(#[trigger] words[k]),
        s.subrange(from, s.len() as int) == with_spaces(words),
    ensures
        tokens::tokens_from(s, from, false, Seq::empty(), done) == Ok::<Seq<Text>, Seq<Text>>(
            done + words,
        ),
    decreases words.len(),
{
    let word = words[0];
    let rest = s.subrange(from, s.len() as int);
    let end: int = from + word.len();
    let tail = if words.len() == 1 {
        Seq::empty()
    } else {
        seq![' '] + with_spaces(words.drop_first())
    };
    assert(rest =~= word + tail);
    assert(rest.len() == s.len() - from);
    assert forall|i: int| from <= i < end implies !text::is_white_space(#[trigger] s[i]) && s[i]
        != '"' by {
        assert(s[i] == rest[i - from]);
        assert(rest[i - from] == word[i - from]);
    }
    lemma_bare_word(s, from, end, Seq::empty(), done);
    assert(Seq::<char>::empty() + s.subrange(from, end) =~= word) by {
        assert forall|i: int| 0 <= i < word.len() implies s[from + i] == #[trigger] word[i] by {
            assert(s[from + i] == rest[i]);
        }
    }
    if words.len() == 1 {
        assert(end == s.len());
        assert(done.push(word) =~= done + words);
    } else {
        let others = words.drop_first();
        assert(rest[word.len() as int] == ' ');
        assert(s[end] == ' ');
        assert forall|k: int| 0 <= k < others.len() implies is_bare(#[trigger] others[k]) by {
            assert(others[k] == words[k + 1]);
        }
        assert(s.subrange(end + 1, s.len() as int) =~= with_spaces(others)) by {
            assert(rest.subrange(word.len() as int + 1, rest.len() as int) =~= with_spaces(others));
            assert(s.subrange(end + 1, s.len() as int) =~= rest.subrange(
                word.len() as int + 1,
                rest.len() as int,
            ));
        }
        lemma_bare_words(others, s, end + 1, done.push(word));
        assert(done.push(word) + others =~= done + words);
    }
}

/// Words with a space between each two of them.
pub open spec fn with_spaces(words: Seq<Text>) -> Text
    decreases words.len(),
{
    if words.len() == 0 {
        Seq::empty()
    } else if words.len() == 1 {
        words[0]
    } else {
        words[0] + seq![' '] + with_spaces(words.drop_first())
    }
}

/// Words without white space and quotes are read as they stand, one by one.
pub proof fn lemma_bare_words_are_read_as_they_are(words: Seq<Text>)
    requires
        forall|k: int| 0 <= k < words.len() ==> is_bare(#[trigger] words[k]),
    ensures
        tokens::tokens_of(with_spaces(words)) == Ok::<Seq<Text>, Seq<Text>>(words),
{
    let s = with_spaces(words);
    if words.len() > 0 {
        assert(s.subrange(0, s.len() as int) =~= s);
        lemma_bare_words(words, s, 0, Seq::empty());
        assert(Seq::<Text>::empty() + words =~= words);
    } else {
        assert(words =~= Seq::<Text>::empty());
    }
}

} // verus!
