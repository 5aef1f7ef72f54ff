//! Text as a sequence of characters: searching, trimming, splitting and joining.

use vstd::prelude::*;

verus! {

/// `String::push` appends the given character to the end of the string.
pub assume_specification[ std::string::String::push ](string: &mut String, ch: char)
    ensures
        final(string)@ == old(string)@.push(ch),
;

/// The characters of `text`, in order.
pub fn chars_of(text: &str) -> (chars: Vec<char>)
    ensures
        chars@ == text@,
{
    let mut chars: Vec<char> = Vec::new();
    for c in it: text.chars()
        invariant
            it.seq() == text@,
            chars@ == text@.take(it.index() as int),
    {
        chars.push(c);
        assert(text@.take(it.index() as int + 1) == text@.take(it.index() as int).push(c));
    }
    chars
}

/// The characters of `text` from `from` up to but not including `to`.
pub fn slice(text: &str, from: usize, to: usize) -> (part: String)
    requires
        from <= to <= text@.len(),
    ensures
        part@ == text@.subrange(from as int, to as int),
{
    text.substring_char(from, to).to_owned()
}

/// Whether two texts hold the same characters.
pub fn same(left: &str, right: &str) -> (equal: bool)
    ensures
        equal == (left@ == right@),
{
    left.to_owned() == right.to_owned()
}

/// Concatenation of two texts.
pub fn cat2(a: &str, b: &str) -> (text: String)
    ensures
        text@ == a@ + b@,
{
    let mut text = String::from_str(a);
    text.append(b);
    text
}

/// Concatenation of three texts.
pub fn cat3(a: &str, b: &str, c: &str) -> (text: String)
    ensures
        text@ == a@ + b@ + c@,
{
    let mut text = cat2(a, b);
    text.append(c);
    text
}

/// Concatenation of four texts.
pub fn cat4(a: &str, b: &str, c: &str, d: &str) -> (text: String)
    ensures
        text@ == a@ + b@ + c@ + d@,
{
    let mut text = cat3(a, b, c);
    text.append(d);
    text
}

/// Concatenation of five texts.
pub fn cat5(a: &str, b: &str, c: &str, d: &str, e: &str) -> (text: String)
    ensures
        text@ == a@ + b@ + c@ + d@ + e@,
{
    let mut text = cat4(a, b, c, d);
    text.append(e);
    text
}

/// Concatenation of six texts.
pub fn cat6(a: &str, b: &str, c: &str, d: &str, e: &str, f: &str) -> (text: String)
    ensures
        text@ == a@ + b@ + c@ + d@ + e@ + f@,
{
    let mut text = cat5(a, b, c, d, e);
    text.append(f);
    text
}

/// Concatenation of seven texts.
pub fn cat7(a: &str, b: &str, c: &str, d: &str, e: &str, f: &str, g: &str) -> (text: String)
    ensures
        text@ == a@ + b@ + c@ + d@ + e@ + f@ + g@,
{
    let mut text = cat6(a, b, c, d, e, f);
    text.append(g);
    text
}

/// A character with the Unicode `White_Space` property.
pub open spec fn is_white_space(c: char) -> bool {
    ||| '\u{9}' <= c <= '\u{d}'
    ||| c == '\u{20}' || c == '\u{85}' || c == '\u{a0}' || c == '\u{1680}'
    ||| '\u{2000}' <= c <= '\u{200a}'
    ||| c == '\u{2028}' || c == '\u{2029}' || c == '\u{202f}' || c == '\u{205f}'
    ||| c == '\u{3000}'
}

/// Decides the Unicode `White_Space` property.
pub fn white_space(c: char) -> (yes: bool)
    ensures
        yes == is_white_space(c),
{
    ('\u{9}' <= c && c <= '\u{d}') || c == '\u{20}' || c == '\u{85}' || c == '\u{a0}'
        || c == '\u{1680}' || ('\u{2000}' <= c && c <= '\u{200a}') || c == '\u{2028}'
        || c == '\u{2029}' || c == '\u{202f}' || c == '\u{205f}' || c == '\u{3000}'
}

/// `s` without its leading white space.
pub open spec fn trimmed_start(s: Seq<char>) -> Seq<char>
    decreases s.len(),
{
    if s.len() > 0 && is_white_space(s[0]) {
        trimmed_start(s.subrange(1, s.len() as int))
    } else {
        s
    }
}

/// `s` without its trailing white space.
pub open spec fn trimmed_end(s: Seq<char>) -> Seq<char>
    decreases s.len(),
{
    if s.len() > 0 && is_white_space(s.last()) {
        trimmed_end(s.drop_last())
    } else {
        s
    }
}

/// `s` without white space at either end.
pub open spec fn trimmed(s: Seq<char>) -> Seq<char> {
    trimmed_end(trimmed_start(s))
}

/// Removes white space from both ends.
pub fn trim(text: &str) -> (result: String)
    ensures
        result@ == trimmed(text@),
{
    let chars = chars_of(text);
    let mut from: usize = 0;
    assert(text@.subrange(0, text@.len() as int) == text@);
    while from < chars.len() && white_space(chars[from])
        invariant
            chars@ == text@,
            from <= chars.len(),
            trimmed_start(text@) == trimmed_start(text@.subrange(from as int, text@.len() as int)),
        decreases chars.len() - from,
    {
        assert(text@.subrange(from as int, text@.len() as int).subrange(
            1,
            text@.len() - from,
        ) == text@.subrange(from as int + 1, text@.len() as int));
        from = from + 1;
    }
    let ghost start = text@.subrange(from as int, text@.len() as int);
    assert(trimmed_start(text@) == start);
    let mut to: usize = chars.len();
    while to > from && white_space(chars[to - 1])
        invariant
            chars@ == text@,
            from <= to <= chars.len(),
            trimmed_end(start) == trimmed_end(text@.subrange(from as int, to as int)),
        decreases to,
    {
        assert(text@.subrange(from as int, to as int).drop_last() == text@.subrange(
            from as int,
            to - 1,
        ));
        to = to - 1;
    }
    slice(text, from, to)
}

/// Whether `s` begins with `prefix`.
pub open spec fn has_prefix(s: Seq<char>, prefix: Seq<char>) -> bool {
    prefix.len() <= s.len() && s.subrange(0, prefix.len() as int) == prefix
}

/// Whether `s` ends with `suffix`.
pub open spec fn has_suffix(s: Seq<char>, suffix: Seq<char>) -> bool {
    suffix.len() <= s.len() && s.subrange(s.len() - suffix.len(), s.len() as int) == suffix
}

/// What follows the first `count` characters of `s`.
pub open spec fn after(s: Seq<char>, count: int) -> Seq<char> {
    s.subrange(count, s.len() as int)
}

/// Decides whether `text` begins with `prefix`.
pub fn starts_with(text: &str, prefix: &str) -> (yes: bool)
    ensures
        yes == has_prefix(text@, prefix@),
{
    let size = prefix.unicode_len();
    size <= text.unicode_len() && same(text.substring_char(0, size), prefix)
}

/// Decides whether `text` ends with `suffix`.
pub fn ends_with(text: &str, suffix: &str) -> (yes: bool)
    ensures
        yes == has_suffix(text@, suffix@),
{
    let size = suffix.unicode_len();
    let length = text.unicode_len();
    size <= length && same(text.substring_char(length - size, length), suffix)
}

/// What follows `prefix` in `text`, where `text` begins with it.
pub fn strip_prefix(text: &str, prefix: &str) -> (rest: Option<String>)
    ensures
        rest.deep_view() == (if has_prefix(text@, prefix@) {
            Some(after(text@, prefix@.len() as int))
        } else {
            None
        }),
{
    if starts_with(text, prefix) {
        Some(slice(text, prefix.unicode_len(), text.unicode_len()))
    } else {
        None
    }
}

/// What precedes `suffix` in `text`, where `text` ends with it.
pub fn strip_suffix(text: &str, suffix: &str) -> (rest: Option<String>)
    ensures
        rest.deep_view() == (if has_suffix(text@, suffix@) {
            Some(text@.subrange(0, text@.len() - suffix@.len()))
        } else {
            None
        }),
{
    if ends_with(text, suffix) {
        Some(slice(text, 0, text.unicode_len() - suffix.unicode_len()))
    } else {
        None
    }
}

/// The position of the first occurrence of `c` in `s` at or behind `from`, or the length.
pub open spec fn position_of(s: Seq<char>, c: char, from: int) -> int
    decreases s.len() - from,
{
    if from >= s.len() {
        s.len() as int
    } else if s[from] == c {
        from
    } else {
        position_of(s, c, from + 1)
    }
}

/// Finds the first occurrence of `c` in `chars` at or behind `from`.
pub fn find_char(chars: &Vec<char>, c: char, from: usize) -> (position: usize)
    requires
        from <= chars.len(),
    ensures
        position == position_of(chars@, c, from as int),
        from <= position <= chars.len(),
        position < chars.len() ==> chars@[position as int] == c,
{
    let mut position: usize = from;
    while position < chars.len() && chars[position] != c
        invariant
            from <= position <= chars.len(),
            position_of(chars@, c, from as int) == position_of(chars@, c, position as int),
        decreases chars.len() - position,
    {
        position = position + 1;
    }
    position
}

/// The pieces of `s` from `start` on between separators `sep`, put behind `done`; what lies
/// between `start` and `from` is known to hold no separator.
pub open spec fn pieces_from(
    s: Seq<char>,
    sep: char,
    start: int,
    from: int,
    done: Seq<Seq<char>>,
) -> Seq<Seq<char>>
    decreases s.len() - from,
{
    if from >= s.len() {
        done.push(s.subrange(start, s.len() as int))
    } else if s[from] == sep {
        pieces_from(s, sep, from + 1, from + 1, done.push(s.subrange(start, from)))
    } else {
        pieces_from(s, sep, start, from + 1, done)
    }
}

/// The pieces of `s` between the separators `sep`: one more than there are separators.
pub open spec fn pieces(s: Seq<char>, sep: char) -> Seq<Seq<char>> {
    pieces_from(s, sep, 0, 0, Seq::empty())
}

/// Splits `text` at every `sep`.
pub fn split(text: &str, sep: char) -> (parts: Vec<String>)
    ensures
        parts.deep_view() == pieces(text@, sep),
        parts.len() > 0,
{
    let chars = chars_of(text);
    let mut parts: Vec<String> = Vec::new();
    let mut start: usize = 0;
    let mut from: usize = 0;
    assert(parts.deep_view() == Seq::<Seq<char>>::empty());
    while from < chars.len()
        invariant
            chars@ == text@,
            start <= from <= chars.len(),
            pieces(text@, sep) == pieces_from(
                text@,
                sep,
                start as int,
                from as int,
                parts.deep_view(),
            ),
        decreases chars.len() - from,
    {
        if chars[from] == sep {
            put(&mut parts, slice(text, start, from));
            start = from + 1;
        }
        from = from + 1;
    }
    put(&mut parts, slice(text, start, from));
    assert(parts.deep_view().len() == parts.len());
    parts
}

/// `line` without one trailing carriage return.
pub open spec fn chomped(line: Seq<char>) -> Seq<char> {
    if line.len() > 0 && line.last() == '\r' {
        line.drop_last()
    } else {
        line
    }
}

/// The lines of `s` from `start` on, put behind `done`; what lies between `start` and `from`
/// is known to hold no line feed.
pub open spec fn lines_from(
    s: Seq<char>,
    start: int,
    from: int,
    done: Seq<Seq<char>>,
) -> Seq<Seq<char>>
    decreases s.len() - from,
{
    if from >= s.len() {
        if start < s.len() {
            done.push(s.subrange(start, s.len() as int))
        } else {
            done
        }
    } else if s[from] == '\n' {
        lines_from(s, from + 1, from + 1, done.push(chomped(s.subrange(start, from))))
    } else {
        lines_from(s, start, from + 1, done)
    }
}

/// The lines of `s`: each ends at a line feed, with or without a carriage return before it,
/// and the last one may lack its line ending.
pub open spec fn lines_of(s: Seq<char>) -> Seq<Seq<char>> {
    lines_from(s, 0, 0, Seq::empty())
}

/// Splits `text` into lines.
pub fn lines(text: &str) -> (result: Vec<String>)
    ensures
        result.deep_view() == lines_of(text@),
{
    let chars = chars_of(text);
    let mut result: Vec<String> = Vec::new();
    let mut start: usize = 0;
    let mut from: usize = 0;
    assert(result.deep_view() == Seq::<Seq<char>>::empty());
    while from < chars.len()
        invariant
            chars@ == text@,
            start <= from <= chars.len(),
            lines_of(text@) == lines_from(text@, start as int, from as int, result.deep_view()),
        decreases chars.len() - from,
    {
        if chars[from] == '\n' {
            let end: usize = if from > start && chars[from - 1] == '\r' {
                from - 1
            } else {
                from
            };
            proof {
                let line = text@.subrange(start as int, from as int);
                assert(line.len() > 0 ==> line.drop_last() == text@.subrange(
                    start as int,
                    from - 1,
                ));
            }
            put(&mut result, slice(text, start, end));
            start = from + 1;
        }
        from = from + 1;
    }
    if start < from {
        put(&mut result, slice(text, start, from));
    }
    result
}

/// The texts of `parts` with `sep` between neighbours.
pub open spec fn joined(parts: Seq<Seq<char>>, sep: Seq<char>) -> Seq<char>
    decreases parts.len(),
{
    if parts.len() == 0 {
        Seq::empty()
    } else if parts.len() == 1 {
        parts[0]
    } else {
        joined(parts.drop_last(), sep) + sep + parts.last()
    }
}

/// Joins `parts` with `sep` between neighbours.
pub fn join(parts: &Vec<String>, sep: &str) -> (text: String)
    ensures
        text@ == joined(parts.deep_view(), sep@),
{
    let mut text = String::new();
    let mut index: usize = 0;
    assert(parts.deep_view().take(0) == Seq::<Seq<char>>::empty());
    while index < parts.len()
        invariant
            index <= parts.len(),
            text@ == joined(parts.deep_view().take(index as int), sep@),
        decreases parts.len() - index,
    {
        proof {
            let next = parts.deep_view().take(index as int + 1);
            assert(next.drop_last() == parts.deep_view().take(index as int));
            assert(next.last() == parts[index as int]@);
        }
        if index > 0 {
            text.append(sep);
        }
        text.append(&parts[index]);
        proof {
            if index == 0 {
                assert(text@ == parts[0]@);
            }
        }
        index = index + 1;
    }
    assert(parts.deep_view().take(index as int) == parts.deep_view());
    text
}

/// `s` with every `c` replaced by `with`.
pub open spec fn replaced(s: Seq<char>, c: char, with: Seq<char>) -> Seq<char>
    decreases s.len(),
{
    if s.len() == 0 {
        s
    } else if s.last() == c {
        replaced(s.drop_last(), c, with) + with
    } else {
        replaced(s.drop_last(), c, with).push(s.last())
    }
}

/// Replaces every `c` in `text` by `with`.
pub fn replace(text: &str, c: char, with: &str) -> (result: String)
    ensures
        result@ == replaced(text@, c, with@),
{
    let chars = chars_of(text);
    let mut result = String::new();
    let mut index: usize = 0;
    assert(text@.take(0) == Seq::<char>::empty());
    while index < chars.len()
        invariant
            chars@ == text@,
            index <= chars.len(),
            result@ == replaced(text@.take(index as int), c, with@),
        decreases chars.len() - index,
    {
        proof {
            let next = text@.take(index as int + 1);
            assert(next.drop_last() == text@.take(index as int));
        }
        if chars[index] == c {
            result.append(with);
        } else {
            result.push(chars[index]);
        }
        index = index + 1;
    }
    assert(text@.take(index as int) == text@);
    result
}

/// The decimal digit for a number below ten.
pub open spec fn digit(n: nat) -> char {
    if n == 0 {
        '0'
    } else if n == 1 {
        '1'
    } else if n == 2 {
        '2'
    } else if n == 3 {
        '3'
    } else if n == 4 {
        '4'
    } else if n == 5 {
        '5'
    } else if n == 6 {
        '6'
    } else if n == 7 {
        '7'
    } else if n == 8 {
        '8'
    } else {
        '9'
    }
}

/// The decimal numeral of `n`.
pub open spec fn numeral(n: nat) -> Seq<char>
    decreases n,
{
    if n < 10 {
        seq![digit(n)]
    } else {
        numeral(n / 10).push(digit(n % 10))
    }
}

/// Writes `n` in decimal.
pub fn decimal(n: usize) -> (text: String)
    ensures
        text@ == numeral(n as nat),
    decreases n,
{
    let unit: usize = n % 10;
    let last: char = if unit == 0 {
        '0'
    } else if unit == 1 {
        '1'
    } else if unit == 2 {
        '2'
    } else if unit == 3 {
        '3'
    } else if unit == 4 {
        '4'
    } else if unit == 5 {
        '5'
    } else if unit == 6 {
        '6'
    } else if unit == 7 {
        '7'
    } else if unit == 8 {
        '8'
    } else {
        '9'
    };
    let mut text = if n < 10 {
        String::new()
    } else {
        decimal(n / 10)
    };
    text.push(last);
    assert(n < 10 ==> text@ == seq![digit(n as nat)]);
    text
}

/// How one value stands to another in an order.
#[derive(Clone, Copy, Debug, PartialEq, Eq, Structural)]
pub enum Order {
    Less,
    Equal,
    Greater,
}

/// The lexicographic order of `a` and `b` by code point, from position `from` on.
pub open spec fn order_from(a: Seq<char>, b: Seq<char>, from: int) -> Order
    decreases a.len() - from,
{
    if from >= a.len() {
        if from >= b.len() {
            Order::Equal
        } else {
            Order::Less
        }
    } else if from >= b.len() {
        Order::Greater
    } else if a[from] < b[from] {
        Order::Less
    } else if a[from] > b[from] {
        Order::Greater
    } else {
        order_from(a, b, from + 1)
    }
}

/// The lexicographic order of `a` and `b` by code point.
pub open spec fn text_order(a: Seq<char>, b: Seq<char>) -> Order {
    order_from(a, b, 0)
}

/// The order of texts is transitive.
pub proof fn lemma_orders_chain(a: Seq<char>, b: Seq<char>, c: Seq<char>, from: int)
    requires
        0 <= from,
        order_from(a, b, from) != Order::Greater,
        order_from(b, c, from) != Order::Greater,
    ensures
        order_from(a, c, from) != Order::Greater,
        order_from(a, c, from) == Order::Equal ==> order_from(a, b, from)
            == Order::Equal && order_from(b, c, from) == Order::Equal,
        order_from(a, b, from) == Order::Equal && order_from(b, c, from)
            == Order::Equal ==> order_from(a, c, from) == Order::Equal,
    decreases a.len() - from,
{
    if from < a.len() && from < b.len() && from < c.len() && a[from] == b[from] && b[from]
        == c[from] {
        lemma_orders_chain(a, b, c, from + 1);
    }
}

/// The other way round, two texts stand in the opposite order.
pub proof fn lemma_order_reversed(a: Seq<char>, b: Seq<char>, from: int)
    requires
        0 <= from,
    ensures
        order_from(a, b, from) == Order::Greater <==> order_from(b, a, from)
            == Order::Less,
        order_from(a, b, from) == Order::Equal <==> order_from(b, a, from)
            == Order::Equal,
    decreases a.len() - from,
{
    if from < a.len() && from < b.len() && a[from] == b[from] {
        lemma_order_reversed(a, b, from + 1);
    }
}

/// Texts are equal in the order only where they are the same behind `from`.
pub proof fn lemma_order_equal(a: Seq<char>, b: Seq<char>, from: int)
    requires
        0 <= from <= a.len(),
        from <= b.len(),
        forall|i: int| 0 <= i < from ==> #[trigger] a[i] == b[i],
    ensures
        order_from(a, b, from) == Order::Equal <==> a == b,
    decreases a.len() - from,
{
    if from < a.len() && from < b.len() && a[from] == b[from] {
        lemma_order_equal(a, b, from + 1);
    } else if from == a.len() && from == b.len() {
        assert(a == b);
    }
}

/// Compares two texts lexicographically by code point.
pub fn order_texts(a: &str, b: &str) -> (order: Order)
    ensures
        order == text_order(a@, b@),
{
    let left = chars_of(a);
    let right = chars_of(b);
    let mut from: usize = 0;
    while from < left.len() && from < right.len() && left[from] == right[from]
        invariant
            left@ == a@,
            right@ == b@,
            from <= left.len(),
            from <= right.len(),
            text_order(a@, b@) == order_from(a@, b@, from as int),
        decreases left.len() - from,
    {
        from = from + 1;
    }
    if from >= left.len() {
        if from >= right.len() {
            Order::Equal
        } else {
            Order::Less
        }
    } else if from >= right.len() {
        Order::Greater
    } else if left[from] < right[from] {
        Order::Less
    } else {
        Order::Greater
    }
}

/// Appends `item` to `items`.
pub fn put<T: DeepView>(items: &mut Vec<T>, item: T)
    ensures
        final(items).deep_view() == old(items).deep_view().push(item.deep_view()),
{
    items.push(item);
    assert(items.deep_view() == old(items).deep_view().push(item.deep_view()));
}

/// Values that can be copied without losing anything their model shows.
pub trait Dup: DeepView + Sized {
    /// A copy of `self`.
    fn dup(&self) -> (copy: Self)
        ensures
            copy.deep_view() == self.deep_view(),
    ;
}

impl Dup for String {
    fn dup(&self) -> (copy: Self) {
        self.clone()
    }
}

impl<T: Dup> Dup for Option<T> {
    fn dup(&self) -> (copy: Self) {
        match self {
            Some(value) => Some(value.dup()),
            None => None,
        }
    }
}

impl<T: Dup> Dup for Vec<T> {
    fn dup(&self) -> (copy: Self) {
        dup_range(self, 0, self.len())
    }
}

impl<S: Dup, T: Dup> Dup for (S, T) {
    fn dup(&self) -> (copy: Self) {
        (self.0.dup(), self.1.dup())
    }
}

/// Copies of the items of `items` from `from` up to but not including `to`.
pub fn dup_range<T: Dup>(items: &Vec<T>, from: usize, to: usize) -> (copy: Vec<T>)
    requires
        from <= to <= items.len(),
    ensures
        copy.deep_view() == items.deep_view().subrange(from as int, to as int),
        from == 0 && to == items.len() ==> copy.deep_view() == items.deep_view(),
{
    let mut copy: Vec<T> = Vec::new();
    let mut index: usize = from;
    while index < to
        invariant
            from <= index <= to <= items.len(),
            copy.deep_view() == items.deep_view().subrange(from as int, index as int),
        decreases to - index,
    {
        put(&mut copy, items[index].dup());
        index = index + 1;
        assert(copy.deep_view() == items.deep_view().subrange(from as int, index as int));
    }
    copy
}

/// Appends copies of `more` to `items`.
pub fn put_all<T: Dup>(items: &mut Vec<T>, more: &Vec<T>)
    ensures
        final(items).deep_view() == old(items).deep_view() + more.deep_view(),
{
    let mut index: usize = 0;
    assert(items.deep_view() == old(items).deep_view() + more.deep_view().take(0));
    while index < more.len()
        invariant
            index <= more.len(),
            items.deep_view() == old(items).deep_view() + more.deep_view().take(index as int),
        decreases more.len() - index,
    {
        put(items, more[index].dup());
        index = index + 1;
        assert(items.deep_view() == old(items).deep_view() + more.deep_view().take(index as int));
    }
    assert(more.deep_view().take(index as int) == more.deep_view());
}

/// Decides whether `value` is among `values`.
pub fn contains_text(values: &Vec<String>, value: &str) -> (yes: bool)
    ensures
        yes == values.deep_view().contains(value@),
{
    let mut index: usize = 0;
    while index < values.len()
        invariant
            index <= values.len(),
            forall|i: int| 0 <= i < index ==> values.deep_view()[i] != value@,
        decreases values.len() - index,
    {
        if same(&values[index], value) {
            assert(values.deep_view()[index as int] == value@);
            return true;
        }
        index = index + 1;
    }
    false
}

/// `values` with every value kept only where it first occurs.
pub open spec fn distinct<A>(values: Seq<A>) -> Seq<A>
    decreases values.len(),
{
    if values.len() == 0 {
        values
    } else {
        let kept = distinct(values.drop_last());
        if kept.contains(values.last()) {
            kept
        } else {
            kept.push(values.last())
        }
    }
}

/// Drops every value that occurred before.
pub fn dedup_strings(values: &Vec<String>) -> (kept: Vec<String>)
    ensures
        kept.deep_view() == distinct(values.deep_view()),
{
    let mut kept: Vec<String> = Vec::new();
    let mut index: usize = 0;
    assert(kept.deep_view() == Seq::<Seq<char>>::empty());
    assert(values.deep_view().take(0) == Seq::<Seq<char>>::empty());
    while index < values.len()
        invariant
            index <= values.len(),
            kept.deep_view() == distinct(values.deep_view().take(index as int)),
        decreases values.len() - index,
    {
        proof {
            let next = values.deep_view().take(index as int + 1);
            assert(next.drop_last() == values.deep_view().take(index as int));
        }
        if !contains_text(&kept, &values[index]) {
            put(&mut kept, values[index].clone());
        }
        index = index + 1;
    }
    assert(values.deep_view().take(index as int) == values.deep_view());
    kept
}

/// The position of the first text at or behind `from` that is not less than `value`.
pub open spec fn text_slot(values: Seq<Seq<char>>, value: Seq<char>, from: int) -> int
    decreases values.len() - from,
{
    if from >= values.len() {
        values.len() as int
    } else if text_order(values[from], value) == Order::Less {
        text_slot(values, value, from + 1)
    } else {
        from
    }
}

/// An ordered list of texts with `value` among them.
pub open spec fn with_text(values: Seq<Seq<char>>, value: Seq<char>) -> Seq<Seq<char>> {
    let slot = text_slot(values, value, 0);
    if slot < values.len() && values[slot] == value {
        values
    } else {
        values.insert(slot, value)
    }
}

/// Puts `value` into an ordered list of texts, unless it is there.
pub fn insert_text(values: &mut Vec<String>, value: &str)
    ensures
        final(values).deep_view() == with_text(old(values).deep_view(), value@),
{
    let mut slot: usize = 0;
    while slot < values.len() && order_texts(&values[slot], value) == Order::Less
        invariant
            slot <= values.len(),
            *values == *old(values),
            text_slot(values.deep_view(), value@, 0) == text_slot(
                values.deep_view(),
                value@,
                slot as int,
            ),
        decreases values.len() - slot,
    {
        assert(values.deep_view()[slot as int] == values[slot as int]@);
        slot = slot + 1;
    }
    proof {
        if slot < values.len() {
            assert(values.deep_view()[slot as int] == values[slot as int]@);
        }
    }
    if slot < values.len() && same(&values[slot], value) {
        return;
    }
    values.insert(slot, value.to_owned());
    assert(values.deep_view() == old(values).deep_view().insert(slot as int, value@));
}

/// `s` parted at the first `c`, which belongs to neither part.
pub open spec fn parted(s: Seq<char>, c: char) -> Option<(Seq<char>, Seq<char>)> {
    let end = position_of(s, c, 0);
    if end < s.len() {
        Some((s.subrange(0, end), s.subrange(end + 1, s.len() as int)))
    } else {
        None
    }
}

/// Parts `text` at the first `c`.
pub fn split_once(text: &str, c: char) -> (parts: Option<(String, String)>)
    ensures
        parts.deep_view() == parted(text@, c),
{
    let chars = chars_of(text);
    let end = find_char(&chars, c, 0);
    if end < chars.len() {
        Some((slice(text, 0, end), slice(text, end + 1, chars.len())))
    } else {
        None
    }
}

/// What the last of the first `count` pairs under `key` holds.
pub open spec fn last_paired(
    pairs: Seq<(Seq<char>, Seq<char>)>,
    key: Seq<char>,
    count: int,
) -> Option<Seq<char>>
    decreases count,
{
    if count <= 0 {
        None
    } else if pairs[count - 1].0 == key {
        Some(pairs[count - 1].1)
    } else {
        last_paired(pairs, key, count - 1)
    }
}

/// What the last of the pairs under `key` holds.
pub open spec fn value_of(pairs: Seq<(Seq<char>, Seq<char>)>, key: Seq<char>) -> Option<Seq<char>> {
    last_paired(pairs, key, pairs.len() as int)
}

proof fn lemma_paired_prefix(
    pairs: Seq<(Seq<char>, Seq<char>)>,
    pair: (Seq<char>, Seq<char>),
    key: Seq<char>,
    count: int,
)
    requires
        0 <= count <= pairs.len(),
    ensures
        last_paired(pairs.push(pair), key, count) == last_paired(pairs, key, count),
    decreases count,
{
    if count > 0 {
        lemma_paired_prefix(pairs, pair, key, count - 1);
    }
}

/// A pair that is put behind others holds what its key stands for, and changes nothing else.
pub proof fn lemma_pushed_pair(
    pairs: Seq<(Seq<char>, Seq<char>)>,
    pair: (Seq<char>, Seq<char>),
    key: Seq<char>,
)
    ensures
        value_of(pairs.push(pair), key) == (if pair.0 == key {
            Some(pair.1)
        } else {
            value_of(pairs, key)
        }),
{
    let count = pairs.len() as int;
    assert(pairs.push(pair)[count] == pair);
    lemma_paired_prefix(pairs, pair, key, count);
}

proof fn lemma_unpaired(pairs: Seq<(Seq<char>, Seq<char>)>, key: Seq<char>, count: int, index: int)
    requires
        0 <= index < count <= pairs.len(),
        last_paired(pairs, key, count) is None,
    ensures
        pairs[index].0 != key,
    decreases count,
{
    if index < count - 1 {
        lemma_unpaired(pairs, key, count - 1, index);
    }
}

/// Whether no two pairs stand under the same key.
pub open spec fn keys_differ(pairs: Seq<(Seq<char>, Seq<char>)>) -> bool {
    forall|i: int, j: int|
        0 <= i < j < pairs.len() ==> (#[trigger] pairs[i]).0 != (#[trigger] pairs[j]).0
}

/// Drops every pair that a later one under the same key hides.
pub fn last_pairs(pairs: &Vec<(String, String)>) -> (kept: Vec<(String, String)>)
    ensures
        keys_differ(kept.deep_view()),
        forall|key: Seq<char>| #[trigger]
            value_of(kept.deep_view(), key) == value_of(pairs.deep_view(), key),
{
    let mut kept: Vec<(String, String)> = Vec::new();
    assert(kept.deep_view() == Seq::<(Seq<char>, Seq<char>)>::empty());
    let mut count: usize = pairs.len();
    while count > 0
        invariant
            count <= pairs.len(),
            keys_differ(kept.deep_view()),
            forall|key: Seq<char>|
                value_of(pairs.deep_view(), key) == match #[trigger] value_of(
                    kept.deep_view(),
                    key,
                ) {
                    Some(value) => Some(value),
                    None => last_paired(pairs.deep_view(), key, count as int),
                },
        decreases count,
    {
        let pair = &pairs[count - 1];
        let ghost before = kept.deep_view();
        let ghost view = pair.deep_view();
        assert(pairs.deep_view()[count - 1] == view);
        let known = find_value(&kept, &pair.0);
        if known.is_none() {
            put(&mut kept, (pair.0.clone(), pair.1.clone()));
            proof {
                assert(kept.deep_view() == before.push(view));
                assert forall|i: int, j: int| 0 <= i < j < before.push(view).len() implies (
                #[trigger] before.push(view)[i]).0 != (#[trigger] before.push(view)[j]).0 by {
                    if j == before.len() {
                        lemma_unpaired(before, view.0, before.len() as int, i);
                    }
                }
                assert forall|key: Seq<char>|
                    value_of(pairs.deep_view(), key) == match #[trigger] value_of(
                        kept.deep_view(),
                        key,
                    ) {
                        Some(value) => Some(value),
                        None => last_paired(pairs.deep_view(), key, count - 1),
                    } by {
                    lemma_pushed_pair(before, view, key);
                }
            }
        }
        count = count - 1;
    }
    kept
}

/// Looks up the last pair under `key`.
pub fn find_value(pairs: &Vec<(String, String)>, key: &str) -> (value: Option<String>)
    ensures
        value.deep_view() == value_of(pairs.deep_view(), key@),
{
    let mut count: usize = pairs.len();
    while count > 0
        invariant
            count <= pairs.len(),
            value_of(pairs.deep_view(), key@) == last_paired(
                pairs.deep_view(),
                key@,
                count as int,
            ),
        decreases count,
    {
        assert(pairs.deep_view()[count - 1] == pairs[count - 1].deep_view());
        if same(&pairs[count - 1].0, key) {
            return Some(pairs[count - 1].1.clone());
        }
        count = count - 1;
    }
    None
}

/// A list of texts.
pub fn words2(a: &str, b: &str) -> (list: Vec<String>)
    ensures
        list.deep_view() == seq![a@, b@],
{
    let list = vec![a.to_owned(), b.to_owned()];
    assert(list.deep_view() == seq![a@, b@]);
    list
}

/// A list of texts.
pub fn words3(a: &str, b: &str, c: &str) -> (list: Vec<String>)
    ensures
        list.deep_view() == seq![a@, b@, c@],
{
    let list = vec![a.to_owned(), b.to_owned(), c.to_owned()];
    assert(list.deep_view() == seq![a@, b@, c@]);
    list
}

/// A list of texts.
pub fn words4(a: &str, b: &str, c: &str, d: &str) -> (list: Vec<String>)
    ensures
        list.deep_view() == seq![a@, b@, c@, d@],
{
    let list = vec![a.to_owned(), b.to_owned(), c.to_owned(), d.to_owned()];
    assert(list.deep_view() == seq![a@, b@, c@, d@]);
    list
}

/// A list of texts.
pub fn words5(a: &str, b: &str, c: &str, d: &str, e: &str) -> (list: Vec<String>)
    ensures
        list.deep_view() == seq![a@, b@, c@, d@, e@],
{
    let list = vec![a.to_owned(), b.to_owned(), c.to_owned(), d.to_owned(), e.to_owned()];
    assert(list.deep_view() == seq![a@, b@, c@, d@, e@]);
    list
}

} // verus!
