//! What versions mean: how they stand to each other by the numbers and words that they are made
//! of, and which of them a request selects.

use vstd::prelude::*;
use crate::model::{PackageSpecView, RequestModeView, Text};
use crate::text;
use crate::text::Order;
use crate::version;
use crate::version::VersionTokenView;

verus! {

/// The number that decimal digits name.
pub open spec fn number(digits: Text) -> nat
    decreases digits.len(),
{
    if digits.len() == 0 {
        0
    } else {
        number(digits.drop_last()) * 10 + (digits.last() as nat - 48) as nat
    }
}

/// A decimal digit.
pub open spec fn digit(c: char) -> bool {
    '0' <= c <= '9'
}

/// A character that stands between the parts of a version.
pub open spec fn divides(c: char) -> bool {
    c == '.' || c == '-' || c == '_' || c == '+'
}

/// Decimal digits whose number fits in 64 bits.
pub open spec fn is_number(part: Text) -> bool {
    &&& part.len() > 0
    &&& forall|i: int| 0 <= i < part.len() ==> digit(#[trigger] part[i])
    &&& number(part) <= u64::MAX
}

/// Characters that are no digits and stand between no parts.
pub open spec fn is_word(part: Text) -> bool {
    &&& part.len() > 0
    &&& forall|i: int| 0 <= i < part.len() ==> !digit(#[trigger] part[i]) && !divides(part[i])
}

/// The parts of a version with what stands between each two of them.
pub open spec fn written(parts: Seq<Text>, joints: Seq<Text>) -> Text
    decreases parts.len(),
{
    if parts.len() == 0 {
        Seq::empty()
    } else if parts.len() == 1 {
        parts[0]
    } else {
        written(parts.drop_last(), joints.drop_last()) + joints.last() + parts.last()
    }
}

/// Whether numbers and words can be told apart in a version: one of `.`, `-`, `_` and `+` stands
/// between two of them, or nothing between a number and a word.
pub open spec fn readable(parts: Seq<Text>, joints: Seq<Text>) -> bool {
    &&& parts.len() > 0
    &&& joints.len() == parts.len() - 1
    &&& forall|i: int| 0 <= i < parts.len() ==> is_number(#[trigger] parts[i]) || is_word(parts[i])
    &&& forall|i: int|
        0 <= i < joints.len() ==> joins(parts[i], #[trigger] joints[i], parts[i + 1])
}

/// Whether something can stand between two parts of a version.
pub open spec fn joins(left: Text, joint: Text, right: Text) -> bool {
    ||| joint.len() == 1 && divides(joint[0])
    ||| joint.len() == 0 && is_number(left) != is_number(right)
}

/// Whether two parts of versions count as the same.
pub open spec fn same_part(a: Text, b: Text) -> bool {
    if is_number(a) && is_number(b) {
        number(a) == number(b)
    } else {
        a == b
    }
}

/// Whether a text stands before another in a dictionary.
pub open spec fn stands_before(a: Text, b: Text) -> bool {
    exists|k: int| #[trigger] parted_at(a, b, k)
}

/// Whether a text stands before another since they first differ at a position: there it ends, or
/// has the smaller character.
pub open spec fn parted_at(a: Text, b: Text, k: int) -> bool {
    &&& 0 <= k <= a.len()
    &&& k < b.len()
    &&& forall|i: int| 0 <= i < k ==> a[i] == b[i]
    &&& k == a.len() || a[k] < b[k]
}

/// Whether a part of a version is less than another: the smaller number, the word that stands
/// before, and a word beside a number.
pub open spec fn lesser_part(a: Text, b: Text) -> bool {
    if is_number(a) && is_number(b) {
        number(a) < number(b)
    } else if is_number(b) {
        true
    } else if is_number(a) {
        false
    } else {
        stands_before(a, b)
    }
}

/// Whether the first `count` parts of two versions count as the same.
pub open spec fn same_parts(a: Seq<Text>, b: Seq<Text>, count: int) -> bool {
    forall|i: int| 0 <= i < count ==> same_part(#[trigger] a[i], b[i])
}

spec fn token(part: Text) -> VersionTokenView {
    if is_number(part) {
        VersionTokenView::Number(number(part) as u64)
    } else {
        VersionTokenView::Text(part)
    }
}

spec fn tokens(parts: Seq<Text>) -> Seq<VersionTokenView> {
    parts.map_values(|part: Text| token(part))
}

proof fn lemma_number_is_the_value(digits: Text)
    ensures
        number(digits) == version::digits_value(digits),
    decreases digits.len(),
{
    if digits.len() > 0 {
        lemma_number_is_the_value(digits.drop_last());
    }
}

proof fn lemma_token_of_a_part(part: Text)
    requires
        is_number(part) || is_word(part),
    ensures
        version::run_token(part, is_number(part)) == token(part),
{
    lemma_number_is_the_value(part);
}

/// Where the part at a position of a version ends.
spec fn end_of(parts: Seq<Text>, joints: Seq<Text>, index: int) -> int {
    written(parts.take(index + 1), joints.take(index)).len() as int
}

proof fn lemma_written_prefix(parts: Seq<Text>, joints: Seq<Text>, index: int)
    requires
        joints.len() == parts.len() - 1,
        0 <= index < parts.len(),
    ensures
        end_of(parts, joints, index) <= written(parts, joints).len(),
        written(parts, joints).take(end_of(parts, joints, index)) == written(
            parts.take(index + 1),
            joints.take(index),
        ),
    decreases parts.len(),
{
    let whole = written(parts, joints);
    if index == parts.len() - 1 {
        assert(parts.take(index + 1) == parts);
        assert(joints.take(index) == joints);
        assert(whole.take(whole.len() as int) == whole);
    } else {
        lemma_written_prefix(parts.drop_last(), joints.drop_last(), index);
        assert(parts.drop_last().take(index + 1) == parts.take(index + 1));
        assert(joints.drop_last().take(index) == joints.take(index));
        let shorter = written(parts.drop_last(), joints.drop_last());
        let end = end_of(parts, joints, index);
        assert(whole == shorter + joints.last() + parts.last());
        assert(whole.take(end) == shorter.take(end));
    }
}

proof fn lemma_written_step(parts: Seq<Text>, joints: Seq<Text>, index: int)
    requires
        joints.len() == parts.len() - 1,
        0 <= index < joints.len(),
    ensures
        end_of(parts, joints, index + 1) == end_of(parts, joints, index) + joints[index].len()
            + parts[index + 1].len(),
        end_of(parts, joints, index + 1) <= written(parts, joints).len(),
        forall|k: int|
            0 <= k < joints[index].len() ==> #[trigger] joints[index][k] == written(parts, joints)[end_of(
                parts,
                joints,
                index,
            ) + k],
        forall|k: int|
            0 <= k < parts[index + 1].len() ==> #[trigger] parts[index + 1][k] == written(
                parts,
                joints,
            )[end_of(parts, joints, index) + joints[index].len() + k],
{
    let whole = written(parts, joints);
    let longer = written(parts.take(index + 2), joints.take(index + 1));
    let shorter = written(parts.take(index + 1), joints.take(index));
    assert(parts.take(index + 2).drop_last() == parts.take(index + 1));
    assert(joints.take(index + 1).drop_last() == joints.take(index));
    assert(longer == shorter + joints[index] + parts[index + 1]);
    lemma_written_prefix(parts, joints, index + 1);
    let end = end_of(parts, joints, index + 1);
    assert forall|k: int| 0 <= k < end implies #[trigger] longer[k] == whole[k] by {
        assert(whole.take(end)[k] == whole[k]);
    }
    assert forall|k: int| 0 <= k < joints[index].len() implies #[trigger] joints[index][k]
        == whole[shorter.len() + k] by {
        assert(longer[shorter.len() + k] == joints[index][k]);
    }
    assert forall|k: int| 0 <= k < parts[index + 1].len() implies #[trigger] parts[index + 1][k]
        == whole[shorter.len() + joints[index].len() + k] by {
        assert(longer[shorter.len() + joints[index].len() + k] == parts[index + 1][k]);
    }
}

/// Reading goes on through characters of one kind.
proof fn lemma_run_is_read(
    s: Text,
    from: int,
    to: int,
    run: Text,
    digits: bool,
    done: Seq<VersionTokenView>,
)
    requires
        0 <= from <= to <= s.len(),
        run.len() > 0,
        forall|i: int| from <= i < to ==> digit(#[trigger] s[i]) == digits && !divides(s[i]),
    ensures
        version::version_tokens_from(s, from, run, digits, done) == version::version_tokens_from(
            s,
            to,
            run + s.subrange(from, to),
            digits,
            done,
        ),
    decreases to - from,
{
    if from < to {
        lemma_run_is_read(s, from + 1, to, run.push(s[from]), digits, done);
        assert(run.push(s[from]) + s.subrange(from + 1, to) == run + s.subrange(from, to));
    } else {
        assert(run + s.subrange(from, to) == run);
    }
}

/// A part of a version is read as a whole.
proof fn lemma_part_is_read(
    s: Text,
    from: int,
    part: Text,
    run: Text,
    digits: bool,
    done: Seq<VersionTokenView>,
)
    requires
        0 <= from,
        from + part.len() <= s.len(),
        forall|k: int| 0 <= k < part.len() ==> #[trigger] part[k] == s[from + k],
        is_number(part) || is_word(part),
        run.len() > 0 ==> digits != is_number(part),
    ensures
        version::version_tokens_from(s, from, run, digits, done) == version::version_tokens_from(
            s,
            from + part.len(),
            part,
            is_number(part),
            if run.len() > 0 {
                done.push(version::run_token(run, digits))
            } else {
                done
            },
        ),
{
    let closed = if run.len() > 0 {
        done.push(version::run_token(run, digits))
    } else {
        done
    };
    let to = from + part.len();
    assert(part[0] == s[from]);
    let kind = is_number(part);
    assert(digit(part[0]) == kind && !divides(part[0]));
    let first = Seq::<char>::empty().push(s[from]);
    assert(version::version_tokens_from(s, from, run, digits, done)
        == version::version_tokens_from(s, from + 1, first, kind, closed)) by {
        if run.len() == 0 {
            assert(run.push(s[from]) == first);
        }
    }
    assert forall|i: int| from + 1 <= i < to implies digit(#[trigger] s[i]) == kind && !divides(
        s[i],
    ) by {
        assert(part[i - from] == s[i]);
    }
    lemma_run_is_read(s, from + 1, to, first, kind, closed);
    assert(first + s.subrange(from + 1, to) == part);
}

proof fn lemma_parts_are_read(parts: Seq<Text>, joints: Seq<Text>, index: int)
    requires
        readable(parts, joints),
        0 <= index < parts.len(),
    ensures
        version::version_tokens_from(
            written(parts, joints),
            end_of(parts, joints, index),
            parts[index],
            is_number(parts[index]),
            tokens(parts.take(index)),
        ) == tokens(parts),
    decreases parts.len() - index,
{
    let s = written(parts, joints);
    let end = end_of(parts, joints, index);
    let part = parts[index];
    let done = tokens(parts.take(index));
    lemma_token_of_a_part(part);
    assert(parts.take(index + 1) == parts.take(index).push(part));
    assert(tokens(parts.take(index + 1)) == done.push(token(part)));
    if index == parts.len() - 1 {
        assert(parts.take(index + 1) == parts);
        assert(joints.take(index) == joints);
    } else {
        lemma_written_step(parts, joints, index);
        lemma_parts_are_read(parts, joints, index + 1);
        assert(joins(parts[index], joints[index], parts[index + 1]));
        let next = parts[index + 1];
        if joints[index].len() == 1 {
            assert(joints[index][0] == s[end]);
            lemma_part_is_read(s, end + 1, next, Seq::empty(), false, done.push(token(part)));
        } else {
            lemma_part_is_read(s, end, next, part, is_number(part), done);
        }
    }
}

proof fn lemma_version_is_read(parts: Seq<Text>, joints: Seq<Text>)
    requires
        readable(parts, joints),
    ensures
        version::version_tokens_of(written(parts, joints)) == tokens(parts),
{
    let s = written(parts, joints);
    lemma_written_prefix(parts, joints, 0);
    let first = parts.take(1);
    assert(first[0] == parts[0]);
    assert(end_of(parts, joints, 0) == parts[0].len());
    assert forall|k: int| 0 <= k < parts[0].len() implies #[trigger] parts[0][k] == s[0 + k] by {
        assert(s.take(parts[0].len() as int)[k] == s[k]);
    }
    lemma_part_is_read(s, 0, parts[0], Seq::empty(), false, Seq::empty());
    assert(tokens(parts.take(0)) == Seq::<VersionTokenView>::empty());
    lemma_parts_are_read(parts, joints, 0);
}

proof fn lemma_dictionary_order(a: Text, b: Text, k: int, from: int)
    requires
        parted_at(a, b, k),
        0 <= from <= k,
    ensures
        text::order_from(a, b, from) == Order::Less,
    decreases k - from,
{
    if from < k {
        assert(a[from] == b[from]);
        lemma_dictionary_order(a, b, k, from + 1);
    }
}

proof fn lemma_same_parts_are_equal(a: Text, b: Text)
    requires
        is_number(a) || is_word(a),
        is_number(b) || is_word(b),
        same_part(a, b),
    ensures
        version::token_order(token(a), token(b)) == Order::Equal,
{
    if is_number(a) != is_number(b) {
        assert(a[0] == b[0]);
    }
    text::lemma_order_equal(a, b, 0);
}

proof fn lemma_lesser_parts_are_less(a: Text, b: Text)
    requires
        is_number(a) || is_word(a),
        is_number(b) || is_word(b),
        lesser_part(a, b),
    ensures
        version::token_order(token(a), token(b)) == Order::Less,
{
    if !is_number(a) && !is_number(b) {
        let k = choose|k: int| #[trigger] parted_at(a, b, k);
        lemma_dictionary_order(a, b, k, 0);
    }
}

proof fn lemma_same_parts_are_passed(a: Seq<Text>, b: Seq<Text>, from: int, to: int)
    requires
        0 <= from <= to <= a.len(),
        to <= b.len(),
        forall|i: int| 0 <= i < a.len() ==> is_number(#[trigger] a[i]) || is_word(a[i]),
        forall|i: int| 0 <= i < b.len() ==> is_number(#[trigger] b[i]) || is_word(b[i]),
        same_parts(a, b, to),
    ensures
        version::tokens_order(tokens(a), tokens(b), from) == version::tokens_order(
            tokens(a),
            tokens(b),
            to,
        ),
    decreases to - from,
{
    if from < to {
        assert(same_part(a[from], b[from]));
        lemma_same_parts_are_equal(a[from], b[from]);
        lemma_same_parts_are_passed(a, b, from + 1, to);
    }
}

/// Of two versions, the one is less that has the lesser part where their parts first differ,
/// wherever that is: the smaller number, or a word where the other has a number.
pub proof fn lemma_first_difference_decides(
    a: Seq<Text>,
    a_joints: Seq<Text>,
    b: Seq<Text>,
    b_joints: Seq<Text>,
    at: int,
)
    requires
        readable(a, a_joints),
        readable(b, b_joints),
        0 <= at < a.len(),
        at < b.len(),
        same_parts(a, b, at),
        lesser_part(a[at], b[at]),
    ensures
        version::version_order(written(a, a_joints), written(b, b_joints)) == Order::Less,
        version::version_order(written(b, b_joints), written(a, a_joints)) == Order::Greater,
{
    lemma_version_is_read(a, a_joints);
    lemma_version_is_read(b, b_joints);
    lemma_same_parts_are_passed(a, b, 0, at);
    lemma_lesser_parts_are_less(a[at], b[at]);
    version::lemma_version_order_reverses(written(a, a_joints), written(b, b_joints));
}

/// A version that goes on where the other has ended is the greater one, unless it goes on with
/// zero: then they are equal.
pub proof fn lemma_longer_versions_are_greater(
    a: Seq<Text>,
    a_joints: Seq<Text>,
    b: Seq<Text>,
    b_joints: Seq<Text>,
)
    requires
        readable(a, a_joints),
        readable(b, b_joints),
        a.len() < b.len(),
        same_parts(a, b, a.len() as int),
    ensures
        ({
            let zero = is_number(b[a.len() as int]) && number(b[a.len() as int]) == 0;
            let (left, right) = (written(a, a_joints), written(b, b_joints));
            &&& zero ==> version::version_order(left, right) == Order::Equal
                && version::version_order(right, left) == Order::Equal
            &&& !zero ==> version::version_order(left, right) == Order::Less
                && version::version_order(right, left) == Order::Greater
        }),
{
    lemma_version_is_read(a, a_joints);
    lemma_version_is_read(b, b_joints);
    lemma_same_parts_are_passed(a, b, 0, a.len() as int);
    version::lemma_version_order_reverses(written(a, a_joints), written(b, b_joints));
}

/// Versions whose parts all count as the same stand as their texts do in a dictionary; so only
/// one that is written the same is equal.
pub proof fn lemma_same_versions_stand_as_texts(
    a: Seq<Text>,
    a_joints: Seq<Text>,
    b: Seq<Text>,
    b_joints: Seq<Text>,
)
    requires
        readable(a, a_joints),
        readable(b, b_joints),
        a.len() == b.len(),
        same_parts(a, b, a.len() as int),
    ensures
        version::version_order(written(a, a_joints), written(b, b_joints)) == Order::Equal
            <==> written(a, a_joints) == written(b, b_joints),
        stands_before(written(a, a_joints), written(b, b_joints)) ==> version::version_order(
            written(a, a_joints),
            written(b, b_joints),
        ) == Order::Less,
{
    let (left, right) = (written(a, a_joints), written(b, b_joints));
    lemma_version_is_read(a, a_joints);
    lemma_version_is_read(b, b_joints);
    lemma_same_parts_are_passed(a, b, 0, a.len() as int);
    text::lemma_order_equal(left, right, 0);
    if stands_before(left, right) {
        let k = choose|k: int| #[trigger] parted_at(left, right, k);
        lemma_dictionary_order(left, right, k, 0);
    }
}

/// A number without needless zeros before it.
pub open spec fn is_plain_number(part: Text) -> bool {
    is_number(part) && (part.len() > 1 ==> part[0] != '0')
}

/// A version of plain numbers with one dot between each two of them.
pub open spec fn dotted(parts: Seq<Text>) -> Text {
    written(parts, Seq::new((parts.len() - 1) as nat, |i: int| seq!['.']))
}

/// Whether a version is made of plain numbers with dots between them.
pub open spec fn plain_numbers(parts: Seq<Text>) -> bool {
    &&& parts.len() > 0
    &&& forall|i: int| 0 <= i < parts.len() ==> is_plain_number(#[trigger] parts[i])
}

/// Whether numbers are less than as many others: where they first differ, the smaller one is on
/// the left.
pub open spec fn lesser_numbers(a: Seq<Text>, b: Seq<Text>) -> bool {
    exists|at: int| #[trigger] lesser_at(a, b, at)
}

/// Whether numbers first differ from others at a position, and are less there.
pub open spec fn lesser_at(a: Seq<Text>, b: Seq<Text>, at: int) -> bool {
    &&& 0 <= at < a.len()
    &&& at < b.len()
    &&& forall|i: int| 0 <= i < at ==> number(#[trigger] a[i]) == number(b[i])
    &&& number(a[at]) < number(b[at])
}

proof fn lemma_plain_numbers_differ(a: Text, b: Text)
    requires
        is_plain_number(a),
        is_plain_number(b),
        number(a) == number(b),
    ensures
        a == b,
    decreases a.len(),
{
    lemma_plain_digits_differ(a, b);
}

spec fn plain_digits(a: Text) -> bool {
    &&& a.len() > 0
    &&& forall|i: int| 0 <= i < a.len() ==> digit(#[trigger] a[i])
    &&& a.len() > 1 ==> a[0] != '0'
}

proof fn lemma_long_numbers_are_large(a: Text)
    requires
        plain_digits(a),
    ensures
        a.len() > 1 ==> number(a) >= 10,
        a.len() == 1 ==> number(a) < 10,
    decreases a.len(),
{
    if a.len() > 1 {
        let rest = a.drop_last();
        assert forall|i: int| 0 <= i < rest.len() implies digit(#[trigger] rest[i]) by {
            assert(rest[i] == a[i]);
        }
        assert(rest[0] == a[0]);
        lemma_long_numbers_are_large(rest);
        if rest.len() == 1 {
            assert(digit(rest[0]));
            assert(number(rest.drop_last()) == 0);
            assert(rest.last() == a[0]);
            assert(number(rest) >= 1);
        }
        assert(digit(a[a.len() - 1]));
    } else {
        assert(number(a.drop_last()) == 0);
        assert(a.last() == a[0]);
        assert(digit(a[0]));
    }
}

proof fn lemma_plain_digits_differ(a: Text, b: Text)
    requires
        plain_digits(a),
        plain_digits(b),
        number(a) == number(b),
    ensures
        a == b,
    decreases a.len(),
{
    lemma_long_numbers_are_large(a);
    lemma_long_numbers_are_large(b);
    assert(digit(a[a.len() - 1]) && digit(b[b.len() - 1]));
    let (x, y) = (a.drop_last(), b.drop_last());
    assert(a.len() == 1 <==> b.len() == 1);
    assert(a.last() == b.last() && number(x) == number(y));
    if a.len() > 1 {
        assert forall|i: int| 0 <= i < x.len() implies digit(#[trigger] x[i]) by {
            assert(x[i] == a[i]);
        }
        assert forall|i: int| 0 <= i < y.len() implies digit(#[trigger] y[i]) by {
            assert(y[i] == b[i]);
        }
        assert(x[0] == a[0] && y[0] == b[0]);
        lemma_plain_digits_differ(x, y);
    } else {
        assert(x == y);
    }
    assert(a == x.push(a.last()));
    assert(b == y.push(b.last()));
}

/// The first position from `from` on at which two lists of numbers differ, or their length.
spec fn difference(a: Seq<Text>, b: Seq<Text>, from: int) -> int
    decreases a.len() - from,
{
    if from >= a.len() || from >= b.len() || number(a[from]) != number(b[from]) {
        from
    } else {
        difference(a, b, from + 1)
    }
}

proof fn lemma_difference(a: Seq<Text>, b: Seq<Text>, from: int)
    requires
        a.len() == b.len(),
        0 <= from <= a.len(),
        forall|i: int| 0 <= i < from ==> number(#[trigger] a[i]) == number(b[i]),
    ensures
        from <= difference(a, b, from) <= a.len(),
        forall|i: int|
            0 <= i < difference(a, b, from) ==> number(#[trigger] a[i]) == number(b[i]),
        difference(a, b, from) < a.len() ==> number(a[difference(a, b, from)]) != number(
            b[difference(a, b, from)],
        ),
    decreases a.len() - from,
{
    if from < a.len() && number(a[from]) == number(b[from]) {
        lemma_difference(a, b, from + 1);
    }
}

proof fn lemma_plain_is_readable(parts: Seq<Text>)
    requires
        plain_numbers(parts),
    ensures
        readable(parts, Seq::new((parts.len() - 1) as nat, |i: int| seq!['.'])),
{
    let joints = Seq::new((parts.len() - 1) as nat, |i: int| seq!['.']);
    assert forall|i: int| 0 <= i < joints.len() implies joins(
        parts[i],
        #[trigger] joints[i],
        parts[i + 1],
    ) by {
        assert(joints[i][0] == '.');
    }
    assert forall|i: int| 0 <= i < parts.len() implies is_number(#[trigger] parts[i]) || is_word(
        parts[i],
    ) by {
        assert(is_plain_number(parts[i]));
    }
}

/// A version of plain numbers is less than one of as many if and only if the smaller number is
/// its own where they first differ; it is equal to itself alone.
pub proof fn lemma_dotted_versions_stand_as_their_numbers(a: Seq<Text>, b: Seq<Text>)
    requires
        plain_numbers(a),
        plain_numbers(b),
        a.len() == b.len(),
    ensures
        version::version_order(dotted(a), dotted(b)) == Order::Less <==> lesser_numbers(a, b),
        version::version_order(dotted(a), dotted(b)) == Order::Greater <==> lesser_numbers(b, a),
        version::version_order(dotted(a), dotted(b)) == Order::Equal <==> a == b,
{
    let dots = Seq::new((a.len() - 1) as nat, |i: int| seq!['.']);
    assert(dots == Seq::new((b.len() - 1) as nat, |i: int| seq!['.']));
    lemma_plain_is_readable(a);
    lemma_plain_is_readable(b);
    lemma_difference(a, b, 0);
    let at = difference(a, b, 0);
    assert forall|i: int| 0 <= i < at implies same_part(#[trigger] a[i], b[i]) by {
        assert(is_plain_number(a[i]) && is_plain_number(b[i]));
    }
    assert forall|i: int| 0 <= i < at implies same_part(#[trigger] b[i], a[i]) by {
        assert(is_plain_number(a[i]) && is_plain_number(b[i]));
    }
    assert forall|k: int| #[trigger] lesser_at(a, b, k) implies k == at by {
        if k < at {
            assert(number(a[k]) == number(b[k]));
        }
        if at < k {
            assert(number(a[at]) == number(b[at]));
        }
    }
    assert forall|k: int| #[trigger] lesser_at(b, a, k) implies k == at by {
        if k < at {
            assert(number(a[k]) == number(b[k]));
        }
        if at < k {
            assert(number(b[at]) == number(a[at]));
        }
    }
    if at < a.len() {
        assert(is_plain_number(a[at]) && is_plain_number(b[at]));
        if number(a[at]) < number(b[at]) {
            assert(lesser_at(a, b, at));
            lemma_first_difference_decides(a, dots, b, dots, at);
        } else {
            assert(lesser_at(b, a, at));
            lemma_first_difference_decides(b, dots, a, dots, at);
        }
    } else {
        assert forall|i: int| 0 <= i < a.len() implies a[i] == b[i] by {
            assert(number(a[i]) == number(b[i]));
            assert(is_plain_number(a[i]) && is_plain_number(b[i]));
            lemma_plain_numbers_differ(a[i], b[i]);
        }
        assert(a == b);
        version::lemma_version_order_reflexive(dotted(a));
    }
}

/// Whether the versions of candidates are made of equally many plain numbers with dots between
/// them; `parts` holds the numbers of each.
pub open spec fn versions_are(
    candidates: Seq<PackageSpecView>,
    parts: Seq<Seq<Text>>,
    count: nat,
) -> bool {
    &&& parts.len() == candidates.len()
    &&& forall|i: int|
        0 <= i < parts.len() ==> plain_numbers(#[trigger] parts[i]) && parts[i].len() == count
            && candidates[i].version == dotted(parts[i])
}

proof fn lemma_lesser_chains(a: Seq<Text>, b: Seq<Text>, c: Seq<Text>)
    requires
        a.len() == b.len() == c.len(),
        !lesser_numbers(a, b),
        !lesser_numbers(b, c),
    ensures
        !lesser_numbers(a, c),
{
    if lesser_numbers(a, c) {
        let k = choose|k: int| #[trigger] lesser_at(a, c, k);
        lemma_difference(a, b, 0);
        lemma_difference(b, c, 0);
        let (d, e) = (difference(a, b, 0), difference(b, c, 0));
        if d < a.len() && number(a[d]) < number(b[d]) {
            assert(lesser_at(a, b, d));
        }
        if e < a.len() && number(b[e]) < number(c[e]) {
            assert(lesser_at(b, c, e));
        }
        let least = if d < e {
            d
        } else {
            e
        };
        if k < least {
            assert(number(a[k]) == number(b[k]));
            assert(number(b[k]) == number(c[k]));
        } else if least < k {
            assert(number(a[least]) == number(c[least]));
            if least < d {
                assert(number(a[least]) == number(b[least]));
            }
            if least < e {
                assert(number(b[least]) == number(c[least]));
            }
        } else {
            if least < d {
                assert(number(a[least]) == number(b[least]));
            }
            if least < e {
                assert(number(b[least]) == number(c[least]));
            }
        }
    }
}

proof fn lemma_numbered_candidates(
    candidates: Seq<PackageSpecView>,
    parts: Seq<Seq<Text>>,
    count: nat,
)
    requires
        versions_are(candidates, parts, count),
    ensures
        version::consistently_ordered(candidates),
{
    assert forall|i: int, j: int, k: int|
        #![trigger candidates[i], candidates[j], candidates[k]]
        0 <= i < candidates.len() && 0 <= j < candidates.len() && 0 <= k < candidates.len()
            && version::version_order(candidates[i].version, candidates[j].version) != Order::Less
            && version::version_order(
            candidates[j].version,
            candidates[k].version,
        ) != Order::Less implies version::version_order(
        candidates[i].version,
        candidates[k].version,
    ) != Order::Less by {
        let (a, b, c) = (parts[i], parts[j], parts[k]);
        lemma_dotted_versions_stand_as_their_numbers(a, b);
        lemma_dotted_versions_stand_as_their_numbers(b, c);
        lemma_dotted_versions_stand_as_their_numbers(a, c);
        lemma_lesser_chains(a, b, c);
    }
}

/// The latest version is the one with the greatest numbers: a request for it selects a candidate
/// wherever there is one, and none of them has greater numbers.
pub proof fn lemma_latest_has_the_greatest_numbers(
    candidates: Seq<PackageSpecView>,
    parts: Seq<Seq<Text>>,
    count: nat,
)
    requires
        versions_are(candidates, parts, count),
        candidates.len() > 0,
    ensures
        exists|at: int|
            0 <= at < candidates.len() && version::selection(candidates, RequestModeView::Latest)
                == Ok::<PackageSpecView, Seq<Text>>(#[trigger] candidates[at]) && forall|i: int|
                0 <= i < parts.len() ==> !lesser_numbers(parts[at], #[trigger] parts[i]),
{
    let mode = RequestModeView::Latest;
    lemma_numbered_candidates(candidates, parts, count);
    version::lemma_selection_is_accepted(candidates, mode);
    version::lemma_selection_is_greatest(candidates, mode);
    assert(version::accepts(mode, candidates[0].version));
    let spec = version::selection(candidates, mode)->Ok_0;
    let at = candidates.index_of(spec);
    assert(candidates[at] == spec);
    assert forall|i: int| 0 <= i < parts.len() implies !lesser_numbers(
        parts[at],
        #[trigger] parts[i],
    ) by {
        assert(plain_numbers(parts[at]) && plain_numbers(parts[i]));
        assert(version::accepts(mode, candidates[i].version));
        lemma_dotted_versions_stand_as_their_numbers(parts[at], parts[i]);
    }
}

/// A request with a least version selects a candidate if and only if one of them has no lesser
/// numbers; the one that it selects has none, and no candidate has greater ones.
pub proof fn lemma_minimum_has_no_lesser_numbers(
    candidates: Seq<PackageSpecView>,
    parts: Seq<Seq<Text>>,
    count: nat,
    least: Seq<Text>,
)
    requires
        versions_are(candidates, parts, count),
        plain_numbers(least),
        least.len() == count,
    ensures
        ({
            let result = version::selection(candidates, RequestModeView::Minimum(dotted(least)));
            &&& result is Ok <==> exists|i: int|
                0 <= i < parts.len() && !lesser_numbers(#[trigger] parts[i], least)
            &&& result matches Ok(spec) ==> exists|at: int|
                0 <= at < candidates.len() && #[trigger] candidates[at] == spec && !lesser_numbers(
                    parts[at],
                    least,
                ) && forall|i: int|
                    0 <= i < parts.len() ==> !lesser_numbers(parts[at], #[trigger] parts[i])
        }),
{
    let mode = RequestModeView::Minimum(dotted(least));
    lemma_numbered_candidates(candidates, parts, count);
    version::lemma_selection_is_accepted(candidates, mode);
    version::lemma_selection_is_greatest(candidates, mode);
    assert forall|i: int| 0 <= i < parts.len() implies version::accepts(
        mode,
        (#[trigger] candidates[i]).version,
    ) == !lesser_numbers(parts[i], least) by {
        assert(plain_numbers(parts[i]));
        lemma_dotted_versions_stand_as_their_numbers(parts[i], least);
    }
    if exists|i: int| 0 <= i < parts.len() && !lesser_numbers(#[trigger] parts[i], least) {
        let i = choose|i: int| 0 <= i < parts.len() && !lesser_numbers(#[trigger] parts[i], least);
        assert(version::accepts(mode, candidates[i].version));
    }
    if let Ok(spec) = version::selection(candidates, mode) {
        let at = candidates.index_of(spec);
        assert(candidates[at] == spec);
        assert(!lesser_numbers(parts[at], least));
        assert forall|i: int| 0 <= i < parts.len() implies !lesser_numbers(
            parts[at],
            #[trigger] parts[i],
        ) by {
            assert(plain_numbers(parts[at]) && plain_numbers(parts[i]));
            lemma_dotted_versions_stand_as_their_numbers(parts[at], parts[i]);
            if version::accepts(mode, candidates[i].version) {
            } else {
                assert(lesser_numbers(parts[i], least));
                if lesser_numbers(parts[at], parts[i]) {
                    lemma_lesser_excludes(parts[at], parts[i]);
                    lemma_lesser_chains(parts[i], parts[at], least);
                }
            }
        }
    }
}

proof fn lemma_lesser_excludes(a: Seq<Text>, b: Seq<Text>)
    requires
        a.len() == b.len(),
        lesser_numbers(a, b),
    ensures
        !lesser_numbers(b, a),
{
    let k = choose|k: int| #[trigger] lesser_at(a, b, k);
    if lesser_numbers(b, a) {
        let j = choose|j: int| #[trigger] lesser_at(b, a, j);
        if j < k {
            assert(number(a[j]) == number(b[j]));
        } else if k < j {
            assert(number(b[k]) == number(a[k]));
        }
    }
}

/// A request for one version selects a candidate with exactly that version, and fails only where
/// there is none.
pub proof fn lemma_exact_versions_are_selected(candidates: Seq<PackageSpecView>, wanted: Text)
    ensures
        ({
            let result = version::selection(candidates, RequestModeView::Exact(wanted));
            &&& result matches Ok(spec) ==> candidates.contains(spec) && spec.version == wanted
            &&& result is Err ==> forall|i: int|
                0 <= i < candidates.len() ==> (#[trigger] candidates[i]).version != wanted
        }),
{
    let mode = RequestModeView::Exact(wanted);
    version::lemma_selection_is_accepted(candidates, mode);
    if version::selection(candidates, mode) is Err {
        assert forall|i: int| 0 <= i < candidates.len() implies (
        #[trigger] candidates[i]).version != wanted by {
            assert(!version::accepts(mode, candidates[i].version));
        }
    }
}

proof fn lemma_digits_are_read(digits: Text)
    requires
        digits.len() > 0,
        forall|i: int| 0 <= i < digits.len() ==> digit(#[trigger] digits[i]),
    ensures
        version::version_tokens_of(digits) == seq![version::run_token(digits, true)],
{
    let none = Seq::<VersionTokenView>::empty();
    let first = Seq::<char>::empty().push(digits[0]);
    assert forall|i: int| 1 <= i < digits.len() implies digit(#[trigger] digits[i]) == true
        && !divides(digits[i]) by {}
    assert(digit(digits[0]));
    lemma_run_is_read(digits, 1, digits.len() as int, first, true, none);
    assert(first + digits.subrange(1, digits.len() as int) =~= digits);
    assert(none.push(version::run_token(digits, true)) =~= seq![version::run_token(digits, true)]);
}

/// A number that does not fit in 64 bits counts as zero: it is less than every number that does
/// and is greater than zero.
pub proof fn lemma_numbers_too_great_count_as_zero(digits: Text, other: Text)
    requires
        digits.len() > 0,
        forall|i: int| 0 <= i < digits.len() ==> digit(#[trigger] digits[i]),
        number(digits) > u64::MAX,
        is_number(other),
        number(other) > 0,
    ensures
        version::version_order(digits, other) == Order::Less,
{
    lemma_digits_are_read(digits);
    lemma_digits_are_read(other);
    lemma_number_is_the_value(digits);
    lemma_number_is_the_value(other);
}

} // verus!
