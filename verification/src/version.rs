//! Versions: how they compare and which one a request selects.

use vstd::prelude::*;
use crate::failure::{failure, outcome, Failure, Messages};
use crate::model::{PackageSpec, PackageSpecView, RequestMode, RequestModeView, Text};
use crate::names;
use crate::text;
use crate::text::{cat3, chars_of, order_texts, put, same, Dup, Order};

verus! {

/// A run of digits or of other characters in a version.
#[derive(Clone, Debug, PartialEq, Eq)]
pub enum VersionToken {
    Number(u64),
    Text(String),
}

/// The model of [`VersionToken`].
pub enum VersionTokenView {
    Number(u64),
    Text(Text),
}

impl DeepView for VersionToken {
    type V = VersionTokenView;

    open spec fn deep_view(&self) -> VersionTokenView {
        match self {
            VersionToken::Number(value) => VersionTokenView::Number(*value),
            VersionToken::Text(value) => VersionTokenView::Text(value@),
        }
    }
}

/// The number that decimal digits stand for.
pub open spec fn digits_value(digits: Text) -> nat
    decreases digits.len(),
{
    if digits.len() == 0 {
        0
    } else {
        digits_value(digits.drop_last()) * 10 + (digits.last() as nat - '0' as nat) as nat
    }
}

/// More digits never make a smaller number.
proof fn lemma_digits_grow(digits: Text, count: int)
    requires
        0 <= count <= digits.len(),
    ensures
        digits_value(digits.take(count)) <= digits_value(digits),
    decreases digits.len() - count,
{
    if count == digits.len() {
        assert(digits.take(count) == digits);
    } else {
        let next = digits.take(count + 1);
        assert(next.drop_last() == digits.take(count));
        lemma_digits_grow(digits, count + 1);
    }
}

/// The token for a run: digits stand for their number, or for zero where it does not fit.
pub open spec fn run_token(run: Text, digits: bool) -> VersionTokenView {
    if digits {
        VersionTokenView::Number(
            if digits_value(run) <= u64::MAX {
                digits_value(run) as u64
            } else {
                0
            },
        )
    } else {
        VersionTokenView::Text(run)
    }
}

fn parse_number(run: &str) -> (number: u64)
    requires
        forall|i: int| 0 <= i < run@.len() ==> names::is_digit(#[trigger] run@[i]),
    ensures
        VersionTokenView::Number(number) == run_token(run@, true),
{
    let chars = chars_of(run);
    let mut number: u64 = 0;
    let mut index: usize = 0;
    assert(run@.take(0) == Seq::<char>::empty());
    while index < chars.len()
        invariant
            chars@ == run@,
            index <= chars.len(),
            number == digits_value(run@.take(index as int)),
            forall|i: int| 0 <= i < run@.len() ==> names::is_digit(#[trigger] run@[i]),
        decreases chars.len() - index,
    {
        proof {
            assert(names::is_digit(run@[index as int]));
            assert(run@.take(index as int + 1).drop_last() == run@.take(index as int));
            lemma_digits_grow(run@, index as int + 1);
        }
        let unit: u64 = chars[index] as u64 - '0' as u64;
        match number.checked_mul(10) {
            None => {
                return 0;
            },
            Some(tens) => match tens.checked_add(unit) {
                None => {
                    return 0;
                },
                Some(next) => {
                    number = next;
                },
            },
        }
        index = index + 1;
    }
    assert(run@.take(index as int) == run@);
    number
}

/// A character that separates runs and belongs to none.
pub open spec fn is_separator(c: char) -> bool {
    c == '.' || c == '-' || c == '_' || c == '+'
}

/// The tokens of `s` from position `from` on, put behind `done`. `run` is the run begun so
/// far and `digits` tells whether it is made of digits; it is empty where none is begun.
pub open spec fn version_tokens_from(
    s: Text,
    from: int,
    run: Text,
    digits: bool,
    done: Seq<VersionTokenView>,
) -> Seq<VersionTokenView>
    decreases s.len() - from,
{
    let closed = if run.len() > 0 {
        done.push(run_token(run, digits))
    } else {
        done
    };
    if from >= s.len() {
        closed
    } else if is_separator(s[from]) {
        version_tokens_from(s, from + 1, Seq::empty(), false, closed)
    } else if run.len() == 0 || names::is_digit(s[from]) == digits {
        version_tokens_from(s, from + 1, run.push(s[from]), names::is_digit(s[from]), done)
    } else {
        version_tokens_from(
            s,
            from + 1,
            Seq::empty().push(s[from]),
            names::is_digit(s[from]),
            closed,
        )
    }
}

/// The runs of digits and of other characters in a version.
pub open spec fn version_tokens_of(s: Text) -> Seq<VersionTokenView> {
    version_tokens_from(s, 0, Seq::empty(), false, Seq::empty())
}

fn push_version_token(tokens: &mut Vec<VersionToken>, run: &String, digits: bool)
    requires
        digits ==> forall|i: int| 0 <= i < run@.len() ==> names::is_digit(#[trigger] run@[i]),
    ensures
        final(tokens).deep_view() == if run@.len() > 0 {
            old(tokens).deep_view().push(run_token(run@, digits))
        } else {
            old(tokens).deep_view()
        },
{
    if !run.as_str().is_empty() {
        if digits {
            put(tokens, VersionToken::Number(parse_number(run)));
        } else {
            put(tokens, VersionToken::Text(run.clone()));
        }
    }
}

pub fn version_tokens(value: &str) -> (tokens: Vec<VersionToken>)
    ensures
        tokens.deep_view() == version_tokens_of(value@),
{
    let chars = chars_of(value);
    let mut tokens: Vec<VersionToken> = Vec::new();
    let mut run = String::new();
    let mut digits = false;
    let mut index: usize = 0;
    assert(tokens.deep_view() == Seq::<VersionTokenView>::empty());
    while index < chars.len()
        invariant
            chars@ == value@,
            index <= chars.len(),
            digits ==> forall|i: int| 0 <= i < run@.len() ==> names::is_digit(#[trigger] run@[i]),
            version_tokens_of(value@) == version_tokens_from(
                value@,
                index as int,
                run@,
                digits,
                tokens.deep_view(),
            ),
        decreases chars.len() - index,
    {
        let c = chars[index];
        if c == '.' || c == '-' || c == '_' || c == '+' {
            push_version_token(&mut tokens, &run, digits);
            run = String::new();
            digits = false;
        } else {
            let is_digit = '0' <= c && c <= '9';
            if !(run.as_str().is_empty() || is_digit == digits) {
                push_version_token(&mut tokens, &run, digits);
                run = String::new();
            }
            run.push(c);
            digits = is_digit;
        }
        index = index + 1;
    }
    push_version_token(&mut tokens, &run, digits);
    tokens
}

/// How two numbers stand to each other.
pub open spec fn number_order(a: u64, b: u64) -> Order {
    if a < b {
        Order::Less
    } else if a > b {
        Order::Greater
    } else {
        Order::Equal
    }
}

/// How two tokens stand to each other: a number is greater than a text.
pub open spec fn token_order(a: VersionTokenView, b: VersionTokenView) -> Order {
    match (a, b) {
        (VersionTokenView::Number(x), VersionTokenView::Number(y)) => number_order(x, y),
        (VersionTokenView::Text(x), VersionTokenView::Text(y)) => text::text_order(x, y),
        (VersionTokenView::Number(_), VersionTokenView::Text(_)) => Order::Greater,
        (VersionTokenView::Text(_), VersionTokenView::Number(_)) => Order::Less,
    }
}

/// A token that makes no difference where the other version has ended.
pub open spec fn is_void(token: VersionTokenView) -> bool {
    match token {
        VersionTokenView::Number(value) => value == 0,
        VersionTokenView::Text(value) => value.len() == 0,
    }
}

/// How two lists of tokens stand to each other from position `from` on; none where both end
/// without a difference.
pub open spec fn tokens_order(
    a: Seq<VersionTokenView>,
    b: Seq<VersionTokenView>,
    from: int,
) -> Option<Order>
    decreases a.len() + b.len() - from,
{
    if from >= a.len() && from >= b.len() {
        None
    } else if from >= a.len() {
        Some(
            if is_void(b[from]) {
                Order::Equal
            } else {
                Order::Less
            },
        )
    } else if from >= b.len() {
        Some(
            if is_void(a[from]) {
                Order::Equal
            } else {
                Order::Greater
            },
        )
    } else if token_order(a[from], b[from]) != Order::Equal {
        Some(token_order(a[from], b[from]))
    } else {
        tokens_order(a, b, from + 1)
    }
}

/// How two versions stand to each other: by their tokens, and where these show no difference
/// by their texts.
pub open spec fn version_order(a: Text, b: Text) -> Order {
    match tokens_order(version_tokens_of(a), version_tokens_of(b), 0) {
        Some(order) => order,
        None => text::text_order(a, b),
    }
}

fn order_tokens(a: &VersionToken, b: &VersionToken) -> (order: Order)
    ensures
        order == token_order(a.deep_view(), b.deep_view()),
{
    match (a, b) {
        (VersionToken::Number(x), VersionToken::Number(y)) => if *x < *y {
            Order::Less
        } else if *x > *y {
            Order::Greater
        } else {
            Order::Equal
        },
        (VersionToken::Text(x), VersionToken::Text(y)) => order_texts(x, y),
        (VersionToken::Number(_), VersionToken::Text(_)) => Order::Greater,
        (VersionToken::Text(_), VersionToken::Number(_)) => Order::Less,
    }
}

fn void_token(token: &VersionToken) -> (yes: bool)
    ensures
        yes == is_void(token.deep_view()),
{
    match token {
        VersionToken::Number(value) => *value == 0,
        VersionToken::Text(value) => value.as_str().is_empty(),
    }
}

pub fn compare_versions(left: &str, right: &str) -> (order: Order)
    ensures
        order == version_order(left@, right@),
{
    let a = version_tokens(left);
    let b = version_tokens(right);
    let mut index: usize = 0;
    while index < a.len() && index < b.len()
        invariant
            a.deep_view() == version_tokens_of(left@),
            b.deep_view() == version_tokens_of(right@),
            index <= a.len(),
            index <= b.len(),
            tokens_order(a.deep_view(), b.deep_view(), 0) == tokens_order(
                a.deep_view(),
                b.deep_view(),
                index as int,
            ),
        decreases a.len() - index,
    {
        let order = order_tokens(&a[index], &b[index]);
        assert(order == token_order(a.deep_view()[index as int], b.deep_view()[index as int]));
        if order != Order::Equal {
            return order;
        }
        index = index + 1;
    }
    if index < a.len() {
        assert(a.deep_view()[index as int] == a[index as int].deep_view());
        if void_token(&a[index]) {
            Order::Equal
        } else {
            Order::Greater
        }
    } else if index < b.len() {
        assert(b.deep_view()[index as int] == b[index as int].deep_view());
        if void_token(&b[index]) {
            Order::Equal
        } else {
            Order::Less
        }
    } else {
        order_texts(left, right)
    }
}

/// Whether a version is one that a request accepts.
pub open spec fn accepts(mode: RequestModeView, version: Text) -> bool {
    match mode {
        RequestModeView::Latest => true,
        RequestModeView::Exact(wanted) => version == wanted,
        RequestModeView::Minimum(least) => version_order(version, least) != Order::Less,
    }
}

/// Decides whether a version is one that a request accepts.
pub fn mode_accepts(mode: &RequestMode, version: &str) -> (yes: bool)
    ensures
        yes == accepts(mode.deep_view(), version@),
{
    match mode {
        RequestMode::Latest => true,
        RequestMode::Exact(wanted) => same(version, wanted),
        RequestMode::Minimum(least) => compare_versions(version, least) != Order::Less,
    }
}

/// The position of the candidate that a request selects: among those it accepts, the last one
/// that is not less than the one selected before it.
pub open spec fn choice(
    candidates: Seq<PackageSpecView>,
    mode: RequestModeView,
    from: int,
    best: Option<int>,
) -> Option<int>
    decreases candidates.len() - from,
{
    if from >= candidates.len() {
        best
    } else {
        let version = candidates[from].version;
        let better = match best {
            Some(index) => version_order(version, candidates[index].version) != Order::Less,
            None => true,
        };
        if accepts(mode, version) && better {
            choice(candidates, mode, from + 1, Some(from))
        } else {
            choice(candidates, mode, from + 1, best)
        }
    }
}

/// The candidate that a request selects, or why there is none.
pub open spec fn selection(candidates: Seq<PackageSpecView>, mode: RequestModeView) -> Result<
    PackageSpecView,
    Messages,
> {
    match choice(candidates, mode, 0, None) {
        Some(index) => Ok(candidates[index]),
        None => Err(
            seq![
                match mode {
                    RequestModeView::Latest => "no versions are registered"@,
                    RequestModeView::Exact(version) => "exact version '"@ + version
                        + "' is not registered"@,
                    RequestModeView::Minimum(version) => "no version satisfies minimum '"@ + version
                        + "'"@,
                },
            ],
        ),
    }
}

pub fn select_package(candidates: &Vec<PackageSpec>, mode: &RequestMode) -> (result: Result<
    PackageSpec,
    Failure,
>)
    ensures
        outcome(result) == selection(candidates.deep_view(), mode.deep_view()),
{
    let mut best: Option<usize> = None;
    let mut index: usize = 0;
    while index < candidates.len()
        invariant
            index <= candidates.len(),
            best matches Some(known) ==> known < candidates.len(),
            choice(candidates.deep_view(), mode.deep_view(), 0, None) == choice(
                candidates.deep_view(),
                mode.deep_view(),
                index as int,
                match best {
                    Some(known) => Some(known as int),
                    None => None,
                },
            ),
        decreases candidates.len() - index,
    {
        assert(candidates.deep_view()[index as int].version == candidates[index as int].version@);
        let better = match best {
            Some(known) => compare_versions(&candidates[index].version, &candidates[known].version)
                != Order::Less,
            None => true,
        };
        if mode_accepts(mode, &candidates[index].version) && better {
            best = Some(index);
        }
        index = index + 1;
    }
    match best {
        Some(known) => Ok(candidates[known].dup()),
        None => Err(
            failure(
                match mode {
                    RequestMode::Latest => "no versions are registered".to_owned(),
                    RequestMode::Exact(version) => cat3(
                        "exact version '",
                        version,
                        "' is not registered",
                    ),
                    RequestMode::Minimum(version) => cat3(
                        "no version satisfies minimum '",
                        version,
                        "'",
                    ),
                },
            ),
        ),
    }
}

/// The opposite of an order.
pub open spec fn reversed(order: Order) -> Order {
    match order {
        Order::Less => Order::Greater,
        Order::Equal => Order::Equal,
        Order::Greater => Order::Less,
    }
}

proof fn lemma_text_order_reverses(a: Text, b: Text, from: int)
    requires
        0 <= from,
    ensures
        text::order_from(b, a, from) == reversed(text::order_from(a, b, from)),
    decreases a.len() - from,
{
    if from < a.len() && from < b.len() {
        lemma_text_order_reverses(a, b, from + 1);
    }
}

proof fn lemma_tokens_order_reverses(
    a: Seq<VersionTokenView>,
    b: Seq<VersionTokenView>,
    from: int,
)
    requires
        0 <= from,
    ensures
        tokens_order(b, a, from) == match tokens_order(a, b, from) {
            Some(order) => Some(reversed(order)),
            None => None,
        },
    decreases a.len() + b.len() - from,
{
    if from < a.len() && from < b.len() {
        match (a[from], b[from]) {
            (VersionTokenView::Text(x), VersionTokenView::Text(y)) => {
                lemma_text_order_reverses(x, y, 0);
            },
            _ => {},
        }
        lemma_tokens_order_reverses(a, b, from + 1);
    }
}

/// Comparing two versions the other way round gives the opposite answer.
pub proof fn lemma_version_order_reverses(a: Text, b: Text)
    ensures
        version_order(b, a) == reversed(version_order(a, b)),
{
    lemma_tokens_order_reverses(version_tokens_of(a), version_tokens_of(b), 0);
    lemma_text_order_reverses(a, b, 0);
}

/// A version is equal to itself.
pub proof fn lemma_version_order_reflexive(a: Text)
    ensures
        version_order(a, a) == Order::Equal,
{
    lemma_version_order_reverses(a, a);
}

/// Where the versions of the accepted candidates are consistently ordered, in that what is not
/// less than a version is not less than anything that version is not less than.
pub open spec fn consistently_ordered(candidates: Seq<PackageSpecView>) -> bool {
    forall|i: int, j: int, k: int|
        #![trigger candidates[i], candidates[j], candidates[k]]
        0 <= i < candidates.len() && 0 <= j < candidates.len() && 0 <= k < candidates.len()
            && version_order(candidates[i].version, candidates[j].version) != Order::Less
            && version_order(candidates[j].version, candidates[k].version) != Order::Less
            ==> version_order(candidates[i].version, candidates[k].version) != Order::Less
}

proof fn lemma_choice(
    candidates: Seq<PackageSpecView>,
    mode: RequestModeView,
    from: int,
    best: Option<int>,
)
    requires
        0 <= from <= candidates.len(),
        best matches Some(known) ==> 0 <= known < from && accepts(mode, candidates[known].version),
        best is None ==> forall|i: int|
            0 <= i < from ==> !accepts(mode, (#[trigger] candidates[i]).version),
    ensures
        match choice(candidates, mode, from, best) {
            Some(index) => 0 <= index < candidates.len() && accepts(
                mode,
                candidates[index].version,
            ),
            None => forall|i: int|
                0 <= i < candidates.len() ==> !accepts(mode, (#[trigger] candidates[i]).version),
        },
    decreases candidates.len() - from,
{
    if from < candidates.len() {
        let version = candidates[from].version;
        let better = match best {
            Some(index) => version_order(version, candidates[index].version) != Order::Less,
            None => true,
        };
        if accepts(mode, version) && better {
            lemma_choice(candidates, mode, from + 1, Some(from));
        } else {
            lemma_choice(candidates, mode, from + 1, best);
        }
    }
}

/// A request selects one of the candidates that it accepts, and fails only where it accepts
/// none.
pub proof fn lemma_selection_is_accepted(
    candidates: Seq<PackageSpecView>,
    mode: RequestModeView,
)
    ensures
        selection(candidates, mode) matches Ok(spec) ==> candidates.contains(spec) && accepts(
            mode,
            spec.version,
        ),
        selection(candidates, mode) is Err ==> forall|i: int|
            0 <= i < candidates.len() ==> !accepts(mode, (#[trigger] candidates[i]).version),
{
    lemma_choice(candidates, mode, 0, None);
}

/// Among candidates that are equally great, the last one is taken: every accepted candidate
/// behind the one that is selected is less.
pub proof fn lemma_last_of_equals_is_selected(
    candidates: Seq<PackageSpecView>,
    mode: RequestModeView,
)
    ensures
        selection(candidates, mode) matches Ok(spec) ==> exists|index: int|
            0 <= index < candidates.len() && #[trigger] candidates[index] == spec && none_behind(
                candidates,
                mode,
                index,
                candidates.len() as int,
            ),
{
    lemma_choice(candidates, mode, 0, None);
    lemma_choice_is_last(candidates, mode, 0, None);
    if let Some(index) = choice(candidates, mode, 0, None) {
        assert(candidates[index] == selection(candidates, mode)->Ok_0);
    }
}

/// Whether every accepted candidate behind the one at `index`, up to `end`, is less than it.
pub open spec fn none_behind(
    candidates: Seq<PackageSpecView>,
    mode: RequestModeView,
    index: int,
    end: int,
) -> bool {
    forall|i: int|
        index < i < end && accepts(mode, (#[trigger] candidates[i]).version) ==> version_order(
            candidates[i].version,
            candidates[index].version,
        ) == Order::Less
}

proof fn lemma_choice_is_last(
    candidates: Seq<PackageSpecView>,
    mode: RequestModeView,
    from: int,
    best: Option<int>,
)
    requires
        0 <= from <= candidates.len(),
        best matches Some(known) ==> 0 <= known < from && none_behind(
            candidates,
            mode,
            known,
            from,
        ),
    ensures
        choice(candidates, mode, from, best) matches Some(index) ==> none_behind(
            candidates,
            mode,
            index,
            candidates.len() as int,
        ),
    decreases candidates.len() - from,
{
    if from < candidates.len() {
        let version = candidates[from].version;
        let better = match best {
            Some(index) => version_order(version, candidates[index].version) != Order::Less,
            None => true,
        };
        if accepts(mode, version) && better {
            lemma_choice_is_last(candidates, mode, from + 1, Some(from));
        } else {
            lemma_choice_is_last(candidates, mode, from + 1, best);
        }
    }
}

/// Whether the character at a position is a digit, or a dot before a digit.
pub open spec fn is_dotted_at(version: Text, index: int) -> bool {
    names::is_digit(version[index]) || (version[index] == '.' && index + 1 < version.len()
        && names::is_digit(version[index + 1]))
}

/// Whether a version is made of decimal numbers with one dot between each two of them.
pub open spec fn is_dotted(version: Text) -> bool {
    &&& version.len() > 0 && names::is_digit(version[0])
    &&& forall|i: int| 0 <= i < version.len() ==> #[trigger] is_dotted_at(version, i)
}

/// How many dots a version holds from position `from` on.
pub open spec fn dots(version: Text, from: int) -> nat
    decreases version.len() - from,
{
    if from >= version.len() {
        0
    } else {
        dots(version, from + 1) + if version[from] == '.' {
            1nat
        } else {
            0nat
        }
    }
}

/// Whether all tokens are numbers.
spec fn are_numbers(tokens: Seq<VersionTokenView>) -> bool {
    forall|i: int| 0 <= i < tokens.len() ==> (#[trigger] tokens[i]) is Number
}

proof fn lemma_dotted_tokens(
    version: Text,
    from: int,
    run: Text,
    done: Seq<VersionTokenView>,
)
    requires
        is_dotted(version),
        0 <= from <= version.len(),
        run.len() == 0 ==> from < version.len() && names::is_digit(version[from]),
        are_numbers(done),
    ensures
        are_numbers(version_tokens_from(version, from, run, run.len() > 0, done)),
        version_tokens_from(version, from, run, run.len() > 0, done).len() == done.len() + 1 + dots(
            version,
            from,
        ),
    decreases version.len() - from,
{
    let digits = run.len() > 0;
    if from < version.len() {
        assert(is_dotted_at(version, from));
        if is_separator(version[from]) {
            lemma_dotted_tokens(
                version,
                from + 1,
                Seq::empty(),
                done.push(run_token(run, digits)),
            );
        } else {
            lemma_dotted_tokens(version, from + 1, run.push(version[from]), done);
        }
    }
}

/// How two lists of as many numbers chain.
proof fn lemma_numbers_chain(
    a: Seq<VersionTokenView>,
    b: Seq<VersionTokenView>,
    c: Seq<VersionTokenView>,
    from: int,
)
    requires
        are_numbers(a),
        are_numbers(b),
        are_numbers(c),
        a.len() == b.len() == c.len(),
        0 <= from <= a.len(),
        tokens_order(a, b, from) != Some(Order::Less),
        tokens_order(b, c, from) != Some(Order::Less),
    ensures
        tokens_order(a, c, from) != Some(Order::Less),
        tokens_order(a, c, from) != Some(Order::Equal),
        tokens_order(a, c, from) is None ==> tokens_order(a, b, from) is None && tokens_order(
            b,
            c,
            from,
        ) is None,
    decreases a.len() - from,
{
    if from < a.len() {
        assert(a[from] is Number && b[from] is Number && c[from] is Number);
        if token_order(a[from], b[from]) == Order::Equal && token_order(b[from], c[from])
            == Order::Equal {
            lemma_numbers_chain(a, b, c, from + 1);
        }
    }
}

/// Versions of equally many decimal numbers with dots between them are consistently ordered.
pub proof fn lemma_dotted_versions_are_consistently_ordered(
    candidates: Seq<PackageSpecView>,
    parts: nat,
)
    requires
        forall|i: int|
            0 <= i < candidates.len() ==> is_dotted((#[trigger] candidates[i]).version) && dots(
                candidates[i].version,
                0,
            ) + 1 == parts,
    ensures
        consistently_ordered(candidates),
{
    assert forall|i: int, j: int, k: int|
        #![trigger candidates[i], candidates[j], candidates[k]]
        0 <= i < candidates.len() && 0 <= j < candidates.len() && 0 <= k < candidates.len()
            && version_order(candidates[i].version, candidates[j].version) != Order::Less
            && version_order(
            candidates[j].version,
            candidates[k].version,
        ) != Order::Less implies version_order(candidates[i].version, candidates[k].version)
        != Order::Less by {
        let a = candidates[i].version;
        let b = candidates[j].version;
        let c = candidates[k].version;
        lemma_dotted_tokens(a, 0, Seq::empty(), Seq::empty());
        lemma_dotted_tokens(b, 0, Seq::empty(), Seq::empty());
        lemma_dotted_tokens(c, 0, Seq::empty(), Seq::empty());
        lemma_numbers_chain(version_tokens_of(a), version_tokens_of(b), version_tokens_of(c), 0);
        lemma_text_order_reverses(a, b, 0);
        lemma_text_order_reverses(b, c, 0);
        lemma_text_order_reverses(a, c, 0);
        if text::order_from(c, b, 0) != Order::Greater && text::order_from(b, a, 0)
            != Order::Greater {
            text::lemma_orders_chain(c, b, a, 0);
        }
    }
}

proof fn lemma_choice_greatest(
    candidates: Seq<PackageSpecView>,
    mode: RequestModeView,
    from: int,
    best: Option<int>,
)
    requires
        consistently_ordered(candidates),
        0 <= from <= candidates.len(),
        match best {
            Some(known) => 0 <= known < from && forall|i: int|
                0 <= i < from && accepts(mode, (#[trigger] candidates[i]).version) ==> version_order(
                    candidates[known].version,
                    candidates[i].version,
                ) != Order::Less,
            None => forall|i: int|
                0 <= i < from ==> !accepts(mode, (#[trigger] candidates[i]).version),
        },
    ensures
        choice(candidates, mode, from, best) matches Some(index) ==> 0 <= index < candidates.len()
            && forall|i: int|
            0 <= i < candidates.len() && accepts(mode, (#[trigger] candidates[i]).version)
                ==> version_order(candidates[index].version, candidates[i].version) != Order::Less,
    decreases candidates.len() - from,
{
    if from < candidates.len() {
        let version = candidates[from].version;
        lemma_version_order_reflexive(version);
        match best {
            Some(known) => {
                lemma_version_order_reverses(version, candidates[known].version);
                if accepts(mode, version) && version_order(version, candidates[known].version)
                    != Order::Less {
                    assert forall|i: int|
                        0 <= i < from + 1 && accepts(
                            mode,
                            (#[trigger] candidates[i]).version,
                        ) implies version_order(version, candidates[i].version)
                        != Order::Less by {
                        if i < from {
                            assert(version_order(candidates[known].version, candidates[i].version)
                                != Order::Less);
                            let (a, b, c) = (candidates[from], candidates[known], candidates[i]);
                        }
                    }
                    lemma_choice_greatest(candidates, mode, from + 1, Some(from));
                } else {
                    lemma_choice_greatest(candidates, mode, from + 1, best);
                }
            },
            None => {
                if accepts(mode, version) {
                    lemma_choice_greatest(candidates, mode, from + 1, Some(from));
                } else {
                    lemma_choice_greatest(candidates, mode, from + 1, best);
                }
            },
        }
    }
}

/// Where the candidates are consistently ordered, no accepted candidate is greater than the
/// one that is selected.
pub proof fn lemma_selection_is_greatest(
    candidates: Seq<PackageSpecView>,
    mode: RequestModeView,
)
    requires
        consistently_ordered(candidates),
    ensures
        selection(candidates, mode) matches Ok(spec) ==> forall|i: int|
            0 <= i < candidates.len() && accepts(mode, (#[trigger] candidates[i]).version)
                ==> version_order(spec.version, candidates[i].version) != Order::Less,
{
    lemma_choice_greatest(candidates, mode, 0, None);
}

} // verus!
