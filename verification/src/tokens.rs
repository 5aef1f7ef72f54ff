//! Argument lists: words separated by white space, with double quotes and escapes.

use vstd::prelude::*;
use crate::failure::{failure, outcome, Failure, Messages};
use crate::text;
use crate::text::{chars_of, put, white_space};

verus! {

/// The tokens of `s` from position `from` on, put behind `done`. `current` is the token begun
/// so far and `quoted` tells whether a double quote is open.
pub open spec fn tokens_from(
    s: Seq<char>,
    from: int,
    quoted: bool,
    current: Seq<char>,
    done: Seq<Seq<char>>,
) -> Result<Seq<Seq<char>>, Messages>
    decreases s.len() - from,
{
    if from >= s.len() {
        if quoted {
            Err(seq!["unterminated quoted string"@])
        } else if current.len() > 0 {
            Ok(done.push(current))
        } else {
            Ok(done)
        }
    } else if s[from] == '"' {
        tokens_from(s, from + 1, !quoted, current, done)
    } else if s[from] == '\\' && quoted {
        if from + 1 >= s.len() {
            Err(seq!["dangling escape in quoted string"@])
        } else {
            tokens_from(s, from + 2, quoted, current.push(s[from + 1]), done)
        }
    } else if text::is_white_space(s[from]) && !quoted {
        if current.len() > 0 {
            tokens_from(s, from + 1, quoted, Seq::empty(), done.push(current))
        } else {
            tokens_from(s, from + 1, quoted, current, done)
        }
    } else {
        tokens_from(s, from + 1, quoted, current.push(s[from]), done)
    }
}

/// The tokens of an argument list. White space separates tokens except between double
/// quotes, where a backslash takes the next character literally. An empty token is no token.
pub open spec fn tokens_of(s: Seq<char>) -> Result<Seq<Seq<char>>, Messages> {
    tokens_from(s, 0, false, Seq::empty(), Seq::empty())
}

/// Splits an argument list into its tokens.
pub fn tokenize_arguments(source: &str) -> (result: Result<Vec<String>, Failure>)
    ensures
        outcome(result) == tokens_of(source@),
{
    let chars = chars_of(source);
    let mut tokens: Vec<String> = Vec::new();
    let mut current = String::new();
    let mut quoted = false;
    let mut from: usize = 0;
    assert(tokens.deep_view() == Seq::<Seq<char>>::empty());
    while from < chars.len()
        invariant
            chars@ == source@,
            from <= chars.len(),
            tokens_of(source@) == tokens_from(
                source@,
                from as int,
                quoted,
                current@,
                tokens.deep_view(),
            ),
        decreases chars.len() - from,
    {
        let c = chars[from];
        if c == '"' {
            quoted = !quoted;
        } else if c == '\\' && quoted {
            if from + 1 >= chars.len() {
                return Err(failure("dangling escape in quoted string".to_owned()));
            }
            from = from + 1;
            current.push(chars[from]);
        } else if white_space(c) && !quoted {
            if !current.as_str().is_empty() {
                put(&mut tokens, current);
                current = String::new();
            }
        } else {
            current.push(c);
        }
        from = from + 1;
    }
    if quoted {
        return Err(failure("unterminated quoted string".to_owned()));
    }
    if !current.as_str().is_empty() {
        put(&mut tokens, current);
    }
    Ok(tokens)
}

/// A text with a backslash before every double quote and backslash.
pub open spec fn escaped(s: Seq<char>) -> Seq<char>
    decreases s.len(),
{
    if s.len() == 0 {
        s
    } else if s[0] == '"' || s[0] == '\\' {
        seq!['\\', s[0]] + escaped(s.drop_first())
    } else {
        seq![s[0]] + escaped(s.drop_first())
    }
}

/// An argument between double quotes.
pub open spec fn quoted_argument(s: Seq<char>) -> Seq<char> {
    seq!['"'] + escaped(s) + seq!['"']
}

/// Quoted arguments with a space between each two of them.
pub open spec fn quoted_list(arguments: Seq<Seq<char>>) -> Seq<char>
    decreases arguments.len(),
{
    if arguments.len() == 0 {
        Seq::empty()
    } else if arguments.len() == 1 {
        quoted_argument(arguments[0])
    } else {
        quoted_argument(arguments[0]) + seq![' '] + quoted_list(arguments.drop_first())
    }
}

proof fn lemma_escaped_is_read(
    s: Seq<char>,
    from: int,
    argument: Seq<char>,
    current: Seq<char>,
    done: Seq<Seq<char>>,
)
    requires
        0 <= from,
        from + escaped(argument).len() <= s.len(),
        s.subrange(from, from + escaped(argument).len()) == escaped(argument),
    ensures
        tokens_from(s, from, true, current, done) == tokens_from(
            s,
            from + escaped(argument).len(),
            true,
            current + argument,
            done,
        ),
    decreases argument.len(),
{
    let whole = escaped(argument);
    if argument.len() == 0 {
        assert(current + argument == current);
    } else {
        let rest = argument.drop_first();
        let size: int = if argument[0] == '"' || argument[0] == '\\' {
            2
        } else {
            1
        };
        assert(whole.len() == size + escaped(rest).len());
        assert forall|i: int| 0 <= i < whole.len() implies s[from + i] == #[trigger] whole[i] by {
            assert(s.subrange(from, from + whole.len())[i] == whole[i]);
        }
        assert(whole[0] == s[from]);
        if size == 2 {
            assert(whole[1] == argument[0]);
            assert(s[from + 1] == argument[0]);
        }
        assert(s.subrange(from + size, from + size + escaped(rest).len()) == escaped(rest)) by {
            assert forall|i: int| 0 <= i < escaped(rest).len() implies s[from + size + i]
                == #[trigger] escaped(rest)[i] by {
                assert(whole[size + i] == escaped(rest)[i]);
            }
        }
        lemma_escaped_is_read(s, from + size, rest, current.push(argument[0]), done);
        assert(current.push(argument[0]) + rest == current + argument);
    }
}

proof fn lemma_quoted_list_is_read(
    s: Seq<char>,
    from: int,
    arguments: Seq<Seq<char>>,
    done: Seq<Seq<char>>,
)
    requires
        0 <= from <= s.len(),
        s.subrange(from, s.len() as int) == quoted_list(arguments),
        forall|i: int| 0 <= i < arguments.len() ==> (#[trigger] arguments[i]).len() > 0,
    ensures
        tokens_from(s, from, false, Seq::empty(), done) == Ok::<Seq<Seq<char>>, Messages>(
            done + arguments,
        ),
    decreases arguments.len(),
{
    let list = quoted_list(arguments);
    if arguments.len() == 0 {
        assert(from == s.len());
        assert(done + arguments == done);
    } else {
        let first = arguments[0];
        let rest = arguments.drop_first();
        let size = escaped(first).len() as int;
        assert forall|i: int| 0 <= i < list.len() implies s[from + i] == #[trigger] list[i] by {
            assert(s.subrange(from, s.len() as int)[i] == list[i]);
        }
        assert(list[0] == '"');
        assert(list.len() == s.len() - from);
        assert(quoted_argument(first).len() == size + 2);
        assert(s.subrange(from + 1, from + 1 + size) == escaped(first)) by {
            assert forall|i: int| 0 <= i < size implies s[from + 1 + i] == #[trigger] escaped(
                first,
            )[i] by {
                assert(list[1 + i] == escaped(first)[i]);
            }
        }
        lemma_escaped_is_read(s, from + 1, first, Seq::empty(), done);
        assert(Seq::<char>::empty() + first == first);
        assert(list[1 + size] == '"');
        let end = from + 2 + size;
        if arguments.len() == 1 {
            assert(end == s.len());
            assert(tokens_from(s, end, false, first, done) == Ok::<Seq<Seq<char>>, Messages>(
                done.push(first),
            ));
            assert(done.push(first) == done + arguments);
        } else {
            assert(list[2 + size] == ' ');
            assert(s.subrange(end + 1, s.len() as int) == quoted_list(rest)) by {
                assert forall|i: int| 0 <= i < quoted_list(rest).len() implies s[end + 1 + i]
                    == #[trigger] quoted_list(rest)[i] by {
                    assert(list[3 + size + i] == quoted_list(rest)[i]);
                }
            }
            assert forall|i: int| 0 <= i < rest.len() implies (#[trigger] rest[i]).len() > 0 by {
                assert(rest[i] == arguments[i + 1]);
            }
            lemma_quoted_list_is_read(s, end + 1, rest, done.push(first));
            assert(done.push(first) + rest == done + arguments);
        }
    }
}

/// Arguments that are quoted are read back as they were, whatever they hold. An empty argument
/// is read as none.
pub proof fn lemma_quoted_arguments_read_back(arguments: Seq<Seq<char>>)
    requires
        forall|i: int| 0 <= i < arguments.len() ==> (#[trigger] arguments[i]).len() > 0,
    ensures
        tokens_of(quoted_list(arguments)) == Ok::<Seq<Seq<char>>, Messages>(arguments),
{
    let s = quoted_list(arguments);
    assert(s.subrange(0, s.len() as int) == s);
    lemma_quoted_list_is_read(s, 0, arguments, Seq::empty());
    assert(Seq::<Seq<char>>::empty() + arguments == arguments);
}

} // verus!
