//! Failures as chains of messages, the outermost first.

use vstd::prelude::*;
use crate::text;
use crate::text::{cat3, decimal, join};

verus! {

/// Why an operation failed: the messages from the outermost context to the root cause.
#[derive(Clone, Debug, PartialEq, Eq)]
pub struct Failure {
    pub messages: Vec<String>,
}

/// The model of a failure: its messages.
pub type Messages = Seq<Seq<char>>;

impl DeepView for Failure {
    type V = Messages;

    open spec fn deep_view(&self) -> Messages {
        self.messages.deep_view()
    }
}

/// The model of a result.
pub open spec fn outcome<T: DeepView>(result: Result<T, Failure>) -> Result<T::V, Messages> {
    match result {
        Ok(value) => Ok(value.deep_view()),
        Err(failure) => Err(failure.deep_view()),
    }
}

impl Failure {
    /// The whole chain on one line, joined by `": "`.
    pub fn render(&self) -> (text: String)
        ensures
            text@ == text::joined(self.deep_view(), ": "@),
    {
        join(&self.messages, ": ")
    }
}

/// A failure with a single message.
pub fn failure(message: String) -> (result: Failure)
    ensures
        result.deep_view() == seq![message@],
{
    let mut messages: Vec<String> = Vec::new();
    messages.push(message);
    let result = Failure { messages };
    assert(result.deep_view() == seq![message@]);
    result
}

/// The failure `inner` seen from an outer context.
pub fn within(message: String, inner: Failure) -> (result: Failure)
    ensures
        result.deep_view() == seq![message@] + inner.deep_view(),
{
    let mut result = failure(message);
    text::put_all(&mut result.messages, &inner.messages);
    result
}

/// A place in a file, as messages name it.
pub open spec fn place(path: Seq<char>, line: nat) -> Seq<char> {
    path + ":"@ + text::numeral(line)
}

/// Names a place in a file.
pub fn at(path: &str, line: usize) -> (text: String)
    ensures
        text@ == place(path@, line as nat),
{
    cat3(path, ":", &decimal(line))
}

} // verus!
