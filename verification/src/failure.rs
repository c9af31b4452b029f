//! What went wrong, in words.

use vstd::prelude::*;
use vstd::string::*;
use crate::text::optional_view;

verus! {

/// What went wrong and, where something else was behind it, the cause.
#[derive(Clone, Debug, PartialEq, Eq)]
pub struct Failure {
    pub message: String,
    pub cause: Option<String>,
}

/// A message followed by its cause, if there is one.
pub open spec fn with_cause(message: Seq<char>, cause: Option<Seq<char>>) -> Seq<char> {
    match cause {
        Some(cause) => message + ": "@ + cause,
        None => message,
    }
}

impl Failure {
    /// The message followed by its cause, if there is one.
    pub open spec fn full_text(self) -> Seq<char> {
        with_cause(self.message@, optional_view(self.cause))
    }

    /// The message followed by its cause, if there is one.
    pub fn full(&self) -> (text: String)
        ensures
            text@ == self.full_text(),
    {
        let mut text = String::new();
        text.append(self.message.as_str());
        if let Some(cause) = &self.cause {
            text.append(": ");
            text.append(cause.as_str());
        }
        assert(text@ =~= self.full_text());
        text
    }
}

/// A failure is told by its message, and its cause after a colon if it has one.
pub proof fn law_cause_follows_the_message(message: Seq<char>, cause: Seq<char>)
    ensures
        with_cause(message, Some(cause)) == message + ": "@ + cause,
        with_cause(message, None) == message,
{
}

} // verus!
