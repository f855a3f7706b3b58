//! The report of something that went wrong.

use vstd::prelude::*;

verus! {

/// A message for the user, with the lower-level failure behind it where there is one.
#[derive(Debug)]
pub struct Failure {
    pub message: String,
    pub cause: Option<String>,
}

impl Failure {
    /// Whether this is the failure that says `message` and has no cause behind it.
    pub open spec fn says(self, message: Seq<char>) -> bool {
        self.message@ == message && self.cause is None
    }

    /// Whether this is the failure that says `message`, brought about by `cause`.
    pub open spec fn says_because(self, message: Seq<char>, cause: Seq<char>) -> bool {
        self.message@ == message && self.cause is Some && self.cause->0@ == cause
    }

    /// A failure without a cause.
    pub fn new(message: String) -> (failure: Failure)
        ensures
            failure.says(message@),
    {
        Failure { message, cause: None }
    }

    /// A failure that `cause` brought about.
    pub fn because(message: String, cause: String) -> (failure: Failure)
        ensures
            failure.says_because(message@, cause@),
    {
        Failure { message, cause: Some(cause) }
    }
}

/// A failure keeps its message and its cause, and only one that something brought about has a
/// cause.
pub proof fn law_failures_keep_what_they_are_told(
    message: String,
    cause: String,
    plain: Failure,
    caused: Failure,
)
    requires
        call_ensures(Failure::new, (message,), plain),
        call_ensures(Failure::because, (message, cause), caused),
    ensures
        plain.message@ == message@,
        plain.cause is None,
        caused.message@ == message@,
        caused.cause is Some,
        caused.cause->0@ == cause@,
{
}

/// What a failure says is its message, so that it says one thing only, with a cause or without.
pub proof fn law_failures_say_one_thing(
    failure: Failure,
    message: Seq<char>,
    cause: Seq<char>,
    other: Seq<char>,
)
    ensures
        failure.says(message) ==> failure.message@ == message && failure.cause is None,
        failure.says_because(message, cause) ==> failure.message@ == message && failure.cause
            is Some && failure.cause->0@ == cause,
        failure.says(message) && failure.says(other) ==> message == other,
        !(failure.says(message) && failure.says_because(other, cause)),
{
}

} // verus!
