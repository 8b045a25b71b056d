//! How a command says that it cannot go on.

use vstd::prelude::*;

verus! {

/// A refusal, with the message that the user reads.
pub struct Failure {
    pub message: String,
}

impl View for Failure {
    type V = Seq<char>;

    open spec fn view(&self) -> Seq<char> {
        self.message@
    }
}

impl Failure {
    /// The message.
    pub fn message(&self) -> (r: &str)
        ensures
            r@ == self@,
    {
        self.message.as_str()
    }
}

/// A failure with the given message.
pub fn fail(message: String) -> (r: Failure)
    ensures
        r@ == message@,
{
    Failure { message }
}

} // verus!
