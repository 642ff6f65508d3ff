//! The error that the library reports: a message for the person at the terminal.
use vstd::prelude::*;

verus! {

/// A reason why a request was refused.
#[derive(Debug)]
pub struct Failure {
    pub message: String,
}

impl View for Failure {
    type V = Seq<char>;

    open spec fn view(&self) -> Seq<char> {
        self.message@
    }
}

impl Failure {
    pub fn new(message: String) -> (r: Self)
        ensures
            r@ == message@,
    {
        Failure { message }
    }

    pub fn message(&self) -> (r: &str)
        ensures
            r@ == self@,
    {
        self.message.as_str()
    }
}

} // verus!
