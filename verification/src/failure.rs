//! A failure that ends a command, with the message that the user is shown.
use vstd::prelude::*;

verus! {

/// Why something could not be done.
pub struct Failure {
    pub message: String,
}

impl View for Failure {
    type V = Seq<char>;

    open spec fn view(&self) -> Seq<char> {
        self.message@
    }
}

impl Failure {
    pub fn new(message: &str) -> (failure: Failure)
        ensures
            failure@ == message@,
    {
        Failure { message: message.to_owned() }
    }
}

} // verus!
