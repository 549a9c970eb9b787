//! The one error type of the library: a message for the operator.

use vstd::prelude::*;

verus! {

/// An error that carries nothing but its message.
#[derive(Debug)]
pub struct AnyError {
    pub message: String,
}

impl View for AnyError {
    type V = Seq<char>;

    open spec fn view(&self) -> Seq<char> {
        self.message@
    }
}

impl AnyError {
    /// The message, as it is shown to the operator.
    pub fn to_string(&self) -> (text: String)
        ensures
            text@ == self@,
    {
        self.message.clone()
    }
}

/// Makes an error out of its message.
pub fn any_error(message: &str) -> (error: AnyError)
    ensures
        error@ == message@,
{
    AnyError { message: message.to_owned() }
}

/// What a fallible operation gave, with every text taken by its characters.
pub open spec fn outcome<T: View>(result: Result<T, AnyError>) -> Result<T::V, Seq<char>> {
    match result {
        Ok(value) => Ok(value@),
        Err(error) => Err(error@),
    }
}

} // verus!
