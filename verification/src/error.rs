//! The error type the binding hands back for failures the native engine
//! reports, carrying the engine's own message text.

use vstd::prelude::*;

verus! {

/// An error reported by the native engine.
#[derive(Debug)]
pub struct Error {
    pub message: String,
}

impl Error {
    /// Builds an error carrying the given engine message.
    pub fn new(message: String) -> (r: Error)
        ensures
            r.message@ == message@,
    {
        Error { message }
    }

    /// The engine's message text.
    pub fn text(&self) -> (r: &String)
        ensures
            r@ == self.message@,
    {
        &self.message
    }
}

} // verus!
