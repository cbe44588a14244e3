//! The error type reported by identifier operations.

use vstd::prelude::*;

verus! {

/// A failed identifier operation, carrying a readable message.
#[derive(Debug)]
pub struct CNPJError {
    mensagem: String,
}

impl View for CNPJError {
    type V = Seq<char>;

    /// An error is abstracted as its message.
    closed spec fn view(&self) -> Seq<char> {
        self.mensagem@
    }
}

impl CNPJError {
    /// Builds an error from its message.
    pub fn new(mensagem: &str) -> (e: Self)
        ensures
            e@ == mensagem@,
    {
        CNPJError { mensagem: mensagem.to_owned() }
    }

    /// The message describing what failed.
    pub fn mensagem(&self) -> (m: &String)
        ensures
            m@ == self@,
    {
        &self.mensagem
    }
}

} // verus!
