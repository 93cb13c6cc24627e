//! The error of the library: a message and the messages of its causes.
use vstd::prelude::*;

use crate::text;
use crate::text_search::join;

verus! {

/// An error, with what went wrong first and the causes behind it.
#[derive(Debug)]
pub struct ForemanError {
    pub chain: Vec<String>,
}

impl View for ForemanError {
    type V = Seq<Seq<char>>;

    open spec fn view(&self) -> Seq<Seq<char>> {
        text::texts(self.chain@)
    }
}

impl ForemanError {
    /// An error without a cause.
    pub fn new(message: String) -> (r: Self)
        ensures
            r@ == seq![message@],
    {
        let mut chain: Vec<String> = Vec::new();
        chain.push(message);
        let r = ForemanError { chain };
        assert(r@ == seq![message@]);
        r
    }

    /// An error without a cause, from a text.
    pub fn from_text(message: &str) -> (r: Self)
        ensures
            r@ == seq![message@],
    {
        ForemanError::new(message.to_owned())
    }

    /// This error as the cause of `message`.
    pub fn context(self, message: String) -> (r: Self)
        ensures
            r@ == seq![message@] + self@,
    {
        let ghost before = self@;
        let mut chain = self.chain;
        let ghost old_chain = chain@;
        chain.insert(0, message);
        let r = ForemanError { chain };
        proof {
            assert(chain@ == seq![message] + old_chain);
            assert(r@ == seq![message@] + before);
        }
        r
    }

    /// What went wrong, without the causes.
    pub fn message(&self) -> (r: String)
        ensures
            self@.len() > 0 ==> r@ == self@[0],
            self@.len() == 0 ==> r@.len() == 0,
    {
        if self.chain.len() > 0 {
            self.chain[0].clone()
        } else {
            String::new()
        }
    }

    /// What went wrong, with the causes behind it.
    pub fn full_message(&self) -> (r: String)
        ensures
            r@ == text::joined(self@, ": "@),
    {
        join(&self.chain, ": ")
    }
}

} // verus!
