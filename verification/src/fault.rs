//! Errors as chains of messages.

use vstd::prelude::*;

use crate::text::{copy_texts, join, joined, texts};

verus! {

/// Why something failed: a message, and behind it the messages of its causes.
#[derive(Debug)]
pub struct Fault {
    pub chain: Vec<String>,
}

impl View for Fault {
    type V = Seq<Seq<char>>;

    open spec fn view(&self) -> Seq<Seq<char>> {
        texts(self.chain@)
    }
}

/// The whole text of an error.
pub open spec fn fault_text(chain: Seq<Seq<char>>) -> Seq<char> {
    joined(chain, ": "@)
}

/// Whether an error has a message and one cause.
pub open spec fn has_cause(chain: Seq<Seq<char>>, message: Seq<char>) -> bool {
    chain.len() == 2 && chain[0] == message
}

/// What is known of an error: its message alone, its message and that of its cause, its message in
/// front of a cause that came from outside, or no more than that it came from outside.
pub enum Trouble {
    Plain(Seq<char>),
    Because(Seq<char>, Seq<char>),
    Caused(Seq<char>),
    Outside,
}

/// Whether an error is what is known of it.
pub open spec fn fits(chain: Seq<Seq<char>>, trouble: Trouble) -> bool {
    match trouble {
        Trouble::Plain(message) => chain == seq![message],
        Trouble::Because(message, cause) => chain == seq![message, cause],
        Trouble::Caused(message) => has_cause(chain, message),
        Trouble::Outside => chain.len() == 1,
    }
}

/// What went wrong in a check: its fault, where it has one.
pub open spec fn checked(r: Result<(), Fault>) -> Option<Seq<Seq<char>>> {
    match r {
        Ok(()) => None,
        Err(fault) => Some(fault@),
    }
}

/// A fault without a cause, as a chain.
pub open spec fn alone(message: Option<Seq<char>>) -> Option<Seq<Seq<char>>> {
    match message {
        Some(text) => Some(seq![text]),
        None => None,
    }
}

impl Fault {
    /// An error without a cause.
    pub fn new(message: String) -> (r: Fault)
        ensures
            r@ == seq![message@],
    {
        let mut chain: Vec<String> = Vec::new();
        chain.push(message);
        let r = Fault { chain };
        assert(r@ =~= seq![message@]);
        r
    }

    /// An error without a cause.
    pub fn of(message: &str) -> (r: Fault)
        ensures
            r@ == seq![message@],
    {
        Fault::new(message.to_owned())
    }

    /// An error with the message of its cause.
    pub fn because(message: String, cause: String) -> (r: Fault)
        ensures
            r@ == seq![message@, cause@],
    {
        let mut chain: Vec<String> = Vec::new();
        chain.push(message);
        chain.push(cause);
        let r = Fault { chain };
        assert(r@ =~= seq![message@, cause@]);
        r
    }

    /// The error as the cause of another.
    pub fn context(self, message: String) -> (r: Fault)
        ensures
            r@ == seq![message@] + self@,
    {
        let ghost before = self@;
        let mut chain = self.chain;
        chain.insert(0, message);
        let r = Fault { chain };
        assert(r@ =~= seq![message@] + before);
        r
    }

    /// A copy of the error.
    pub fn copy(&self) -> (r: Fault)
        ensures
            r@ == self@,
    {
        Fault { chain: copy_texts(&self.chain) }
    }

    /// The whole text of the error.
    pub fn text(&self) -> (r: String)
        ensures
            r@ == fault_text(self@),
    {
        join(&self.chain, ": ")
    }
}

} // verus!
