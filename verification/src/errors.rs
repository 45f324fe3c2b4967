use crate::text::{append_str, string_of};
use vstd::prelude::*;

verus! {

/// An error found by the type checker.
#[derive(Debug, Clone)]
pub struct CheckerError(pub String);

impl CheckerError {
    pub fn new(message: &str) -> (r: Self)
        ensures
            r.0@ == message@,
    {
        CheckerError(string_of(message))
    }

    /// The text the error displays: its message.
    pub fn message(&self) -> (r: &str)
        ensures
            r@ == self.0@,
    {
        self.0.as_str()
    }
}

/// An error found while resolving names and types.
#[derive(Debug, PartialEq, Eq, Clone)]
pub struct ResolverError {
    pub message: String,
}

impl ResolverError {
    pub fn from_message(message: &str) -> (r: Self)
        ensures
            r.message@ == message@,
    {
        ResolverError { message: string_of(message) }
    }

    /// The text the error displays: `ResolverError: `, the message, a newline.
    pub fn display_text(&self) -> (r: String)
        ensures
            r@ == "ResolverError: "@ + self.message@ + "\n"@,
    {
        let mut r = string_of("ResolverError: ");
        append_str(&mut r, self.message.as_str());
        append_str(&mut r, "\n");
        r
    }
}

/// An error found while inferring the type of an expression.
#[derive(Debug, PartialEq, Eq, Clone)]
pub struct InferError(pub String);

impl InferError {
    /// The text the error displays: its message.
    pub fn message(&self) -> (r: &str)
        ensures
            r@ == self.0@,
    {
        self.0.as_str()
    }
}

/// An error raised by the declaration arena.
#[derive(Debug, Clone)]
pub struct ArenaError(pub String);

impl ArenaError {
    /// The text the error displays: its message.
    pub fn message(&self) -> (r: &str)
        ensures
            r@ == self.0@,
    {
        self.0.as_str()
    }
}

} // verus!
