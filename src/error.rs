//! The error reported by every fallible step of the tool.
use vstd::prelude::*;
use crate::text::{append_chars, append_str, chars_of, string_of};

verus! {

/// An error with the name of the step that failed and a message.
#[derive(Debug)]
pub struct APIError {
    pub name: String,
    pub message: String,
}

/// The text shown for an error: `<name>: <message>`.
pub open spec fn error_text(name: Seq<char>, message: Seq<char>) -> Seq<char> {
    name + ": "@ + message
}

impl APIError {
    /// An error of step `name` caused by an underlying error whose text is `err`.
    pub fn new(name: &str, err: &str) -> (r: Self)
        ensures
            r.name@ == name@,
            r.message@ == err@,
    {
        APIError { name: name.to_string(), message: err.to_string() }
    }

    pub fn new_msg(name: &str, message: &str) -> (r: Self)
        ensures
            r.name@ == name@,
            r.message@ == message@,
    {
        APIError { name: name.to_string(), message: message.to_string() }
    }

    /// `<name>: <message>`.
    pub fn to_string(&self) -> (r: String)
        ensures
            r@ == error_text(self.name@, self.message@),
    {
        let mut v = chars_of(self.name.as_str());
        append_str(&mut v, ": ");
        append_chars(&mut v, &chars_of(self.message.as_str()));
        string_of(&v)
    }

    /// This error as the cause of a failure of step `stage`.
    pub fn wrap(stage: &str, cause: &APIError) -> (r: Self)
        ensures
            r.name@ == stage@,
            r.message@ == error_text(cause.name@, cause.message@),
    {
        APIError { name: stage.to_string(), message: cause.to_string() }
    }
}

} // verus!
