//! The choices of the command line, as plain values.
use vstd::prelude::*;
use crate::error::APIError;
use crate::text::{append_str, chars_of, string_of};

verus! {

/// What the tool generates.
#[derive(Clone, Copy, Debug, PartialEq, Eq, Structural)]
pub enum CliVarient {
    CommitMessage,
    Readme,
}

/// Which changes a commit message describes.
#[derive(Clone, Copy, Debug, PartialEq, Eq, Structural)]
pub enum CommitVarient {
    /// The staging area.
    Staged,
    /// The working tree against the last commit.
    Any,
}

pub open spec fn scope_name(v: CommitVarient) -> Seq<char> {
    match v {
        CommitVarient::Staged => "staged"@,
        CommitVarient::Any => "any"@,
    }
}

impl CommitVarient {
    pub fn to_string(&self) -> (r: String)
        ensures
            r@ == scope_name(*self),
    {
        match self {
            CommitVarient::Staged => "staged".to_string(),
            CommitVarient::Any => "any".to_string(),
        }
    }
}

/// The model provider that generates the text.
#[derive(Clone, Copy, Debug, PartialEq, Eq, Structural)]
pub enum Provider {
    Gemini,
    Cerebras,
}

pub open spec fn key_variable(p: Provider) -> Seq<char> {
    match p {
        Provider::Gemini => "GEMINI_API_KEY"@,
        Provider::Cerebras => "CEREBRAS_API_KEY"@,
    }
}

impl Provider {
    /// The environment variable that holds the provider's API key.
    pub fn api_key_variable(&self) -> (r: &'static str)
        ensures
            r@ == key_variable(*self),
    {
        match self {
            Provider::Gemini => "GEMINI_API_KEY",
            Provider::Cerebras => "CEREBRAS_API_KEY",
        }
    }

    /// The error for a missing API key, naming the variable.
    pub fn missing_key_error(&self, cause: &str) -> (r: APIError)
        ensures
            r.name@ == key_variable(*self) + " not found"@,
            r.message@ == cause@,
    {
        let mut name = chars_of(self.api_key_variable());
        append_str(&mut name, " not found");
        APIError::new(string_of(&name).as_str(), cause)
    }
}

#[derive(Clone, Copy, Debug, PartialEq, Eq, Structural)]
pub struct Cli {
    pub varient: CliVarient,
    pub commit_scope: Option<CommitVarient>,
    pub provider: Provider,
}

} // verus!
