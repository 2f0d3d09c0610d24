//! Context curation for commit-message and README generation: file
//! classification, diff filtering under a byte budget, repository content
//! assembly, the retry protocol around a generation call, and cleanup of the
//! generated text.

pub mod text;
pub mod classify;
pub mod lines;
pub mod diff_filter;
pub mod cleanup;
pub mod error;
pub mod retry;
pub mod assemble;
pub mod cli;
pub mod git;
pub mod readme;
pub mod provider;
