//! Natural-language shell: the decision logic behind `nlsh`.
//!
//! Every line typed at the prompt is classified as a shell command or as a
//! request in plain English; requests go to a local model, whose answer is
//! reduced to one command, checked for danger and confirmed before it runs.
//! This crate holds that logic with its contracts; the terminal, the
//! pseudoterminal, the subprocesses and the network live in the program
//! around it.
use vstd::prelude::*;

pub mod classify;
pub mod config;
pub mod confirm;
pub mod intercept;
pub mod llm;
pub mod ollama;
pub mod parser;
pub mod prompt;
pub mod safety;
pub mod setup;
pub mod text;

verus! {

} // verus!
