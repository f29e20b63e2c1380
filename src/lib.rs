//! The turn engine of an assistant that lets a language model use tools:
//! it recovers tool calls from the model's replies, maps each to a typed
//! request, drives the bounded rounds of calls and follow-up queries, and
//! computes what the file, shell and cloud-CLI tools report.
use vstd::prelude::*;

pub mod command;
pub mod content;
pub mod context;
pub mod conversation;
pub mod decimal;
pub mod dispatch;
pub mod external;
pub mod invocation;
pub mod listing;
pub mod markup_law;
pub mod parser;
pub mod paths;
pub mod prompt;
pub mod search;
pub mod text;
pub mod turn;

verus! {

} // verus!
