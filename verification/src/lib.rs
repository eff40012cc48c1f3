use vstd::prelude::*;

pub mod text;
pub mod paths;
pub mod error;
pub mod json;
pub mod civil;
pub mod transfer;
pub mod update;
pub mod storage;
pub mod web;
pub mod ingest;
pub mod ingest_errors;
pub mod session_meta;
pub mod source_events;
pub mod opencode;
pub mod hermes;
pub mod import_steps;
pub mod compact;
pub mod cli;
pub mod journal;
pub mod reports;
pub mod settle;
pub mod update_steps;
pub mod taste;

verus! {

} // verus!
