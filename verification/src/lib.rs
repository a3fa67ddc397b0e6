//! A lint-hook decision library.
//!
//! An agent/editor pipeline invokes a hook once per file edit.  The hook
//! reads an event payload, resolves which project owns the edited file,
//! runs a lint tool over it, and answers with a single-line
//! "continue"/"block" decision.  This crate holds the verified logic of
//! that pipeline: payload field extraction, project resolution, lint tool
//! selection and output filtering, session batching, and response
//! formatting.  Process and filesystem access stays with the caller; every
//! function here is deterministic over its arguments.

pub mod chars;
pub mod extract;
pub mod hook;
pub mod lint;
pub mod project;
pub mod response;
pub mod store;
