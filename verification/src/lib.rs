//! Core text-processing pipeline of a chat bot that forwards code snippets
//! to an online execution service: wrapping snippets into runnable programs,
//! parsing `key=value` command flags, carving the relevant region out of noisy
//! tool output, and fitting the result into a size-limited reply.
//!
//! Everything here is computation on plain values; the HTTP calls to the
//! execution service, the local formatting subprocess and the chat platform
//! itself live with the embedding program, which hands the results back in.
#![verifier::loop_isolation(false)]

pub mod bench;
pub mod extract;
pub mod flags;
pub mod help;
pub mod laws;
pub mod playground;
pub mod reply;
pub mod text;
pub mod wrap;
