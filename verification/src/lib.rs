//! A task-resolution engine for a configurable chat service.
//!
//! A request names a task (`"kind.name"`); the engine walks the configured
//! task graph — rendering prompt templates, asking a language model for a
//! completion, calling declarative HTTP providers — while threading a
//! string key/value `transform` context through the chain, and finally
//! hands the caller a streamed answer followed by a rendered footer.
//!
//! The engine itself is written as deterministic, verified functions and
//! state machines; the caller performs the actual network traffic and
//! feeds each outcome back in as an event.

pub mod api;
pub mod chat;
pub mod clock;
pub mod config;
pub mod context;
pub mod error;
pub mod jsontext;
pub mod provider;
pub mod render;
pub mod resolve;
pub mod resolver;
pub mod search;
pub mod stream;
pub mod text;

use vstd::prelude::*;

verus! {

} // verus!
