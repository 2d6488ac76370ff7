//! The engines: dispatchers that route a stream of events to accounts.
//!
//! Every flavour keeps the events of one client in their order, which is all
//! an account depends on; `lemma_flavours_agree` in [`routing`] says so.

pub mod basic;
pub mod routing;
pub mod stream_like;

pub use basic::{BasicEngine, EngineError, ParseError};
pub use stream_like::StreamLikeEngine;
