//! Event subscriptions over a media-playback engine.
//!
//! The engine hands out its events through one polling primitive and one
//! wake-up callback. This library holds the rules that turn that single
//! source into independent per-subscriber batches: which engine requests a
//! subscription causes, how one pass over the polled events is split between
//! the polling subscriber and the others, and what a subscriber does next.
//! Every function states its behaviour in a contract that is proved.
//!
//! The library never talks to the engine itself. It hands the requests
//! that are due to its caller, and takes the engine's answers as plain
//! values.

pub mod error;
pub mod event;
pub mod hub;
pub mod iter;
pub mod laws;
pub mod model;
pub mod preserve;
pub mod raw;
pub mod request;
pub mod signal;

pub use error::Error;
pub use event::{
    mpv_log_level_as_str, EndFileReason, Event, EventKind, Format, LogLevel, PropertyData,
};
pub use hub::Mpv;
pub use iter::{DrainPass, Drained, EventIter, Pull, Stage};
pub use raw::{DrainPhase, RawData, RawEvent, RawKind, RawValue};
pub use request::{silencing_requests, EngineRequest};
pub use signal::WakeSignal;
