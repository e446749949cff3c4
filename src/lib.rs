//! The update ingestion and dispatch core of a chat bot that greets new group members.
//!
//! - `model`: updates, messages and members as the core sees them.
//! - `pipeline`: routing an update to the welcome action and the calls it makes.
//! - `dispatch`: one pipeline pass, call by call, up to the first failure.
//! - `polling`: the polling listener's offset watermark, backoff and stop.
//! - `webhook`: the webhook listener's configuration and its answer to each request.
//! - `shutdown`: the shared cancellation signal and the fail-together wait on both tasks.
use vstd::prelude::*;

pub mod model;
pub mod pipeline;
pub mod dispatch;
pub mod polling;
pub mod webhook;
pub mod shutdown;

verus! {

} // verus!
