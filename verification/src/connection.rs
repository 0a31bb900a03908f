//! The connection-local rules: the heartbeat liveness check and the
//! fixed messages a connection sends on its own. The transport layer
//! owns the channel and the clock; it feeds elapsed time in and carries
//! the returned messages out.

use vstd::prelude::*;

use crate::client_messages::{
    ConfirmConnectPayload, ErrorPayload, OutgoingClientMessage, OutgoingView,
};

verus! {

/// Milliseconds between transport-level pings.
pub const PING_INTERVAL_MS: u64 = 5000;

/// Milliseconds of peer silence after which a connection is dead.
pub const TIMEOUT_MS: u64 = 10000;

/// What a heartbeat tick does: keep probing, or stop the session.
#[derive(Clone, Copy, PartialEq, Eq, Structural, Debug)]
pub enum HeartbeatDecision {
    Ping,
    Stop,
}

/// The heartbeat liveness rule: a connection whose last inbound ping or
/// pong lies longer than `TIMEOUT_MS` back is terminated locally, with
/// nothing more sent; otherwise a ping goes out. Application traffic
/// plays no part in the check.
pub fn heartbeat_tick(elapsed_since_last_ping_ms: u64) -> (d: HeartbeatDecision)
    ensures
        d == (if elapsed_since_last_ping_ms > TIMEOUT_MS {
            HeartbeatDecision::Stop
        } else {
            HeartbeatDecision::Ping
        }),
{
    if elapsed_since_last_ping_ms > TIMEOUT_MS {
        HeartbeatDecision::Stop
    } else {
        HeartbeatDecision::Ping
    }
}

/// The greeting pushed to a client right after its connection attaches.
pub fn confirm_connect_message() -> (m: OutgoingClientMessage)
    ensures
        m@ == (OutgoingView::ConfirmConnect { message: "Connection established"@ }),
{
    OutgoingClientMessage::ConfirmConnect(
        ConfirmConnectPayload { message: "Connection established".to_owned() },
    )
}

/// The reply to an inbound message that does not parse as an intent; the
/// connection stays open.
pub fn bad_request_message() -> (m: OutgoingClientMessage)
    ensures
        m@ == (OutgoingView::Error { message: "Bad request"@ }),
{
    OutgoingClientMessage::Error(ErrorPayload { message: "Bad request".to_owned() })
}

/// The reply when the router cannot be reached or fails internally.
pub fn internal_error_message() -> (m: OutgoingClientMessage)
    ensures
        m@ == (OutgoingView::Error { message: "Internal error: Couldn't process event"@ }),
{
    OutgoingClientMessage::Error(
        ErrorPayload { message: "Internal error: Couldn't process event".to_owned() },
    )
}

} // verus!
