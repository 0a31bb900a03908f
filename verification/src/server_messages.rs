//! The messages the router exchanges with connections.

use vstd::prelude::*;

use crate::client_messages::{IncomingClientMessage, OutgoingClientMessage, OutgoingView};
use crate::room::{MakeActionResult, MakeActionResultView};
use crate::types::{ConnectionId, RoomId, UserId};

verus! {

/// Registers `connection` as the one live connection for `user_id`,
/// evicting any previous one.
#[derive(Clone, Copy, Debug)]
pub struct AttachConnection {
    pub connection: ConnectionId,
    pub user_id: UserId,
}

/// Orders a connection to close, with the reason shown to the client.
#[derive(Debug)]
pub struct Close {
    pub reason: String,
}

/// Orders the transport to deliver `message` on connection `connection`.
pub struct SendClientMessage {
    pub connection: ConnectionId,
    pub message: OutgoingClientMessage,
}

/// Mathematical image of a `SendClientMessage`.
#[verifier::ext_equal]
pub struct SendView {
    pub connection: ConnectionId,
    pub message: OutgoingView,
}

impl View for SendClientMessage {
    type V = SendView;

    open spec fn view(&self) -> SendView {
        SendView { connection: self.connection, message: self.message@ }
    }
}

/// A client intent, forwarded by that client's connection.
#[derive(Clone, Copy, Debug)]
pub struct ProcessClientMessage {
    pub message: IncomingClientMessage,
    pub user_id: UserId,
}

/// The reply to one successfully processed client intent.
#[derive(Debug)]
pub enum ProcessClientMessageResult {
    StartMatchmakingResult(StartMatchmakingResultPayload),
    MakeActionResult(MakeActionResult),
}

/// Whether a matchmaking request found an opponent or joined the queue.
#[derive(Clone, Copy, Debug)]
pub enum MatchmakingStatus {
    Searching,
    Found,
}

/// The matchmaking reply: the opponent and match are present exactly
/// when the status says one was found.
#[derive(Clone, Copy, Debug)]
pub struct StartMatchmakingResultPayload {
    pub opponent: Option<UserId>,
    pub room: Option<RoomId>,
    pub status: MatchmakingStatus,
}

/// Mathematical image of a `ProcessClientMessageResult`.
#[verifier::ext_equal]
pub enum ProcessResultView {
    StartMatchmakingResult(StartMatchmakingResultPayload),
    MakeActionResult(MakeActionResultView),
}

impl View for ProcessClientMessageResult {
    type V = ProcessResultView;

    open spec fn view(&self) -> ProcessResultView {
        match self {
            ProcessClientMessageResult::StartMatchmakingResult(p) =>
                ProcessResultView::StartMatchmakingResult(*p),
            ProcessClientMessageResult::MakeActionResult(m) => ProcessResultView::MakeActionResult(
                m@,
            ),
        }
    }
}

} // verus!
