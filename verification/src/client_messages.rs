//! The messages exchanged with clients, in their logical shape. The wire
//! encoding is the transport layer's concern; it hands the core these
//! values and takes them back.

use vstd::prelude::*;

use crate::room::{MakeActionResult, MakeActionResultView};
use crate::server_messages::{
    MatchmakingStatus, ProcessClientMessageResult, ProcessResultView, StartMatchmakingResultPayload,
};
use crate::types::{Action, RoomId, UserAction, UserId};

verus! {

/// A client's parsed intent.
#[derive(Clone, Copy, Debug)]
pub enum IncomingClientMessage {
    StartMatchmaking,
    MakeAction(MakeActionPayload),
}

/// A move submitted for one match.
#[derive(Clone, Copy, Debug)]
pub struct MakeActionPayload {
    pub room: RoomId,
    pub action: Action,
}

/// A message for a client.
#[derive(Debug)]
pub enum OutgoingClientMessage {
    Error(ErrorPayload),
    ConfirmConnect(ConfirmConnectPayload),
    MatchmakingSuccess(MatchmakingSuccessPayload),
    MatchmakingStarted,
    MakeActionSuccess,
    RoundFinished(RoundFinishedPayload),
    GameFinished(GameFinishedPayload),
}

/// A human-readable failure reply.
#[derive(Debug)]
pub struct ErrorPayload {
    pub message: String,
}

/// The greeting sent right after a connection is attached.
#[derive(Debug)]
pub struct ConfirmConnectPayload {
    pub message: String,
}

/// Both sides of a fresh pairing learn the match and the opponent.
#[derive(Clone, Copy, Debug)]
pub struct MatchmakingSuccessPayload {
    pub room: RoomId,
    pub opponent: UserId,
}

/// One submitted action, as reported back to clients.
#[derive(Clone, Copy, Debug)]
pub struct ActionHistory {
    pub user_id: UserId,
    pub action: Action,
}

/// A decided round in a match that continues.
#[derive(Debug)]
pub struct RoundFinishedPayload {
    pub winner: Option<UserId>,
    pub actions: Vec<ActionHistory>,
    pub next_round_count: usize,
}

/// A decided round that ended the match.
#[derive(Debug)]
pub struct GameFinishedPayload {
    pub winner: Option<UserId>,
    pub actions: Vec<ActionHistory>,
}

/// Mathematical image of an `OutgoingClientMessage`.
#[verifier::ext_equal]
pub enum OutgoingView {
    Error { message: Seq<char> },
    ConfirmConnect { message: Seq<char> },
    MatchmakingSuccess { room: RoomId, opponent: UserId },
    MatchmakingStarted,
    MakeActionSuccess,
    RoundFinished { winner: Option<UserId>, actions: Seq<ActionHistory>, next_round_count: int },
    GameFinished { winner: Option<UserId>, actions: Seq<ActionHistory> },
}

impl View for OutgoingClientMessage {
    type V = OutgoingView;

    open spec fn view(&self) -> OutgoingView {
        match self {
            OutgoingClientMessage::Error(p) => OutgoingView::Error { message: p.message@ },
            OutgoingClientMessage::ConfirmConnect(p) => OutgoingView::ConfirmConnect {
                message: p.message@,
            },
            OutgoingClientMessage::MatchmakingSuccess(p) => OutgoingView::MatchmakingSuccess {
                room: p.room,
                opponent: p.opponent,
            },
            OutgoingClientMessage::MatchmakingStarted => OutgoingView::MatchmakingStarted,
            OutgoingClientMessage::MakeActionSuccess => OutgoingView::MakeActionSuccess,
            OutgoingClientMessage::RoundFinished(p) => OutgoingView::RoundFinished {
                winner: p.winner,
                actions: p.actions@,
                next_round_count: p.next_round_count as int,
            },
            OutgoingClientMessage::GameFinished(p) => OutgoingView::GameFinished {
                winner: p.winner,
                actions: p.actions@,
            },
        }
    }
}

/// What one submission looks like in a round report.
pub open spec fn history_entry(ua: UserAction) -> ActionHistory {
    ActionHistory { user_id: ua.user_id, action: ua.action }
}

/// A round's action list, as reported back to clients.
pub open spec fn history_of(actions: Seq<UserAction>) -> Seq<ActionHistory> {
    actions.map_values(|ua: UserAction| history_entry(ua))
}

impl From<UserAction> for ActionHistory {
    /// A submission reported verbatim: same user, same action.
    fn from(value: UserAction) -> (r: Self) {
        ActionHistory { user_id: value.user_id, action: value.action }
    }
}

impl vstd::std_specs::convert::FromSpecImpl<UserAction> for ActionHistory {
    open spec fn obeys_from_spec() -> bool {
        true
    }

    open spec fn from_spec(t: UserAction) -> Self {
        history_entry(t)
    }
}

/// Converts a round's action list for a client-facing report.
pub fn actions_to_history(v: &Vec<UserAction>) -> (r: Vec<ActionHistory>)
    ensures
        r@ == history_of(v@),
{
    let mut r: Vec<ActionHistory> = Vec::new();
    let mut i: usize = 0;
    while i < v.len()
        invariant
            0 <= i <= v.len(),
            r@ == history_of(v@.take(i as int)),
        decreases v.len() - i,
    {
        r.push(ActionHistory::from(v[i]));
        proof {
            assert(history_of(v@.take(i + 1 as int)) =~= history_of(v@.take(i as int)).push(
                history_entry(v@[i as int]),
            ));
        }
        i = i + 1;
    }
    proof {
        assert(v@.take(v@.len() as int) =~= v@);
    }
    r
}

/// A matchmaking reply can only be turned into a client message when a
/// successful pairing names both the opponent and the match.
pub open spec fn matchmaking_payload_wf(p: StartMatchmakingResultPayload) -> bool {
    p.status is Found ==> (p.opponent is Some && p.room is Some)
}

/// The client-facing message that reports a successful request.
pub open spec fn spec_outgoing(value: ProcessResultView) -> OutgoingView {
    match value {
        ProcessResultView::StartMatchmakingResult(p) => match p.status {
            MatchmakingStatus::Searching => OutgoingView::MatchmakingStarted,
            MatchmakingStatus::Found => OutgoingView::MatchmakingSuccess {
                room: p.room->0,
                opponent: p.opponent->0,
            },
        },
        ProcessResultView::MakeActionResult(m) => match m {
            MakeActionResultView::Accepted => OutgoingView::MakeActionSuccess,
            MakeActionResultView::RoundFinished { winner, actions, next_round_cound } =>
                OutgoingView::RoundFinished {
                    winner,
                    actions: history_of(actions),
                    next_round_count: next_round_cound,
                },
            MakeActionResultView::GameFinished { winner, actions } => OutgoingView::GameFinished {
                winner,
                actions: history_of(actions),
            },
        },
    }
}

impl OutgoingClientMessage {
    /// Encodes a request's successful reply as the message its sender
    /// receives.
    pub fn from(value: ProcessClientMessageResult) -> (r: OutgoingClientMessage)
        requires
            (value@ matches ProcessResultView::StartMatchmakingResult(p) ==>
                matchmaking_payload_wf(p)),
        ensures
            r@ == spec_outgoing(value@),
    {
        match value {
            ProcessClientMessageResult::StartMatchmakingResult(payload) => match payload.status {
                MatchmakingStatus::Searching => OutgoingClientMessage::MatchmakingStarted,
                MatchmakingStatus::Found => OutgoingClientMessage::MatchmakingSuccess(
                    MatchmakingSuccessPayload {
                        opponent: payload.opponent.unwrap(),
                        room: payload.room.unwrap(),
                    },
                ),
            },
            ProcessClientMessageResult::MakeActionResult(payload) => match payload {
                MakeActionResult::Accepted => OutgoingClientMessage::MakeActionSuccess,
                MakeActionResult::RoundFinished(round_result) => OutgoingClientMessage::RoundFinished(
                    RoundFinishedPayload {
                        winner: round_result.winner,
                        actions: actions_to_history(&round_result.actions),
                        next_round_count: round_result.next_round_cound,
                    },
                ),
                MakeActionResult::GameFinished(game_result) => OutgoingClientMessage::GameFinished(
                    GameFinishedPayload {
                        winner: game_result.winner,
                        actions: actions_to_history(&game_result.actions),
                    },
                ),
            },
        }
    }
}

} // verus!
