//! The router: connection registry, matchmaking queue, and dispatch of
//! actions to the right match. It owns all cross-user state and
//! processes one request at a time; outward sends are returned as
//! explicit orders for the transport layer to perform.

use vstd::prelude::*;

use std::collections::HashMap;
use std::collections::VecDeque;

use crate::client_messages::{
    history_of, IncomingClientMessage, MatchmakingSuccessPayload, OutgoingClientMessage,
    OutgoingView, RoundFinishedPayload, GameFinishedPayload, actions_to_history,
};
use crate::room::{
    duplicate_action_msg, lemma_step_preserves_wf, not_participant_msg, room_step, MakeAction,
    MakeActionResult, Room, RoomError, RoomStepView, RoomView, spec_new_room,
};
use crate::server_messages::{
    AttachConnection, Close, MatchmakingStatus, ProcessClientMessage, ProcessClientMessageResult,
    SendClientMessage, SendView, StartMatchmakingResultPayload,
};
use crate::types::{Action, ConnectionId, RoomId, UserId};

verus! {

broadcast use vstd::std_specs::hash::group_hash_axioms;

/// A router-side failure, reported to the requesting user only.
#[derive(Debug)]
pub struct ServerError {
    pub message: String,
}

impl From<RoomError> for ServerError {
    /// A match's failure reaches the requesting user with its message
    /// kept as it is.
    fn from(value: RoomError) -> Self {
        ServerError { message: value.message }
    }
}

impl vstd::std_specs::convert::FromSpecImpl<RoomError> for ServerError {
    open spec fn obeys_from_spec() -> bool {
        true
    }

    open spec fn from_spec(t: RoomError) -> Self {
        ServerError { message: t.message }
    }
}

/// The reason shown to a client whose connection is replaced by a newer
/// one for the same user.
pub open spec fn duplicate_connection_msg() -> Seq<char> {
    "Only one connection per user"@
}

/// Reply when a queued opponent has no registered connection.
pub open spec fn opponent_missing_msg() -> Seq<char> {
    "Opponent connection is not initialized"@
}

/// Reply to an action naming a match that is not indexed.
pub open spec fn no_such_room_msg() -> Seq<char> {
    "No such room"@
}

/// The router's state: the registry of live connections, the FIFO
/// matchmaking queue, and the index of running matches.
pub struct Server {
    connections: HashMap<UserId, ConnectionId>,
    matchmaking_queue: VecDeque<UserId>,
    rooms: HashMap<RoomId, Room>,
}

/// Mathematical image of a `Server`.
#[verifier::ext_equal]
pub struct ServerView {
    pub connections: Map<UserId, ConnectionId>,
    pub queue: Seq<UserId>,
    pub rooms: Map<RoomId, RoomView>,
}

impl View for Server {
    type V = ServerView;

    closed spec fn view(&self) -> ServerView {
        ServerView {
            connections: self.connections@,
            queue: self.matchmaking_queue@,
            rooms: self.rooms@.map_values(|r: Room| r@),
        }
    }
}

impl ServerView {
    /// Every indexed match satisfies the match invariant.
    pub open spec fn wf(self) -> bool {
        forall|id: RoomId| self.rooms.dom().contains(id) ==> (#[trigger] self.rooms[id]).wf()
    }
}

/// The reply to a matchmaking request, at the specification level.
pub enum MatchmakingReplyView {
    Searching,
    Found { room: RoomId, opponent: UserId },
    OpponentMissing,
}

/// The reply to one client intent, at the specification level.
pub enum ServerStepView {
    Matchmaking(MatchmakingReplyView),
    NoSuchRoom,
    RoomReply(RoomStepView),
}

/// One `StartMatchmaking` against the router's state. A user already
/// waiting stays queued once and is told they are still searching. An
/// empty queue enqueues the caller. Otherwise the queue's head is paired
/// with the caller: the head's registry entry is looked up (its absence
/// is an internal fault, reported after the head has left the queue), a
/// match named `rid` is created with the caller first, and the opponent
/// is pushed a success message over their registered connection.
pub open spec fn start_matchmaking_step(v: ServerView, user: UserId, rid: RoomId) -> (
    ServerView,
    ServerStepView,
    Option<SendView>,
) {
    if v.queue.contains(user) {
        (v, ServerStepView::Matchmaking(MatchmakingReplyView::Searching), None)
    } else if v.queue.len() > 0 {
        let opponent = v.queue.first();
        let v_popped = ServerView { queue: v.queue.drop_first(), ..v };
        if !v.connections.contains_key(opponent) {
            (v_popped, ServerStepView::Matchmaking(MatchmakingReplyView::OpponentMissing), None)
        } else {
            let v2 = ServerView {
                rooms: v_popped.rooms.insert(rid, spec_new_room(rid, user, opponent)),
                ..v_popped
            };
            let send = SendView {
                connection: v.connections[opponent],
                message: OutgoingView::MatchmakingSuccess { room: rid, opponent: user },
            };
            (
                v2,
                ServerStepView::Matchmaking(MatchmakingReplyView::Found { room: rid, opponent }),
                Some(send),
            )
        }
    } else {
        (
            ServerView { queue: v.queue.push(user), ..v },
            ServerStepView::Matchmaking(MatchmakingReplyView::Searching),
            None,
        )
    }
}

/// One `MakeAction` against the router's state: an unknown match id is
/// rejected; otherwise the named match takes the step, and a decided
/// round is also pushed to the other player's registered connection.
pub open spec fn make_action_step(v: ServerView, user: UserId, room_id: RoomId, action: Action) -> (
    ServerView,
    ServerStepView,
    Option<SendView>,
) {
    if !v.rooms.dom().contains(room_id) {
        (v, ServerStepView::NoSuchRoom, None)
    } else {
        let room = v.rooms[room_id];
        let stepped = room_step(room, user, action);
        let v2 = ServerView { rooms: v.rooms.insert(room_id, stepped.0), ..v };
        let opponent = if room.users[0] == user {
            room.users[1]
        } else {
            room.users[0]
        };
        let push = match stepped.1 {
            RoomStepView::RoundFinished { winner, actions, next_round_count } => if
                v.connections.contains_key(opponent) {
                Some(
                    SendView {
                        connection: v.connections[opponent],
                        message: OutgoingView::RoundFinished {
                            winner,
                            actions: history_of(actions),
                            next_round_count,
                        },
                    },
                )
            } else {
                None
            },
            RoomStepView::GameFinished { winner, actions } => if v.connections.contains_key(
                opponent,
            ) {
                Some(
                    SendView {
                        connection: v.connections[opponent],
                        message: OutgoingView::GameFinished {
                            winner,
                            actions: history_of(actions),
                        },
                    },
                )
            } else {
                None
            },
            _ => None,
        };
        (v2, ServerStepView::RoomReply(stepped.1), push)
    }
}

/// One client intent against the router's state.
pub open spec fn server_step(
    v: ServerView,
    user: UserId,
    message: IncomingClientMessage,
    rid: RoomId,
) -> (ServerView, ServerStepView, Option<SendView>) {
    match message {
        IncomingClientMessage::StartMatchmaking => start_matchmaking_step(v, user, rid),
        IncomingClientMessage::MakeAction(p) => make_action_step(v, user, p.room, p.action),
    }
}

/// How the executable reply corresponds to the specification outcome.
pub open spec fn server_reply_matches(
    r: Result<ProcessClientMessageResult, ServerError>,
    step: ServerStepView,
) -> bool {
    match step {
        ServerStepView::Matchmaking(m) => match m {
            MatchmakingReplyView::Searching => (r matches Ok(
                ProcessClientMessageResult::StartMatchmakingResult(p),
            ) && p.opponent is None && p.room is None && p.status is Searching),
            MatchmakingReplyView::Found { room, opponent } => (r matches Ok(
                ProcessClientMessageResult::StartMatchmakingResult(p),
            ) && p.opponent == Some(opponent) && p.room == Some(room) && p.status is Found),
            MatchmakingReplyView::OpponentMissing => (r matches Err(e) && e.message@
                == opponent_missing_msg()),
        },
        ServerStepView::NoSuchRoom => (r matches Err(e) && e.message@ == no_such_room_msg()),
        ServerStepView::RoomReply(out) => match out {
            RoomStepView::NotAParticipant => (r matches Err(e) && e.message@
                == not_participant_msg()),
            RoomStepView::DuplicateAction => (r matches Err(e) && e.message@
                == duplicate_action_msg()),
            RoomStepView::Accepted => (r matches Ok(
                ProcessClientMessageResult::MakeActionResult(m),
            ) && m@ is Accepted),
            RoomStepView::RoundFinished { winner, actions, next_round_count } => (r matches Ok(
                ProcessClientMessageResult::MakeActionResult(m),
            ) && m@ == crate::room::MakeActionResultView::RoundFinished {
                winner,
                actions,
                next_round_cound: next_round_count,
            }),
            RoomStepView::GameFinished { winner, actions } => (r matches Ok(
                ProcessClientMessageResult::MakeActionResult(m),
            ) && m@ == crate::room::MakeActionResultView::GameFinished { winner, actions }),
        },
    }
}

/// How the executable send order corresponds to the specification's.
pub open spec fn send_matches(e: Option<SendClientMessage>, s: Option<SendView>) -> bool {
    match e {
        Some(m) => s == Some(m@),
        None => s is None,
    }
}

/// Relies on uuid::Uuid::new_v4 for a freshly generated random match id,
/// taken as its 128 bits. Nothing is promised of the value.
#[verifier::external_body]
fn new_room_id() -> RoomId {
    uuid::Uuid::new_v4().as_u128()
}

impl Server {
    /// A router with no connections, no queued users, and no matches.
    pub fn new() -> (s: Server)
        ensures
            s@.connections == Map::<UserId, ConnectionId>::empty(),
            s@.queue == Seq::<UserId>::empty(),
            s@.rooms == Map::<RoomId, RoomView>::empty(),
            s@.wf(),
    {
        let s = Server {
            connections: HashMap::new(),
            matchmaking_queue: VecDeque::new(),
            rooms: HashMap::new(),
        };
        proof {
            assert(s@.rooms =~= Map::<RoomId, RoomView>::empty());
        }
        s
    }

    /// Installs the message's connection as the one live connection for
    /// its user. When the user was already connected, the evicted
    /// connection is returned together with the close order owed to it.
    pub fn handle_attach(&mut self, msg: AttachConnection) -> (evicted: Option<(ConnectionId, Close)>)
        requires
            old(self)@.wf(),
        ensures
            final(self)@.connections == old(self)@.connections.insert(
                msg.user_id,
                msg.connection,
            ),
            final(self)@.queue == old(self)@.queue,
            final(self)@.rooms == old(self)@.rooms,
            final(self)@.wf(),
            match evicted {
                Some(e) => old(self)@.connections.contains_key(msg.user_id) && e.0 == old(
                    self,
                )@.connections[msg.user_id] && e.1.reason@ == duplicate_connection_msg(),
                None => !old(self)@.connections.contains_key(msg.user_id),
            },
    {
        let old_connection = self.connections.insert(msg.user_id, msg.connection);
        match old_connection {
            Some(conn) => Some(
                (conn, Close { reason: "Only one connection per user".to_owned() }),
            ),
            None => None,
        }
    }

    /// Whether a user is waiting in the matchmaking queue.
    fn queue_contains(&self, user_id: UserId) -> (r: bool)
        ensures
            r == self@.queue.contains(user_id),
    {
        let mut i: usize = 0;
        let mut found = false;
        while i < self.matchmaking_queue.len()
            invariant
                0 <= i <= self.matchmaking_queue@.len(),
                found <==> exists|k: int| 0 <= k < i && self.matchmaking_queue@[k] == user_id,
            decreases self.matchmaking_queue@.len() - i,
        {
            if self.matchmaking_queue[i] == user_id {
                found = true;
            }
            i = i + 1;
        }
        found
    }

    /// One `StartMatchmaking`, as `start_matchmaking_step` states it.
    fn start_matchmaking(&mut self, user_id: UserId, room_id: RoomId) -> (r: (
        Result<ProcessClientMessageResult, ServerError>,
        Option<SendClientMessage>,
    ))
        requires
            old(self)@.wf(),
        ensures
            final(self)@.wf(),
            final(self)@ == start_matchmaking_step(old(self)@, user_id, room_id).0,
            server_reply_matches(r.0, start_matchmaking_step(old(self)@, user_id, room_id).1),
            send_matches(r.1, start_matchmaking_step(old(self)@, user_id, room_id).2),
    {
        let ghost v0 = self@;
        if self.queue_contains(user_id) {
            // A user already waiting stays queued once: the repeated
            // request is answered as still searching.
            return (
                Ok(
                    ProcessClientMessageResult::StartMatchmakingResult(
                        StartMatchmakingResultPayload {
                            opponent: None,
                            room: None,
                            status: MatchmakingStatus::Searching,
                        },
                    ),
                ),
                None,
            );
        }
        if self.matchmaking_queue.len() > 0 {
            let opponent_opt = self.matchmaking_queue.pop_front();
            let opponent = opponent_opt.unwrap();
            proof {
                assert(self@.queue =~= v0.queue.drop_first());
            }
            let opponent_connection = self.connections.get(&opponent);
            match opponent_connection {
                None => {
                    proof {
                        assert(self@.rooms =~= v0.rooms);
                        assert(self@.wf());
                    }
                    (
                    Err(
                        ServerError {
                            message: "Opponent connection is not initialized".to_owned(),
                        },
                    ),
                    None,
                )},
                Some(conn_ref) => {
                    let conn = *conn_ref;
                    let room = Room::new(room_id, user_id, opponent);
                    self.rooms.insert(room_id, room);
                    proof {
                        assert(self@.rooms =~= v0.rooms.insert(
                            room_id,
                            spec_new_room(room_id, user_id, opponent),
                        ));
                        assert(spec_new_room(room_id, user_id, opponent).wf());
                        assert forall|id: RoomId| self@.rooms.dom().contains(id) implies (
                        #[trigger] self@.rooms[id]).wf() by {
                            if id != room_id {
                                assert(v0.rooms.dom().contains(id));
                                assert(self@.rooms[id] == v0.rooms[id]);
                            }
                        }
                    }
                    let send = SendClientMessage {
                        connection: conn,
                        message: OutgoingClientMessage::MatchmakingSuccess(
                            MatchmakingSuccessPayload { room: room_id, opponent: user_id },
                        ),
                    };
                    (
                        Ok(
                            ProcessClientMessageResult::StartMatchmakingResult(
                                StartMatchmakingResultPayload {
                                    opponent: Some(opponent),
                                    room: Some(room_id),
                                    status: MatchmakingStatus::Found,
                                },
                            ),
                        ),
                        Some(send),
                    )
                },
            }
        } else {
            self.matchmaking_queue.push_back(user_id);
            (
                Ok(
                    ProcessClientMessageResult::StartMatchmakingResult(
                        StartMatchmakingResultPayload {
                            opponent: None,
                            room: None,
                            status: MatchmakingStatus::Searching,
                        },
                    ),
                ),
                None,
            )
        }
    }

    /// One `MakeAction`, as `make_action_step` states it.
    fn make_action(&mut self, user_id: UserId, room_id: RoomId, action: Action) -> (r: (
        Result<ProcessClientMessageResult, ServerError>,
        Option<SendClientMessage>,
    ))
        requires
            old(self)@.wf(),
        ensures
            final(self)@.wf(),
            final(self)@ == make_action_step(old(self)@, user_id, room_id, action).0,
            server_reply_matches(r.0, make_action_step(old(self)@, user_id, room_id, action).1),
            send_matches(r.1, make_action_step(old(self)@, user_id, room_id, action).2),
    {
        let ghost v0 = self@;
        let room_opt = self.rooms.remove(&room_id);
        match room_opt {
            None => {
                proof {
                    assert(self@.rooms =~= v0.rooms);
                    assert(self@ =~= v0);
                }
                (Err(ServerError { message: "No such room".to_owned() }), None)
            },
            Some(mut room) => {
                let ghost rv0 = room@;
                proof {
                    assert(v0.rooms.dom().contains(room_id));
                    assert(v0.rooms[room_id] == rv0);
                }
                let opponent = if room.users[0] == user_id {
                    room.users[1]
                } else {
                    room.users[0]
                };
                let result = room.handle(MakeAction { action, user_id });
                self.rooms.insert(room_id, room);
                proof {
                    assert(self@.rooms =~= v0.rooms.insert(
                        room_id,
                        room_step(rv0, user_id, action).0,
                    ));
                    lemma_step_preserves_wf(rv0, user_id, action);
                    assert(self@ =~= make_action_step(v0, user_id, room_id, action).0);
                }
                match result {
                    Ok(res) => {
                        let push = match &res {
                            MakeActionResult::Accepted => None,
                            MakeActionResult::RoundFinished(rf) => {
                                match self.connections.get(&opponent) {
                                    Some(c) => Some(
                                        SendClientMessage {
                                            connection: *c,
                                            message: OutgoingClientMessage::RoundFinished(
                                                RoundFinishedPayload {
                                                    winner: rf.winner,
                                                    actions: actions_to_history(&rf.actions),
                                                    next_round_count: rf.next_round_cound,
                                                },
                                            ),
                                        },
                                    ),
                                    None => None,
                                }
                            },
                            MakeActionResult::GameFinished(gf) => {
                                match self.connections.get(&opponent) {
                                    Some(c) => Some(
                                        SendClientMessage {
                                            connection: *c,
                                            message: OutgoingClientMessage::GameFinished(
                                                GameFinishedPayload {
                                                    winner: gf.winner,
                                                    actions: actions_to_history(&gf.actions),
                                                },
                                            ),
                                        },
                                    ),
                                    None => None,
                                }
                            },
                        };
                        (Ok(ProcessClientMessageResult::MakeActionResult(res)), push)
                    },
                    Err(err) => (Err(ServerError::from(err)), None),
                }
            },
        }
    }

    /// Processes one client intent against the router's state. The given
    /// `room_id` names the match created if this request pairs two
    /// users; it is otherwise unused.
    pub fn handle_with_room_id(&mut self, msg: ProcessClientMessage, room_id: RoomId) -> (r: (
        Result<ProcessClientMessageResult, ServerError>,
        Option<SendClientMessage>,
    ))
        requires
            old(self)@.wf(),
        ensures
            final(self)@.wf(),
            final(self)@ == server_step(old(self)@, msg.user_id, msg.message, room_id).0,
            server_reply_matches(r.0, server_step(old(self)@, msg.user_id, msg.message, room_id).1),
            send_matches(r.1, server_step(old(self)@, msg.user_id, msg.message, room_id).2),
    {
        match msg.message {
            IncomingClientMessage::StartMatchmaking => self.start_matchmaking(msg.user_id, room_id),
            IncomingClientMessage::MakeAction(payload) => self.make_action(
                msg.user_id,
                payload.room,
                payload.action,
            ),
        }
    }

    /// Processes one client intent, naming any match it creates with a
    /// freshly generated id; the id appears in the reply and in the
    /// opponent's push when a pairing happens.
    pub fn handle(&mut self, msg: ProcessClientMessage) -> (r: (
        Result<ProcessClientMessageResult, ServerError>,
        Option<SendClientMessage>,
    ))
        requires
            old(self)@.wf(),
        ensures
            final(self)@.wf(),
            exists|rid: RoomId|
                {
                    &&& final(self)@ == (#[trigger] server_step(
                        old(self)@,
                        msg.user_id,
                        msg.message,
                        rid,
                    )).0
                    &&& server_reply_matches(
                        r.0,
                        server_step(old(self)@, msg.user_id, msg.message, rid).1,
                    )
                    &&& send_matches(
                        r.1,
                        server_step(old(self)@, msg.user_id, msg.message, rid).2,
                    )
                },
    {
        let room_id = new_room_id();
        let r = self.handle_with_room_id(msg, room_id);
        proof {
            assert(self@ == server_step(old(self)@, msg.user_id, msg.message, room_id).0);
        }
        r
    }
}


/// No user appears twice in the matchmaking queue.
pub open spec fn queue_no_duplicates(q: Seq<UserId>) -> bool {
    forall|i: int, j: int| 0 <= i < j < q.len() ==> q[i] != q[j]
}

/// A user is enqueued at most once: matchmaking keeps the queue free of
/// duplicates, because a repeated request from a queued user changes
/// nothing, pairing only shortens the queue, and a user only ever joins
/// it when not already in it.
pub proof fn lemma_queue_stays_duplicate_free(v: ServerView, user: UserId, rid: RoomId)
    requires
        queue_no_duplicates(v.queue),
    ensures
        queue_no_duplicates(start_matchmaking_step(v, user, rid).0.queue),
{
    let q2 = start_matchmaking_step(v, user, rid).0.queue;
    if v.queue.contains(user) {
    } else if v.queue.len() > 0 {
        assert forall|i: int, j: int| 0 <= i < j < q2.len() implies q2[i] != q2[j] by {
            assert(q2[i] == v.queue[i + 1]);
            assert(q2[j] == v.queue[j + 1]);
        }
    } else {
        assert forall|i: int, j: int| 0 <= i < j < q2.len() implies q2[i] != q2[j] by {
            assert(j == q2.len() - 1 ==> q2[j] == user);
        }
    }
}

/// The registry after a sequence of `Attach` events, applied in order.
/// Each event installs its connection for its user, as
/// `Server::handle_attach` does.
pub open spec fn apply_attaches(
    m: Map<UserId, ConnectionId>,
    events: Seq<(UserId, ConnectionId)>,
) -> Map<UserId, ConnectionId>
    decreases events.len(),
{
    if events.len() == 0 {
        m
    } else {
        apply_attaches(m, events.drop_last()).insert(events.last().0, events.last().1)
    }
}

/// The connection the last `Attach` event for a user installed, or the
/// originally registered one when no event names the user.
pub open spec fn last_attached(
    m: Map<UserId, ConnectionId>,
    events: Seq<(UserId, ConnectionId)>,
    user: UserId,
) -> Option<ConnectionId>
    decreases events.len(),
{
    if events.len() == 0 {
        if m.contains_key(user) {
            Some(m[user])
        } else {
            None
        }
    } else if events.last().0 == user {
        Some(events.last().1)
    } else {
        last_attached(m, events.drop_last(), user)
    }
}

/// Registry uniqueness: the registry is a map, so after any sequence of
/// `Attach` events it holds at most one connection per user, and that
/// connection is the one the last event for the user installed (the
/// original one if no event names the user). The eviction owed at each
/// step is what `Server::handle_attach` returns.
pub proof fn lemma_registry_uniqueness(
    m: Map<UserId, ConnectionId>,
    events: Seq<(UserId, ConnectionId)>,
    user: UserId,
)
    ensures
        apply_attaches(m, events).contains_key(user) <==> last_attached(m, events, user) is Some,
        apply_attaches(m, events).contains_key(user) ==> Some(apply_attaches(m, events)[user])
            == last_attached(m, events, user),
    decreases events.len(),
{
    if events.len() == 0 {
    } else {
        lemma_registry_uniqueness(m, events.drop_last(), user);
    }
}

/// FIFO pairing: three distinct users starting matchmaking in order
/// against an empty queue leave the first two paired with each other (the
/// second call pops the first user as opponent) and the third queued,
/// whatever match ids the calls draw.
pub proof fn lemma_fifo_pairing(
    v0: ServerView,
    a: UserId,
    b: UserId,
    c: UserId,
    rid1: RoomId,
    rid2: RoomId,
    rid3: RoomId,
)
    requires
        v0.queue.len() == 0,
        a != b,
        a != c,
        b != c,
        v0.connections.contains_key(a),
    ensures
        ({
            let s1 = start_matchmaking_step(v0, a, rid1);
            let s2 = start_matchmaking_step(s1.0, b, rid2);
            let s3 = start_matchmaking_step(s2.0, c, rid3);
            &&& s1.1 == ServerStepView::Matchmaking(MatchmakingReplyView::Searching)
            &&& s1.0.queue =~= seq![a]
            &&& s2.1 == ServerStepView::Matchmaking(
                MatchmakingReplyView::Found { room: rid2, opponent: a },
            )
            &&& s2.0.rooms.contains_key(rid2)
            &&& s2.0.rooms[rid2].users =~= seq![b, a]
            &&& s2.0.queue.len() == 0
            &&& s3.1 == ServerStepView::Matchmaking(MatchmakingReplyView::Searching)
            &&& s3.0.queue =~= seq![c]
        }),
{
    let s1 = start_matchmaking_step(v0, a, rid1);
    assert(!v0.queue.contains(a));
    assert(s1.0.queue =~= seq![a]);
    let s2 = start_matchmaking_step(s1.0, b, rid2);
    assert(!s1.0.queue.contains(b)) by {
        assert(forall|k: int| 0 <= k < 1 ==> s1.0.queue[k] == a);
    }
    assert(s1.0.queue.first() == a);
    assert(s1.0.queue.drop_first() =~= Seq::<UserId>::empty());
    let s3 = start_matchmaking_step(s2.0, c, rid3);
    assert(!s2.0.queue.contains(c));
    assert(s3.0.queue =~= seq![c]);
}

} // verus!
