//! The per-match state machine: rounds, submitted actions, and match
//! completion under the cyclic win rule.

use vstd::prelude::*;

use crate::types::{Action, RoomId, UserAction, UserId, action_index, spec_round_winner};

verus! {

/// Decided-round wins a user needs to end the match.
pub const WINS_REQUIRED: usize = 2;

/// Whether a round is still collecting actions or has been decided.
#[derive(Clone, Copy, PartialEq, Eq, Structural, Debug)]
pub enum RoundStatus {
    InProgress,
    Completed,
}

/// One exchange of simultaneous actions within a match. It holds at most
/// one action per player and a winner once both actions are present.
pub struct Round {
    pub status: RoundStatus,
    pub actions: Vec<UserAction>,
    pub winner: Option<UserId>,
}

/// Mathematical image of a `Round`.
#[verifier::ext_equal]
pub struct RoundView {
    pub completed: bool,
    pub actions: Seq<UserAction>,
    pub winner: Option<UserId>,
}

impl View for Round {
    type V = RoundView;

    open spec fn view(&self) -> RoundView {
        RoundView {
            completed: self.status is Completed,
            actions: self.actions@,
            winner: self.winner,
        }
    }
}

/// Whether `user` already has an action recorded in round `r`.
pub open spec fn round_has_action(r: RoundView, user: UserId) -> bool {
    exists|i: int| 0 <= i < r.actions.len() && r.actions[i].user_id == user
}

/// Well-formedness of one round with respect to the match's players:
/// at most one action per player, both actions from distinct players,
/// and the winner decided by the cyclic rule exactly when the round is
/// complete.
pub open spec fn round_wf(r: RoundView, users: Seq<UserId>) -> bool {
    &&& r.actions.len() <= 2
    &&& forall|i: int| 0 <= i < r.actions.len() ==> users.contains(#[trigger] r.actions[i].user_id)
    &&& r.actions.len() == 2 ==> r.actions[0].user_id != r.actions[1].user_id
    &&& (r.completed <==> r.actions.len() == 2)
    &&& r.completed ==> r.winner == spec_round_winner(r.actions.first(), r.actions.last())
    &&& !r.completed ==> r.winner is None
}

/// A fresh round: open, no actions, no winner.
pub open spec fn new_round_view() -> RoundView {
    RoundView { completed: false, actions: Seq::empty(), winner: None }
}

impl Round {
    /// Records one submission at the end of the round's action list.
    pub fn add_action(&mut self, action: UserAction)
        ensures
            final(self)@ == (RoundView { actions: old(self)@.actions.push(action), ..old(self)@ }),
    {
        self.actions.push(action);
    }

    /// Decides the winner between the round's first and last submission
    /// and stores it; with no submission at all, nothing changes.
    pub fn decide_winner(&mut self) -> (winner: Option<UserId>)
        ensures
            old(self)@.actions.len() == 0 ==> (winner is None && *final(self) == *old(self)),
            old(self)@.actions.len() > 0 ==> ({
                let w = spec_round_winner(old(self)@.actions.first(), old(self)@.actions.last());
                winner == w && final(self)@ == (RoundView { winner: w, ..old(self)@ })
            }),
    {
        if self.actions.len() == 0 {
            return None;
        }
        let first_user = self.actions[0];
        let second_user = self.actions[self.actions.len() - 1];
        let first_value = action_index(first_user.action);
        let second_value = action_index(second_user.action);

        let winner: Option<UserId>;
        if (first_value + 1) % 3 == second_value {
            winner = Some(second_user.user_id);
        } else if first_value == second_value {
            winner = None;
        } else {
            winner = Some(first_user.user_id);
        }

        self.winner = winner;
        self.winner
    }
}

/// How many of the given rounds `user` has won.
pub open spec fn wins(rounds: Seq<RoundView>, user: UserId) -> nat
    decreases rounds.len(),
{
    if rounds.len() == 0 {
        0
    } else {
        wins(rounds.drop_last(), user) + (if rounds.last().winner == Some(user) {
            1nat
        } else {
            0nat
        })
    }
}

/// Match completion: a player with at least `WINS_REQUIRED` decided-round
/// wins ends the match as its winner; two such players at once (a
/// defensive case that sequential play never produces) end it as a draw.
pub open spec fn spec_game_over(v: RoomView) -> (bool, Option<UserId>) {
    let w0 = wins(v.rounds, v.users[0]);
    let w1 = wins(v.rounds, v.users[1]);
    if v.users[0] == v.users[1] {
        if w0 >= WINS_REQUIRED {
            (true, Some(v.users[0]))
        } else {
            (false, None)
        }
    } else if w0 >= WINS_REQUIRED && w1 >= WINS_REQUIRED {
        (true, None)
    } else if w0 >= WINS_REQUIRED {
        (true, Some(v.users[0]))
    } else if w1 >= WINS_REQUIRED {
        (true, Some(v.users[1]))
    } else {
        (false, None)
    }
}

/// One complete best-of-rounds contest between two users.
pub struct Room {
    pub id: RoomId,
    pub users: [UserId; 2],
    pub rounds: Vec<Round>,
    pub rounds_count: usize,
}

/// Mathematical image of a `Room`.
#[verifier::ext_equal]
pub struct RoomView {
    pub id: RoomId,
    pub users: Seq<UserId>,
    pub rounds: Seq<RoundView>,
    pub rounds_count: int,
}

impl View for Room {
    type V = RoomView;

    open spec fn view(&self) -> RoomView {
        RoomView {
            id: self.id,
            users: self.users@,
            rounds: self.rounds@.map_values(|r: Round| r@),
            rounds_count: self.rounds_count as int,
        }
    }
}

impl RoomView {
    /// The match invariant: two players; every round well formed; all
    /// rounds before the last decided; and the last round open exactly
    /// while no player has reached the win threshold, with the played
    /// counter tracking the decided rounds.
    pub open spec fn wf(self) -> bool {
        &&& self.users.len() == 2
        &&& self.rounds.len() >= 1
        &&& forall|i: int| 0 <= i < self.rounds.len() ==> round_wf(
            #[trigger] self.rounds[i],
            self.users,
        )
        &&& forall|i: int| 0 <= i < self.rounds.len() - 1 ==> (#[trigger] self.rounds[i]).completed
        &&& self.rounds.last().completed ==> (spec_game_over(self).0 && self.rounds_count
            == self.rounds.len())
        &&& !self.rounds.last().completed ==> (!spec_game_over(self).0 && self.rounds_count
            == self.rounds.len() - 1)
    }
}

/// The state a new match starts in: the two players and one open round.
pub open spec fn spec_new_room(id: RoomId, first_user: UserId, second_user: UserId) -> RoomView {
    RoomView {
        id,
        users: seq![first_user, second_user],
        rounds: seq![new_round_view()],
        rounds_count: 0,
    }
}

/// The outcome of one `MakeAction`, at the specification level.
pub enum RoomStepView {
    NotAParticipant,
    DuplicateAction,
    Accepted,
    RoundFinished { winner: Option<UserId>, actions: Seq<UserAction>, next_round_count: int },
    GameFinished { winner: Option<UserId>, actions: Seq<UserAction> },
}

/// One `MakeAction` against a match: the state it leads to and the
/// outcome it reports. A submission from a non-player or a repeated
/// submission in the open round changes nothing; otherwise the action is
/// recorded, and once both actions are in, the round is decided and the
/// match either finishes or opens the next round.
pub open spec fn room_step(v: RoomView, user: UserId, action: Action) -> (RoomView, RoomStepView) {
    if !v.users.contains(user) {
        (v, RoomStepView::NotAParticipant)
    } else if round_has_action(v.rounds.last(), user) {
        (v, RoomStepView::DuplicateAction)
    } else {
        let acts = v.rounds.last().actions.push(UserAction { user_id: user, action });
        if acts.len() < 2 {
            let open_round = RoundView { actions: acts, ..v.rounds.last() };
            let v2 = RoomView { rounds: v.rounds.update(v.rounds.len() - 1, open_round), ..v };
            (v2, RoomStepView::Accepted)
        } else {
            let w = spec_round_winner(acts.first(), acts.last());
            let decided = RoundView { completed: true, actions: acts, winner: w };
            let rounds2 = v.rounds.update(v.rounds.len() - 1, decided);
            let v_done = RoomView { rounds: rounds2, rounds_count: v.rounds_count + 1, ..v };
            let over = spec_game_over(v_done);
            if over.0 {
                (v_done, RoomStepView::GameFinished { winner: over.1, actions: acts })
            } else {
                let v_next = RoomView { rounds: rounds2.push(new_round_view()), ..v_done };
                (
                    v_next,
                    RoomStepView::RoundFinished {
                        winner: w,
                        actions: acts,
                        next_round_count: v.rounds_count + 1,
                    },
                )
            }
        }
    }
}

/// Asks a match to record `action` for `user_id` in the current round.
#[derive(Clone, Copy)]
pub struct MakeAction {
    pub action: Action,
    pub user_id: UserId,
}

/// A match-local failure, reported to the requesting user only.
#[derive(Debug)]
pub struct RoomError {
    pub message: String,
}

/// Reply to a submission from a user who is not one of the two players.
pub open spec fn not_participant_msg() -> Seq<char> {
    "You are not a part of this room"@
}

/// Reply to a second submission in the same round.
pub open spec fn duplicate_action_msg() -> Seq<char> {
    "You cannot change your action"@
}

/// Successful outcomes of one `MakeAction`.
#[derive(Clone, Debug)]
pub enum MakeActionResult {
    Accepted,
    RoundFinished(RoundFinishedResult),
    GameFinished(GameFinishedResult),
}

/// A decided round in a match that continues.
#[derive(Clone, Debug)]
pub struct RoundFinishedResult {
    pub winner: Option<UserId>,
    pub actions: Vec<UserAction>,
    pub next_round_cound: usize,
}

/// A decided round that ended the match.
#[derive(Clone, Debug)]
pub struct GameFinishedResult {
    pub winner: Option<UserId>,
    pub actions: Vec<UserAction>,
}

/// Mathematical image of a `MakeActionResult`.
#[verifier::ext_equal]
pub enum MakeActionResultView {
    Accepted,
    RoundFinished { winner: Option<UserId>, actions: Seq<UserAction>, next_round_cound: int },
    GameFinished { winner: Option<UserId>, actions: Seq<UserAction> },
}

impl View for MakeActionResult {
    type V = MakeActionResultView;

    open spec fn view(&self) -> MakeActionResultView {
        match self {
            MakeActionResult::Accepted => MakeActionResultView::Accepted,
            MakeActionResult::RoundFinished(x) => MakeActionResultView::RoundFinished {
                winner: x.winner,
                actions: x.actions@,
                next_round_cound: x.next_round_cound as int,
            },
            MakeActionResult::GameFinished(x) => MakeActionResultView::GameFinished {
                winner: x.winner,
                actions: x.actions@,
            },
        }
    }
}

/// How the executable reply of `Room::handle` corresponds to the
/// specification outcome of `room_step`.
pub open spec fn make_action_reply_matches(
    r: Result<MakeActionResult, RoomError>,
    step: RoomStepView,
) -> bool {
    match step {
        RoomStepView::NotAParticipant => (r matches Err(e) && e.message@ == not_participant_msg()),
        RoomStepView::DuplicateAction => (r matches Err(e) && e.message@ == duplicate_action_msg()),
        RoomStepView::Accepted => (r matches Ok(MakeActionResult::Accepted)),
        RoomStepView::RoundFinished { winner, actions, next_round_count } => (r matches Ok(
            MakeActionResult::RoundFinished(x),
        ) && x.winner == winner && x.actions@ == actions && x.next_round_cound
            == next_round_count),
        RoomStepView::GameFinished { winner, actions } => (r matches Ok(
            MakeActionResult::GameFinished(x),
        ) && x.winner == winner && x.actions@ == actions),
    }
}

/// A copy of a list of submissions, for reporting a round's history.
fn copy_actions(v: &Vec<UserAction>) -> (r: Vec<UserAction>)
    ensures
        r@ == v@,
{
    let mut r: Vec<UserAction> = Vec::new();
    let mut i: usize = 0;
    while i < v.len()
        invariant
            0 <= i <= v.len(),
            r@ == v@.take(i as int),
        decreases v.len() - i,
    {
        r.push(v[i]);
        proof {
            assert(v@.take(i + 1 as int) =~= v@.take(i as int).push(v@[i as int]));
        }
        i = i + 1;
    }
    proof {
        assert(v@.take(v@.len() as int) =~= v@);
    }
    r
}

impl Room {
    /// Creates a match between two users, with one open empty round.
    pub fn new(id: RoomId, first_user: UserId, second_user: UserId) -> (room: Room)
        ensures
            room@ == spec_new_room(id, first_user, second_user),
            room@.wf(),
    {
        let mut rounds: Vec<Round> = Vec::new();
        rounds.push(Room::new_round());
        let room = Room { id, users: [first_user, second_user], rounds, rounds_count: 0 };
        proof {
            assert(room@.users =~= seq![first_user, second_user]);
            assert(room@.rounds =~= seq![new_round_view()]);
            assert(room@.rounds.drop_last() =~= Seq::<RoundView>::empty());
            assert(wins(room@.rounds.drop_last(), room@.users[0]) == 0);
            assert(wins(room@.rounds.drop_last(), room@.users[1]) == 0);
            assert(room@.rounds.last().winner is None);
            assert(wins(room@.rounds, room@.users[0]) == 0);
            assert(wins(room@.rounds, room@.users[1]) == 0);
        }
        room
    }

    /// A fresh round with no actions and no winner.
    pub fn new_round() -> (r: Round)
        ensures
            r@ == new_round_view(),
    {
        let r = Round { status: RoundStatus::InProgress, actions: Vec::new(), winner: None };
        proof {
            assert(r@.actions =~= Seq::<UserAction>::empty());
        }
        r
    }

    /// Counts each player's decided-round wins and evaluates match
    /// completion, as `spec_game_over` states it.
    fn is_game_over(&self) -> (r: (bool, Option<UserId>))
        ensures
            r == spec_game_over(self@),
    {
        let mut wins0: usize = 0;
        let mut wins1: usize = 0;
        let mut i: usize = 0;
        while i < self.rounds.len()
            invariant
                0 <= i <= self.rounds.len(),
                wins0 == wins(self@.rounds.take(i as int), self@.users[0]),
                wins1 == wins(self@.rounds.take(i as int), self@.users[1]),
                wins0 <= i,
                wins1 <= i,
            decreases self.rounds.len() - i,
        {
            proof {
                assert(self@.rounds.take(i + 1 as int).drop_last() =~= self@.rounds.take(i as int));
                assert(self@.rounds.take(i + 1 as int).last() == self@.rounds[i as int]);
            }
            let winner = self.rounds[i].winner;
            if let Some(w) = winner {
                if w == self.users[0] {
                    wins0 = wins0 + 1;
                }
                if w == self.users[1] {
                    wins1 = wins1 + 1;
                }
            }
            i = i + 1;
        }
        proof {
            assert(self@.rounds.take(self@.rounds.len() as int) =~= self@.rounds);
        }
        if self.users[0] == self.users[1] {
            if wins0 >= WINS_REQUIRED {
                (true, Some(self.users[0]))
            } else {
                (false, None)
            }
        } else if wins0 >= WINS_REQUIRED && wins1 >= WINS_REQUIRED {
            (true, None)
        } else if wins0 >= WINS_REQUIRED {
            (true, Some(self.users[0]))
        } else if wins1 >= WINS_REQUIRED {
            (true, Some(self.users[1]))
        } else {
            (false, None)
        }
    }

    /// Records one action for the requesting user: rejects non-players
    /// and repeated submissions in the open round without changing
    /// anything; with both actions in, decides the round and either
    /// finishes the match or opens the next round.
    pub fn handle(&mut self, msg: MakeAction) -> (r: Result<MakeActionResult, RoomError>)
        requires
            old(self)@.wf(),
        ensures
            final(self)@.wf(),
            final(self)@ == room_step(old(self)@, msg.user_id, msg.action).0,
            make_action_reply_matches(r, room_step(old(self)@, msg.user_id, msg.action).1),
    {
        let ghost v0 = old(self)@;

        if !(msg.user_id == self.users[0] || msg.user_id == self.users[1]) {
            proof {
                assert(!v0.users.contains(msg.user_id)) by {
                    assert(forall|i: int| 0 <= i < 2 ==> (#[trigger] v0.users[i]) == v0.users[0]
                        || v0.users[i] == v0.users[1]);
                }
            }
            return Err(RoomError { message: "You are not a part of this room".to_owned() });
        }
        proof {
            assert(v0.users.contains(msg.user_id)) by {
                if msg.user_id == self.users[0] {
                    assert(v0.users[0] == msg.user_id);
                } else {
                    assert(v0.users[1] == msg.user_id);
                }
            }
        }

        let last_idx = self.rounds.len() - 1;
        let current_len = self.rounds[last_idx].actions.len();
        let mut j: usize = 0;
        let mut dup = false;
        while j < current_len
            invariant
                0 <= j <= current_len,
                current_len == self.rounds@[last_idx as int].actions@.len(),
                0 <= last_idx < self.rounds.len(),
                last_idx == self.rounds.len() - 1,
                dup <==> exists|k: int|
                    0 <= k < j && self.rounds@[last_idx as int].actions@[k].user_id == msg.user_id,
            decreases current_len - j,
        {
            if self.rounds[last_idx].actions[j].user_id == msg.user_id {
                dup = true;
            }
            j = j + 1;
        }
        proof {
            assert(v0.rounds.last() == self.rounds@[last_idx as int]@);
            assert(dup == round_has_action(v0.rounds.last(), msg.user_id));
        }
        if dup {
            return Err(RoomError { message: "You cannot change your action".to_owned() });
        }

        proof {
            // A completed last round holds actions from both players, so a
            // player with nothing recorded in it means the round is open.
            if v0.rounds.last().completed {
                lemma_completed_round_has_both(v0, msg.user_id);
                assert(false);
            }
        }

        let round_opt = self.rounds.pop();
        let mut round = round_opt.unwrap();
        round.add_action(UserAction { user_id: msg.user_id, action: msg.action });

        let ghost acts = v0.rounds.last().actions.push(
            UserAction { user_id: msg.user_id, action: msg.action },
        );
        proof {
            assert(round@.actions == acts);
        }

        if round.actions.len() == 2 {
            let winner = round.decide_winner();
            round.status = RoundStatus::Completed;
            let actions_copy = copy_actions(&round.actions);
            self.rounds.push(round);
            proof {
                let decided = RoundView {
                    completed: true,
                    actions: acts,
                    winner: spec_round_winner(acts.first(), acts.last()),
                };
                assert(self@.rounds =~= v0.rounds.update(v0.rounds.len() - 1, decided));
            }
            self.rounds_count = self.rounds_count + 1;

            let ghost v_done = RoomView {
                rounds: v0.rounds.update(
                    v0.rounds.len() - 1,
                    RoundView {
                        completed: true,
                        actions: acts,
                        winner: spec_round_winner(acts.first(), acts.last()),
                    },
                ),
                rounds_count: v0.rounds_count + 1,
                ..v0
            };
            proof {
                assert(self@ =~= v_done);
            }

            let (is_finished, game_winner) = self.is_game_over();

            if is_finished {
                proof {
                    lemma_step_preserves_wf(v0, msg.user_id, msg.action);
                }
                return Ok(
                    MakeActionResult::GameFinished(
                        GameFinishedResult { actions: actions_copy, winner: game_winner },
                    ),
                );
            }

            self.rounds.push(Room::new_round());
            proof {
                assert(self@.rounds =~= v_done.rounds.push(new_round_view()));
                assert(self@ =~= (RoomView { rounds: v_done.rounds.push(new_round_view()), ..v_done }));
                lemma_step_preserves_wf(v0, msg.user_id, msg.action);
            }
            return Ok(
                MakeActionResult::RoundFinished(
                    RoundFinishedResult {
                        winner,
                        actions: actions_copy,
                        next_round_cound: self.rounds_count,
                    },
                ),
            );
        }

        self.rounds.push(round);
        proof {
            let open_round = RoundView { actions: acts, ..v0.rounds.last() };
            assert(self@.rounds =~= v0.rounds.update(v0.rounds.len() - 1, open_round));
            assert(self@ =~= room_step(v0, msg.user_id, msg.action).0);
            lemma_step_preserves_wf(v0, msg.user_id, msg.action);
        }
        Ok(MakeActionResult::Accepted)
    }
}

/// Two round lists that agree except possibly in the last round's
/// actions and status carry the same win counts.
proof fn lemma_wins_same_winners(r1: Seq<RoundView>, r2: Seq<RoundView>, user: UserId)
    requires
        r1.len() >= 1,
        r2.len() >= 1,
        r1.drop_last() == r2.drop_last(),
        r1.last().winner == r2.last().winner,
    ensures
        wins(r1, user) == wins(r2, user),
{
}

/// Appending a round adds its winner to the count and nothing else.
proof fn lemma_wins_push(r: Seq<RoundView>, nr: RoundView, user: UserId)
    ensures
        wins(r.push(nr), user) == wins(r, user) + (if nr.winner == Some(user) {
            1nat
        } else {
            0nat
        }),
{
    assert(r.push(nr).drop_last() =~= r);
    assert(r.push(nr).last() == nr);
}

/// In a well-formed match whose last round is complete, the requesting
/// player has acted in it; so a recordable submission means the last
/// round is still open.
proof fn lemma_completed_round_has_both(v: RoomView, user: UserId)
    requires
        v.wf(),
        v.users.contains(user),
        v.rounds.last().completed,
    ensures
        round_has_action(v.rounds.last(), user),
{
    let last = v.rounds.last();
    let a0 = last.actions[0].user_id;
    let a1 = last.actions[1].user_id;
    assert(round_wf(last, v.users));
    assert(v.users.contains(a0));
    assert(v.users.contains(a1));
    assert(forall|i: int| 0 <= i < 2 ==> (#[trigger] v.users[i]) == v.users[0] || v.users[i]
        == v.users[1]);
    if a0 == user {
        assert(last.actions[0].user_id == user);
    } else {
        // The two actors are distinct members of the two-player set, so
        // the other actor is this user.
        assert(a1 == user);
        assert(last.actions[1].user_id == user);
    }
}

/// The win count of a round list splits into the count before the last
/// round plus the last round's contribution.
proof fn lemma_wins_decompose(r: Seq<RoundView>, user: UserId)
    requires
        r.len() >= 1,
    ensures
        wins(r, user) == wins(r.drop_last(), user) + (if r.last().winner == Some(user) {
            1nat
        } else {
            0nat
        }),
{
}

/// A `MakeAction` from a user who is not one of the match's two players
/// always fails as `NotAParticipant` and never changes any round.
pub proof fn lemma_non_participant_rejected(v: RoomView, user: UserId, action: Action)
    requires
        !v.users.contains(user),
    ensures
        room_step(v, user, action) == (v, RoomStepView::NotAParticipant),
{
}

/// Once a user's action is recorded in the still-open round, any further
/// submission from that user in the same round fails as
/// `DuplicateAction` and leaves the match unchanged.
pub proof fn lemma_duplicate_rejected(v: RoomView, user: UserId, first: Action, second: Action)
    requires
        v.wf(),
        room_step(v, user, first).1 is Accepted,
    ensures
        room_step(room_step(v, user, first).0, user, second) == (
            room_step(v, user, first).0,
            RoomStepView::DuplicateAction,
        ),
{
    let v1 = room_step(v, user, first).0;
    let acts = v.rounds.last().actions.push(UserAction { user_id: user, action: first });
    assert(v1.rounds.last().actions == acts);
    assert(acts[acts.len() - 1].user_id == user);
    assert(round_has_action(v1.rounds.last(), user));
}

/// A match in progress finishes exactly when the submission that decides
/// a round brings some player's win count to `WINS_REQUIRED`; the
/// reported winner is a player whose count reached it with that very
/// round, having been below it before.
pub proof fn lemma_match_termination(v: RoomView, user: UserId, action: Action)
    requires
        v.wf(),
        !v.rounds.last().completed,
    ensures
        (room_step(v, user, action).1 is GameFinished) <==> (wins(
            room_step(v, user, action).0.rounds,
            v.users[0],
        ) >= WINS_REQUIRED || wins(room_step(v, user, action).0.rounds, v.users[1])
            >= WINS_REQUIRED),
        (room_step(v, user, action).1 is GameFinished) <==> room_step(
            v,
            user,
            action,
        ).0.rounds.last().completed,
        room_step(v, user, action).1 matches RoomStepView::GameFinished {
            winner: Some(w), ..
        } ==> ((w == v.users[0] || w == v.users[1]) && wins(room_step(v, user, action).0.rounds, w)
            == WINS_REQUIRED && wins(v.rounds, w) == WINS_REQUIRED - 1),
{
    let v2 = room_step(v, user, action).0;
    let out = room_step(v, user, action).1;
    assert(!spec_game_over(v).0);
    if !v.users.contains(user) {
    } else if round_has_action(v.rounds.last(), user) {
    } else {
        let acts = v.rounds.last().actions.push(UserAction { user_id: user, action });
        if acts.len() < 2 {
            let open_round = RoundView { actions: acts, ..v.rounds.last() };
            let vs = RoomView { rounds: v.rounds.update(v.rounds.len() - 1, open_round), ..v };
            assert(vs.rounds.drop_last() =~= v.rounds.drop_last());
            lemma_wins_same_winners(v.rounds, vs.rounds, v.users[0]);
            lemma_wins_same_winners(v.rounds, vs.rounds, v.users[1]);
        } else {
            let w = spec_round_winner(acts.first(), acts.last());
            let decided = RoundView { completed: true, actions: acts, winner: w };
            let rounds2 = v.rounds.update(v.rounds.len() - 1, decided);
            let v_done = RoomView { rounds: rounds2, rounds_count: v.rounds_count + 1, ..v };
            assert(rounds2.drop_last() =~= v.rounds.drop_last());
            lemma_wins_decompose(rounds2, v.users[0]);
            lemma_wins_decompose(rounds2, v.users[1]);
            lemma_wins_decompose(v.rounds, v.users[0]);
            lemma_wins_decompose(v.rounds, v.users[1]);
            let over = spec_game_over(v_done);
            if over.0 {
                if let Some(gw) = over.1 {
                    lemma_wins_decompose(rounds2, gw);
                    lemma_wins_decompose(v.rounds, gw);
                }
            } else {
                let v_next = RoomView { rounds: rounds2.push(new_round_view()), ..v_done };
                assert(v_next.rounds.drop_last() =~= rounds2);
                lemma_wins_push(rounds2, new_round_view(), v.users[0]);
                lemma_wins_push(rounds2, new_round_view(), v.users[1]);
                assert(v_next.rounds.last() == new_round_view());
            }
        }
    }
}

/// A step of the match state machine keeps the match invariant.
pub proof fn lemma_step_preserves_wf(v: RoomView, user: UserId, action: Action)
    requires
        v.wf(),
    ensures
        room_step(v, user, action).0.wf(),
{
    let v2 = room_step(v, user, action).0;
    if !v.users.contains(user) {
    } else if round_has_action(v.rounds.last(), user) {
    } else {
        assert(!v.rounds.last().completed) by {
            if v.rounds.last().completed {
                lemma_completed_round_has_both(v, user);
            }
        }
        let acts = v.rounds.last().actions.push(UserAction { user_id: user, action });
        if acts.len() < 2 {
            let open_round = RoundView { actions: acts, ..v.rounds.last() };
            let vs = RoomView { rounds: v.rounds.update(v.rounds.len() - 1, open_round), ..v };
            assert(round_wf(open_round, v.users)) by {
                assert(forall|i: int| 0 <= i < acts.len() - 1 ==> acts[i]
                    == v.rounds.last().actions[i]);
            }
            assert(vs.rounds.last() == open_round);
            assert(vs.rounds.drop_last() =~= v.rounds.drop_last());
            lemma_wins_same_winners(v.rounds, vs.rounds, v.users[0]);
            lemma_wins_same_winners(v.rounds, vs.rounds, v.users[1]);
            assert(vs.wf());
        } else {
            let w = spec_round_winner(acts.first(), acts.last());
            let decided = RoundView { completed: true, actions: acts, winner: w };
            let rounds2 = v.rounds.update(v.rounds.len() - 1, decided);
            let v_done = RoomView { rounds: rounds2, rounds_count: v.rounds_count + 1, ..v };
            assert(round_wf(decided, v.users)) by {
                assert(acts.len() == 2);
                assert(acts[0] == v.rounds.last().actions[0]);
                assert(v.users.contains(acts[0].user_id));
                assert(acts[1].user_id == user);
                assert(acts[0].user_id != user) by {
                    if acts[0].user_id == user {
                        assert(v.rounds.last().actions[0].user_id == user);
                        assert(round_has_action(v.rounds.last(), user));
                    }
                }
            }
            assert(rounds2.last() == decided);
            let over = spec_game_over(v_done);
            if over.0 {
                assert(v_done.rounds_count == v_done.rounds.len());
                assert(v_done.wf());
            } else {
                let v_next = RoomView { rounds: rounds2.push(new_round_view()), ..v_done };
                assert(v_next.rounds.last() == new_round_view());
                assert(v_next.rounds.drop_last() =~= rounds2);
                lemma_wins_push(rounds2, new_round_view(), v.users[0]);
                lemma_wins_push(rounds2, new_round_view(), v.users[1]);
                assert(forall|i: int| 0 <= i < v_next.rounds.len() ==> round_wf(
                    #[trigger] v_next.rounds[i],
                    v_next.users,
                ));
                assert(v_next.wf());
            }
        }
    }
}

} // verus!
