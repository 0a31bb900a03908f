//! Identities and the game's actions.

use vstd::prelude::*;

verus! {

/// Identifies a user. The transport layer supplies it at connection time
/// (as the 128 bits of a UUID); the core treats it as opaque.
pub type UserId = u128;

/// Identifies a match room, freshly generated when two users are paired.
pub type RoomId = u128;

/// Identifies a live connection's mailbox. The registry stores one per
/// user; the transport layer resolves it to the real channel.
pub type ConnectionId = u64;

/// One of the three playable actions.
#[derive(Clone, Copy, PartialEq, Eq, Structural, Debug)]
pub enum Action {
    Rock,
    Paper,
    Scissors,
}

/// The cyclic value of an action: Rock 0, Paper 1, Scissors 2.
pub open spec fn action_value(a: Action) -> int {
    match a {
        Action::Rock => 0,
        Action::Paper => 1,
        Action::Scissors => 2,
    }
}

/// `b` beats `a` iff `(value(a) + 1) % 3 == value(b)`:
/// Rock beats Scissors, Paper beats Rock, Scissors beats Paper.
pub open spec fn beats(b: Action, a: Action) -> bool {
    (action_value(a) + 1) % 3 == action_value(b)
}

/// Executable counterpart of `action_value`.
pub fn action_index(a: Action) -> (v: u8)
    ensures
        v == action_value(a),
{
    match a {
        Action::Rock => 0,
        Action::Paper => 1,
        Action::Scissors => 2,
    }
}

/// An action together with the user who submitted it.
#[derive(Clone, Copy, PartialEq, Eq, Structural, Debug)]
pub struct UserAction {
    pub user_id: UserId,
    pub action: Action,
}

/// The winner between the first and the second submission of a round:
/// the second user if their action beats the first, no one on a tie,
/// the first user otherwise.
pub open spec fn spec_round_winner(first: UserAction, second: UserAction) -> Option<UserId> {
    if beats(second.action, first.action) {
        Some(second.user_id)
    } else if first.action == second.action {
        None
    } else {
        Some(first.user_id)
    }
}

/// The cyclic win rule: Rock beats Scissors, Paper beats Rock, Scissors
/// beats Paper; an action never beats itself, and of two distinct
/// actions exactly one beats the other, so a round of two distinct
/// actions always has a winner and a round of equal actions never does.
pub proof fn lemma_cyclic_win_rule()
    ensures
        beats(Action::Rock, Action::Scissors),
        beats(Action::Paper, Action::Rock),
        beats(Action::Scissors, Action::Paper),
        forall|a: Action| !beats(a, a),
        forall|a: Action, b: Action| a != b ==> (beats(a, b) <==> !beats(b, a)),
        forall|first: UserAction, second: UserAction|
            first.action == second.action ==> spec_round_winner(first, second) is None,
        forall|first: UserAction, second: UserAction|
            first.action != second.action ==> (spec_round_winner(first, second) matches Some(w)
                && (w == first.user_id || w == second.user_id)),
{
}

} // verus!
