use rps_server::room::{MakeAction, MakeActionResult, Room, Round, RoundStatus};
use rps_server::types::{Action, UserAction, UserId};

const ALICE: UserId = 11;
const BOB: UserId = 22;

fn fresh_room() -> Room {
    Room::new(1, ALICE, BOB)
}

fn submit(room: &mut Room, user_id: UserId, action: Action) -> Result<MakeActionResult, String> {
    room.handle(MakeAction { action, user_id }).map_err(|e| e.message)
}

/// Plays one full round and returns its winner.
fn play_round(first: Action, second: Action) -> Option<UserId> {
    let mut room = fresh_room();
    let r1 = submit(&mut room, ALICE, first).unwrap();
    assert!(matches!(r1, MakeActionResult::Accepted));
    match submit(&mut room, BOB, second).unwrap() {
        MakeActionResult::RoundFinished(x) => x.winner,
        MakeActionResult::GameFinished(_) => panic!("one round cannot finish the match"),
        MakeActionResult::Accepted => panic!("two actions must decide the round"),
    }
}

#[test]
fn rock_beats_scissors() {
    assert_eq!(play_round(Action::Rock, Action::Scissors), Some(ALICE));
    assert_eq!(play_round(Action::Scissors, Action::Rock), Some(BOB));
}

#[test]
fn paper_beats_rock() {
    assert_eq!(play_round(Action::Paper, Action::Rock), Some(ALICE));
    assert_eq!(play_round(Action::Rock, Action::Paper), Some(BOB));
}

#[test]
fn scissors_beats_paper() {
    assert_eq!(play_round(Action::Scissors, Action::Paper), Some(ALICE));
    assert_eq!(play_round(Action::Paper, Action::Scissors), Some(BOB));
}

#[test]
fn identical_actions_have_no_winner() {
    assert_eq!(play_round(Action::Rock, Action::Rock), None);
    assert_eq!(play_round(Action::Paper, Action::Paper), None);
    assert_eq!(play_round(Action::Scissors, Action::Scissors), None);
}

#[test]
fn decide_winner_on_raw_round() {
    let mut round = Round { status: RoundStatus::InProgress, actions: Vec::new(), winner: None };
    assert_eq!(round.decide_winner(), None);
    round.add_action(UserAction { user_id: ALICE, action: Action::Paper });
    round.add_action(UserAction { user_id: BOB, action: Action::Scissors });
    assert_eq!(round.decide_winner(), Some(BOB));
    assert_eq!(round.winner, Some(BOB));
}

#[test]
fn first_action_is_accepted_with_no_round_report() {
    let mut room = fresh_room();
    let r = submit(&mut room, BOB, Action::Paper).unwrap();
    assert!(matches!(r, MakeActionResult::Accepted));
}

#[test]
fn duplicate_action_is_rejected_without_mutation() {
    let mut room = fresh_room();
    submit(&mut room, ALICE, Action::Rock).unwrap();
    // A second submission in the same round fails, in any number of tries
    // and whatever the action.
    let e1 = submit(&mut room, ALICE, Action::Paper).unwrap_err();
    assert_eq!(e1, "You cannot change your action");
    let e2 = submit(&mut room, ALICE, Action::Rock).unwrap_err();
    assert_eq!(e2, "You cannot change your action");
    // The round was not touched: the first action still stands and the
    // opponent's submission decides against it as recorded.
    match submit(&mut room, BOB, Action::Scissors).unwrap() {
        MakeActionResult::RoundFinished(x) => {
            assert_eq!(x.winner, Some(ALICE));
            assert_eq!(x.next_round_cound, 1);
            assert_eq!(x.actions.len(), 2);
            assert_eq!(x.actions[0].user_id, ALICE);
            assert_eq!(x.actions[1].user_id, BOB);
        },
        _ => panic!("the second action must decide the round"),
    }
}

#[test]
fn non_participant_is_rejected_without_mutation() {
    let mut room = fresh_room();
    let stranger: UserId = 99;
    let e = submit(&mut room, stranger, Action::Rock).unwrap_err();
    assert_eq!(e, "You are not a part of this room");
    // Both players can still play the full round.
    submit(&mut room, ALICE, Action::Rock).unwrap();
    let e2 = submit(&mut room, stranger, Action::Paper).unwrap_err();
    assert_eq!(e2, "You are not a part of this room");
    match submit(&mut room, BOB, Action::Scissors).unwrap() {
        MakeActionResult::RoundFinished(x) => assert_eq!(x.winner, Some(ALICE)),
        _ => panic!("the second action must decide the round"),
    }
}

#[test]
fn match_finishes_exactly_at_two_wins() {
    let mut room = fresh_room();
    // Round 1: Alice's Rock beats Bob's Scissors. Alice 1, Bob 0.
    submit(&mut room, ALICE, Action::Rock).unwrap();
    match submit(&mut room, BOB, Action::Scissors).unwrap() {
        MakeActionResult::RoundFinished(x) => {
            assert_eq!(x.winner, Some(ALICE));
            assert_eq!(x.next_round_cound, 1);
        },
        _ => panic!("round one must finish without ending the match"),
    }
    // Round 2: Bob's Scissors beat Alice's Paper. Alice 1, Bob 1.
    submit(&mut room, ALICE, Action::Paper).unwrap();
    match submit(&mut room, BOB, Action::Scissors).unwrap() {
        MakeActionResult::RoundFinished(x) => {
            assert_eq!(x.winner, Some(BOB));
            assert_eq!(x.next_round_cound, 2);
        },
        _ => panic!("round two must finish without ending the match"),
    }
    // Round 3: Alice's Rock beats Bob's Scissors again. Alice 2: finished.
    submit(&mut room, ALICE, Action::Rock).unwrap();
    match submit(&mut room, BOB, Action::Scissors).unwrap() {
        MakeActionResult::GameFinished(x) => {
            assert_eq!(x.winner, Some(ALICE));
            assert_eq!(x.actions.len(), 2);
        },
        _ => panic!("the second win must end the match"),
    }
}

#[test]
fn ties_do_not_count_toward_the_threshold() {
    let mut room = fresh_room();
    for _ in 0..3 {
        submit(&mut room, ALICE, Action::Paper).unwrap();
        match submit(&mut room, BOB, Action::Paper).unwrap() {
            MakeActionResult::RoundFinished(x) => assert_eq!(x.winner, None),
            _ => panic!("a tie must leave the match running"),
        }
    }
    // One win is still not enough to finish.
    submit(&mut room, ALICE, Action::Rock).unwrap();
    match submit(&mut room, BOB, Action::Scissors).unwrap() {
        MakeActionResult::RoundFinished(x) => assert_eq!(x.winner, Some(ALICE)),
        _ => panic!("one win must not end the match"),
    }
}

#[test]
fn finished_match_accepts_no_further_actions() {
    let mut room = fresh_room();
    for _ in 0..2 {
        submit(&mut room, ALICE, Action::Rock).unwrap();
        submit(&mut room, BOB, Action::Scissors).unwrap();
    }
    // Alice reached two wins; everything after is rejected.
    let e = submit(&mut room, ALICE, Action::Rock).unwrap_err();
    assert_eq!(e, "You cannot change your action");
    let e2 = submit(&mut room, BOB, Action::Paper).unwrap_err();
    assert_eq!(e2, "You cannot change your action");
    let e3 = submit(&mut room, 99, Action::Paper).unwrap_err();
    assert_eq!(e3, "You are not a part of this room");
}

#[test]
fn round_report_carries_both_actions_in_order() {
    let mut room = fresh_room();
    submit(&mut room, BOB, Action::Paper).unwrap();
    match submit(&mut room, ALICE, Action::Rock).unwrap() {
        MakeActionResult::RoundFinished(x) => {
            assert_eq!(x.actions.len(), 2);
            assert_eq!(x.actions[0].user_id, BOB);
            assert!(matches!(x.actions[0].action, Action::Paper));
            assert_eq!(x.actions[1].user_id, ALICE);
            assert!(matches!(x.actions[1].action, Action::Rock));
            assert_eq!(x.winner, Some(BOB));
        },
        _ => panic!("the second action must decide the round"),
    }
}
