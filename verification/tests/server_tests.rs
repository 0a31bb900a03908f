use rps_server::client_messages::{IncomingClientMessage, MakeActionPayload, OutgoingClientMessage};
use rps_server::server::{Server, ServerError};
use rps_server::server_messages::{
    AttachConnection, MatchmakingStatus, ProcessClientMessage, ProcessClientMessageResult,
    SendClientMessage, StartMatchmakingResultPayload,
};
use rps_server::room::MakeActionResult;
use rps_server::types::{Action, ConnectionId, RoomId, UserId};

const ALICE: UserId = 11;
const BOB: UserId = 22;
const CAROL: UserId = 33;

const ALICE_CONN: ConnectionId = 1;
const BOB_CONN: ConnectionId = 2;
const CAROL_CONN: ConnectionId = 3;

fn attach(server: &mut Server, user_id: UserId, connection: ConnectionId) {
    let evicted = server.handle_attach(AttachConnection { connection, user_id });
    assert!(evicted.is_none());
}

fn start_matchmaking(
    server: &mut Server,
    user_id: UserId,
) -> (Result<ProcessClientMessageResult, ServerError>, Option<SendClientMessage>) {
    server.handle(ProcessClientMessage { message: IncomingClientMessage::StartMatchmaking, user_id })
}

fn make_action(
    server: &mut Server,
    user_id: UserId,
    room: RoomId,
    action: Action,
) -> (Result<ProcessClientMessageResult, ServerError>, Option<SendClientMessage>) {
    server.handle(
        ProcessClientMessage {
            message: IncomingClientMessage::MakeAction(MakeActionPayload { room, action }),
            user_id,
        },
    )
}

fn expect_matchmaking(r: Result<ProcessClientMessageResult, ServerError>) -> StartMatchmakingResultPayload {
    match r.unwrap() {
        ProcessClientMessageResult::StartMatchmakingResult(p) => p,
        ProcessClientMessageResult::MakeActionResult(_) => {
            panic!("a matchmaking request must get a matchmaking reply")
        },
    }
}

fn expect_action(r: Result<ProcessClientMessageResult, ServerError>) -> MakeActionResult {
    match r.unwrap() {
        ProcessClientMessageResult::MakeActionResult(m) => m,
        ProcessClientMessageResult::StartMatchmakingResult(_) => {
            panic!("an action must get an action reply")
        },
    }
}

#[test]
fn attach_evicts_the_previous_connection() {
    let mut server = Server::new();
    let first = server.handle_attach(AttachConnection { connection: 7, user_id: ALICE });
    assert!(first.is_none());
    // The registry holds one handle per user: a second attach evicts the
    // first and owes it a close order.
    let second = server.handle_attach(AttachConnection { connection: 8, user_id: ALICE });
    let (evicted, close) = second.unwrap();
    assert_eq!(evicted, 7);
    assert_eq!(close.reason, "Only one connection per user");
    // A third attach evicts the second, not the first.
    let third = server.handle_attach(AttachConnection { connection: 9, user_id: ALICE });
    let (evicted3, _) = third.unwrap();
    assert_eq!(evicted3, 8);
    // Another user's attach evicts nothing.
    let other = server.handle_attach(AttachConnection { connection: 10, user_id: BOB });
    assert!(other.is_none());
}

#[test]
fn fifo_pairing_in_request_order() {
    let mut server = Server::new();
    attach(&mut server, ALICE, ALICE_CONN);
    attach(&mut server, BOB, BOB_CONN);
    attach(&mut server, CAROL, CAROL_CONN);

    // Alice asks first: no opponent yet.
    let (r1, push1) = start_matchmaking(&mut server, ALICE);
    let p1 = expect_matchmaking(r1);
    assert!(matches!(p1.status, MatchmakingStatus::Searching));
    assert_eq!(p1.opponent, None);
    assert_eq!(p1.room, None);
    assert!(push1.is_none());

    // Bob asks second and is paired with Alice.
    let (r2, push2) = start_matchmaking(&mut server, BOB);
    let p2 = expect_matchmaking(r2);
    assert!(matches!(p2.status, MatchmakingStatus::Found));
    assert_eq!(p2.opponent, Some(ALICE));
    let room_id = p2.room.unwrap();
    // Alice's connection is pushed the pairing, naming Bob and the match.
    let push = push2.unwrap();
    assert_eq!(push.connection, ALICE_CONN);
    match push.message {
        OutgoingClientMessage::MatchmakingSuccess(mp) => {
            assert_eq!(mp.opponent, BOB);
            assert_eq!(mp.room, room_id);
        },
        _ => panic!("the opponent must be told of the pairing"),
    }

    // Carol asks third and is left queued.
    let (r3, push3) = start_matchmaking(&mut server, CAROL);
    let p3 = expect_matchmaking(r3);
    assert!(matches!(p3.status, MatchmakingStatus::Searching));
    assert!(push3.is_none());
}

#[test]
fn repeated_matchmaking_request_stays_queued_once() {
    let mut server = Server::new();
    attach(&mut server, ALICE, ALICE_CONN);
    attach(&mut server, BOB, BOB_CONN);
    let p1 = expect_matchmaking(start_matchmaking(&mut server, ALICE).0);
    assert!(matches!(p1.status, MatchmakingStatus::Searching));
    // Asking again while queued does not pair Alice with herself.
    let p2 = expect_matchmaking(start_matchmaking(&mut server, ALICE).0);
    assert!(matches!(p2.status, MatchmakingStatus::Searching));
    // Bob is paired with Alice, and the queue is then empty.
    let p3 = expect_matchmaking(start_matchmaking(&mut server, BOB).0);
    assert!(matches!(p3.status, MatchmakingStatus::Found));
    assert_eq!(p3.opponent, Some(ALICE));
    let p4 = expect_matchmaking(start_matchmaking(&mut server, CAROL).0);
    assert!(matches!(p4.status, MatchmakingStatus::Searching));
}

#[test]
fn missing_opponent_connection_is_an_internal_fault() {
    let mut server = Server::new();
    // Alice queues without ever attaching a connection.
    let p1 = expect_matchmaking(start_matchmaking(&mut server, ALICE).0);
    assert!(matches!(p1.status, MatchmakingStatus::Searching));
    attach(&mut server, BOB, BOB_CONN);
    let (r2, push2) = start_matchmaking(&mut server, BOB);
    let e = r2.unwrap_err();
    assert_eq!(e.message, "Opponent connection is not initialized");
    assert!(push2.is_none());
    // Alice left the queue when she was popped: Carol now queues fresh.
    let p3 = expect_matchmaking(start_matchmaking(&mut server, CAROL).0);
    assert!(matches!(p3.status, MatchmakingStatus::Searching));
}

#[test]
fn action_on_unknown_match_is_rejected() {
    let mut server = Server::new();
    let (r, push) = make_action(&mut server, ALICE, 424242, Action::Rock);
    assert_eq!(r.unwrap_err().message, "No such room");
    assert!(push.is_none());
}

#[test]
fn explicit_room_id_names_the_created_match() {
    let mut server = Server::new();
    attach(&mut server, ALICE, ALICE_CONN);
    attach(&mut server, BOB, BOB_CONN);
    start_matchmaking(&mut server, ALICE);
    let msg = ProcessClientMessage { message: IncomingClientMessage::StartMatchmaking, user_id: BOB };
    let (r, _) = server.handle_with_room_id(msg, 777);
    let p = expect_matchmaking(r);
    assert_eq!(p.room, Some(777));
    // The match is reachable under that id.
    let (r2, _) = make_action(&mut server, BOB, 777, Action::Rock);
    assert!(matches!(expect_action(r2), MakeActionResult::Accepted));
}

#[test]
fn full_match_through_the_router() {
    let mut server = Server::new();
    attach(&mut server, ALICE, ALICE_CONN);
    attach(&mut server, BOB, BOB_CONN);
    start_matchmaking(&mut server, ALICE);
    let p = expect_matchmaking(start_matchmaking(&mut server, BOB).0);
    let room_id = p.room.unwrap();

    // Bob created the match; both play. Bob's Rock beats Alice's Scissors.
    let (r1, push1) = make_action(&mut server, BOB, room_id, Action::Rock);
    assert!(matches!(expect_action(r1), MakeActionResult::Accepted));
    assert!(push1.is_none());

    let (r2, push2) = make_action(&mut server, ALICE, room_id, Action::Scissors);
    match expect_action(r2) {
        MakeActionResult::RoundFinished(x) => {
            assert_eq!(x.winner, Some(BOB));
            assert_eq!(x.next_round_cound, 1);
        },
        _ => panic!("the second action must decide the round"),
    }
    // The decided round is pushed to the other player (Bob).
    let push = push2.unwrap();
    assert_eq!(push.connection, BOB_CONN);
    match push.message {
        OutgoingClientMessage::RoundFinished(rp) => {
            assert_eq!(rp.winner, Some(BOB));
            assert_eq!(rp.next_round_count, 1);
            assert_eq!(rp.actions.len(), 2);
            assert_eq!(rp.actions[0].user_id, BOB);
            assert_eq!(rp.actions[1].user_id, ALICE);
        },
        _ => panic!("the opponent must be pushed the round report"),
    }

    // Round two: Bob wins again and the match finishes.
    make_action(&mut server, BOB, room_id, Action::Paper).0.unwrap();
    let (r3, push3) = make_action(&mut server, ALICE, room_id, Action::Rock);
    match expect_action(r3) {
        MakeActionResult::GameFinished(x) => assert_eq!(x.winner, Some(BOB)),
        _ => panic!("the second win must end the match"),
    }
    let push3 = push3.unwrap();
    assert_eq!(push3.connection, BOB_CONN);
    match push3.message {
        OutgoingClientMessage::GameFinished(gp) => assert_eq!(gp.winner, Some(BOB)),
        _ => panic!("the opponent must be pushed the final report"),
    }

    // Room errors pass through the router with their message.
    let (r4, push4) = make_action(&mut server, CAROL, room_id, Action::Rock);
    assert_eq!(r4.unwrap_err().message, "You are not a part of this room");
    assert!(push4.is_none());
}

#[test]
fn domain_errors_push_nothing_to_the_opponent() {
    let mut server = Server::new();
    attach(&mut server, ALICE, ALICE_CONN);
    attach(&mut server, BOB, BOB_CONN);
    start_matchmaking(&mut server, ALICE);
    let p = expect_matchmaking(start_matchmaking(&mut server, BOB).0);
    let room_id = p.room.unwrap();
    make_action(&mut server, BOB, room_id, Action::Rock).0.unwrap();
    let (r, push) = make_action(&mut server, BOB, room_id, Action::Paper);
    assert_eq!(r.unwrap_err().message, "You cannot change your action");
    assert!(push.is_none());
}
