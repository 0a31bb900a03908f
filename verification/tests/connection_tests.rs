use rps_server::client_messages::OutgoingClientMessage;
use rps_server::connection::{
    bad_request_message, confirm_connect_message, heartbeat_tick, internal_error_message,
    HeartbeatDecision, PING_INTERVAL_MS, TIMEOUT_MS,
};

#[test]
fn heartbeat_stops_a_silent_connection() {
    // Longer than the timeout: the session is terminated locally.
    assert_eq!(heartbeat_tick(TIMEOUT_MS + 1), HeartbeatDecision::Stop);
    assert_eq!(heartbeat_tick(60_000), HeartbeatDecision::Stop);
}

#[test]
fn heartbeat_pings_a_live_connection() {
    assert_eq!(heartbeat_tick(0), HeartbeatDecision::Ping);
    assert_eq!(heartbeat_tick(PING_INTERVAL_MS), HeartbeatDecision::Ping);
    // Exactly at the timeout still counts as alive.
    assert_eq!(heartbeat_tick(TIMEOUT_MS), HeartbeatDecision::Ping);
}

#[test]
fn heartbeat_interval_and_timeout_are_five_and_ten_seconds() {
    assert_eq!(PING_INTERVAL_MS, 5_000);
    assert_eq!(TIMEOUT_MS, 10_000);
}

#[test]
fn confirm_connect_greets_the_client() {
    match confirm_connect_message() {
        OutgoingClientMessage::ConfirmConnect(p) => {
            assert_eq!(p.message, "Connection established");
        },
        _ => panic!("the greeting must be a connect confirmation"),
    }
}

#[test]
fn unparseable_input_gets_a_bad_request_error() {
    match bad_request_message() {
        OutgoingClientMessage::Error(p) => assert_eq!(p.message, "Bad request"),
        _ => panic!("a parse failure must be reported as an error"),
    }
}

#[test]
fn router_failures_get_an_internal_error() {
    match internal_error_message() {
        OutgoingClientMessage::Error(p) => {
            assert_eq!(p.message, "Internal error: Couldn't process event");
        },
        _ => panic!("a router failure must be reported as an error"),
    }
}
