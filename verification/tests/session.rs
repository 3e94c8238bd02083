use shellshock::config::Config;
use shellshock::model::{ClientMessage, MatchRole, ServerMessage, Timestamp};
use shellshock::observer::{account_hash, handle_notification_at, observable_room, Notification};
use shellshock::session::{handle_message, handle_message_with, humanize_error, on_match_timeout, Action, Fresh};
use shellshock::state::AppState;

fn config() -> Config {
    Config {
        port: 8080,
        solana_rpc_http_url: "http://localhost:8899".to_string(),
        solana_rpc_ws_url: "ws://localhost:8900".to_string(),
        program_id: "11111111111111111111111111111111".to_string(),
        cors_origin: "http://localhost:5173".to_string(),
        turn_timeout_seconds: 90,
    }
}

fn fresh(n: u32) -> Fresh {
    Fresh {
        ticket_id: format!("t{n}"),
        match_id: format!("m{n}"),
        queued_at: Timestamp { seconds: n as i64, nanos: 0 },
        created_at: Timestamp { seconds: n as i64, nanos: 1 },
        now: Timestamp { seconds: n as i64, nanos: 2 },
    }
}

fn join(wallet: &str, bet: u64) -> ClientMessage {
    ClientMessage::QueueJoin { wallet: wallet.to_string(), bet_lamports: bet }
}

#[test]
fn humanize_error_texts() {
    assert_eq!(humanize_error("wallet_already_queued"), "this wallet is already waiting in queue");
    assert_eq!(humanize_error("wallet_already_in_match"), "this wallet already has an active match");
    assert_eq!(humanize_error("match_not_found"), "match not found on relay");
    assert_eq!(humanize_error("match_expired"), "match expired before the room became ready");
    assert_eq!(humanize_error("ticket_not_found"), "ticket not found");
    assert_eq!(humanize_error("_a__b_"), " a  b ");
}

#[test]
fn pairing_notifies_both_wallets_and_arms_timer() {
    let mut state = AppState::new(config());
    let first = handle_message_with(&mut state, "c1", join("w1", 5), fresh(1));
    assert_eq!(first.len(), 2);
    let second = handle_message_with(&mut state, "c2", join("w2", 5), fresh(2));
    assert_eq!(second.len(), 5);
    match &second[2] {
        Action::Send { client_id, message: ServerMessage::MatchFound { role, opponent_wallet, match_id } } => {
            assert_eq!(client_id, "c1");
            assert_eq!(*role, MatchRole::Creator);
            assert_eq!(opponent_wallet, "w2");
            assert_eq!(match_id, "m2");
        },
        _ => panic!("expected the creator to hear of the match"),
    }
    match &second[3] {
        Action::Send { client_id, message: ServerMessage::MatchFound { role, .. } } => {
            assert_eq!(client_id, "c2");
            assert_eq!(*role, MatchRole::Joiner);
        },
        _ => panic!("expected the joiner to hear of the match"),
    }
    match &second[4] {
        Action::ExpireMatchAfter { match_id, seconds } => {
            assert_eq!(match_id, "m2");
            assert_eq!(*seconds, 90);
        },
        _ => panic!("expected a timer"),
    }
    let expired = on_match_timeout(&mut state, "m2");
    assert_eq!(expired.len(), 2);
    match &expired[0] {
        Action::Send { client_id, message: ServerMessage::SystemError { code, message } } => {
            assert_eq!(client_id, "c1");
            assert_eq!(code, "match_expired");
            assert_eq!(message, "creator did not publish room in time");
        },
        _ => panic!("expected an expiry notice"),
    }
    assert!(on_match_timeout(&mut state, "m2").is_empty());
}

#[test]
fn refusals_are_answered() {
    let mut state = AppState::new(config());
    handle_message_with(&mut state, "c1", join("w1", 5), fresh(1));
    let again = handle_message_with(&mut state, "c1", join("w1", 5), fresh(2));
    match &again[0] {
        Action::Send { message: ServerMessage::SystemError { code, message }, .. } => {
            assert_eq!(code, "wallet_already_queued");
            assert_eq!(message, "this wallet is already waiting in queue");
        },
        _ => panic!("expected an error"),
    }
    let leave = handle_message_with(&mut state, "c1", ClientMessage::QueueLeave { ticket_id: "nope".to_string() }, fresh(3));
    match &leave[0] {
        Action::Send { message: ServerMessage::SystemError { code, message }, .. } => {
            assert_eq!(code, "ticket_not_found");
            assert_eq!(message, "queue ticket not found");
        },
        _ => panic!("expected an error"),
    }
    let leave = handle_message_with(&mut state, "c1", ClientMessage::QueueLeave { ticket_id: "t1".to_string() }, fresh(4));
    assert!(matches!(leave[0], Action::Send { message: ServerMessage::QueueStatus { ahead_count: 0, same_bet_count: 0 }, .. }));
    let missing = handle_message_with(
        &mut state,
        "c1",
        ClientMessage::MatchRoomCreated { match_id: "x".to_string(), room_pubkey: "r".to_string(), signature: "s".to_string() },
        fresh(5),
    );
    match &missing[0] {
        Action::Send { message: ServerMessage::SystemError { code, .. }, .. } => assert_eq!(code, "match_not_found"),
        _ => panic!("expected an error"),
    }
}

#[test]
fn published_room_is_observed_and_broadcast() {
    let mut state = AppState::new(config());
    handle_message_with(&mut state, "c1", join("w1", 5), fresh(1));
    handle_message_with(&mut state, "c2", join("w2", 5), fresh(2));
    let out = handle_message_with(
        &mut state,
        "c1",
        ClientMessage::MatchRoomCreated { match_id: "m2".to_string(), room_pubkey: "room".to_string(), signature: "sig".to_string() },
        fresh(3),
    );
    assert_eq!(out.len(), 3);
    assert!(matches!(&out[0], Action::Send { client_id, message: ServerMessage::MatchRoomReady { .. } } if client_id == "c2"));
    assert!(matches!(&out[1], Action::StartObserver { room_pubkey } if room_pubkey == "room"));
    assert!(matches!(&out[2], Action::Broadcast { room_pubkey, message: ServerMessage::RoomState { .. } } if room_pubkey == "room"));
    let sub = handle_message_with(&mut state, "c3", ClientMessage::RoomSubscribe { room_pubkey: "room".to_string() }, fresh(4));
    assert_eq!(sub.len(), 1);
    assert!(matches!(&sub[0], Action::Send { client_id, message: ServerMessage::RoomState { .. } } if client_id == "c3"));
}

#[test]
fn resume_over_the_socket() {
    let mut state = AppState::new(config());
    let out = handle_message_with(
        &mut state,
        "c1",
        ClientMessage::SessionResume { wallet: "w1".to_string(), room_pubkey: Some("room".to_string()), match_id: None },
        fresh(1),
    );
    assert_eq!(out.len(), 2);
    assert!(matches!(&out[0], Action::StartObserver { room_pubkey } if room_pubkey == "room"));
    assert!(matches!(&out[1], Action::Send { message: ServerMessage::RoomState { .. }, .. }));
    let live = handle_message(&mut state, "c2", join("w2", 3));
    assert_eq!(live.len(), 2);
}

#[test]
fn notifications_reach_room() {
    let mut state = AppState::new(config());
    state.subscribe_room_at("c1".to_string(), "room".to_string(), None, Timestamp { seconds: 1, nanos: 0 });
    let out = handle_notification_at(
        &mut state,
        "room",
        Notification::Account { slot: 5, account_json: b"{}".to_vec() },
        Timestamp { seconds: 2, nanos: 0 },
    );
    assert_eq!(out.len(), 2);
    assert_eq!(out[0].client_id, "c1");
    let logs = handle_notification_at(
        &mut state,
        "room",
        Notification::Logs { slot: 6, signature: "s".to_string(), logs: vec!["finished".to_string()] },
        Timestamp { seconds: 3, nanos: 0 },
    );
    assert_eq!(logs.len(), 2);
}

#[test]
fn account_hash_is_sha256_hex() {
    assert_eq!(account_hash(b"abc"), "ba7816bf8f01cfea414140de5dae2223b00361a396177a9cb410ff61f20015ad");
    assert_eq!(account_hash(b"").len(), 64);
}

#[test]
fn observable_rooms_are_base58_addresses() {
    assert!(observable_room("11111111111111111111111111111111"));
    assert!(observable_room("Fg6PaFpoGXkYsidMpWTK6W2BeZ7FEfcYkg476zPFsLnS"));
    assert!(!observable_room("not a key"));
    assert!(!observable_room("0OIl"));
}
