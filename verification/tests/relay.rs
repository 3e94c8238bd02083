use shellshock::config::{allowed_origin, AllowedOrigin, Config};
use shellshock::model::{readyz_status_code, MatchRole, RoomPhase, ServerMessage, Timestamp};
use shellshock::state::{infer_phase_from_logs, promote_phase_from_account, AppState, MatchLifecycle};

fn config() -> Config {
    Config {
        port: 8080,
        solana_rpc_http_url: "http://localhost:8899".to_string(),
        solana_rpc_ws_url: "ws://localhost:8900".to_string(),
        program_id: "11111111111111111111111111111111".to_string(),
        cors_origin: "http://localhost:5173".to_string(),
        turn_timeout_seconds: 90,
    }
}

fn at(seconds: i64) -> Timestamp {
    Timestamp { seconds, nanos: 0 }
}

#[test]
fn queue_matches_same_bet() {
    let mut state = AppState::new(config());

    let first = state
        .queue_join("client-a".to_string(), "wallet-a".to_string(), 1_000_000)
        .expect("first queue join");
    assert!(first.matched.is_none());

    let second = state
        .queue_join("client-b".to_string(), "wallet-b".to_string(), 1_000_000)
        .expect("second queue join");
    assert!(second.matched.is_some());
}

#[test]
fn queue_separates_different_bets() {
    let mut state = AppState::new(config());

    let first = state
        .queue_join("client-a".to_string(), "wallet-a".to_string(), 1_000_000)
        .expect("first queue join");
    let second = state
        .queue_join("client-b".to_string(), "wallet-b".to_string(), 2_000_000)
        .expect("second queue join");

    assert!(first.matched.is_none());
    assert!(second.matched.is_none());
}

#[test]
fn queue_join_reports_ticket_and_status() {
    let mut state = AppState::new(config());
    let first = state
        .queue_join_with("c1".to_string(), "w1".to_string(), 5, "t1".to_string(), "m1".to_string(), at(1), at(2))
        .expect("join");
    match first.joined {
        ServerMessage::QueueJoined { ticket_id, bet_lamports, queued_at } => {
            assert_eq!(ticket_id, "t1");
            assert_eq!(bet_lamports, 5);
            assert_eq!(queued_at, at(1));
        },
        _ => panic!("expected a ticket"),
    }
    match first.status {
        ServerMessage::QueueStatus { ahead_count, same_bet_count } => {
            assert_eq!(ahead_count, 0);
            assert_eq!(same_bet_count, 1);
        },
        _ => panic!("expected a status"),
    }
    let second = state
        .queue_join_with("c2".to_string(), "w2".to_string(), 5, "t2".to_string(), "m2".to_string(), at(3), at(4))
        .expect("join");
    let m = second.matched.expect("a match");
    assert_eq!(m.match_id, "m2");
    assert_eq!(m.creator_wallet, "w1");
    assert_eq!(m.creator_client, "c1");
    assert_eq!(m.joiner_wallet, "w2");
    assert_eq!(m.joiner_client, "c2");
    assert_eq!(m.state, MatchLifecycle::AwaitingRoomCreation);
    assert_eq!(m.created_at, at(4));
    match second.status {
        ServerMessage::QueueStatus { ahead_count, same_bet_count } => {
            assert_eq!(ahead_count, 0);
            assert_eq!(same_bet_count, 0);
        },
        _ => panic!("expected a status"),
    }
}

#[test]
fn queue_join_refusals() {
    let mut state = AppState::new(config());
    state.queue_join("c1".to_string(), "w1".to_string(), 5).expect("join");
    let again = state.queue_join("c1".to_string(), "w1".to_string(), 9);
    assert_eq!(again.err(), Some("wallet_already_queued".to_string()));
    state.queue_join("c2".to_string(), "w2".to_string(), 5).expect("join");
    let busy = state.queue_join("c2".to_string(), "w2".to_string(), 7);
    assert_eq!(busy.err(), Some("wallet_already_in_match".to_string()));
    let creator_busy = state.queue_join("c1".to_string(), "w1".to_string(), 7);
    assert_eq!(creator_busy.err(), Some("wallet_already_in_match".to_string()));
}

#[test]
fn queue_leave_removes_ticket_once() {
    let mut state = AppState::new(config());
    state
        .queue_join_with("c1".to_string(), "w1".to_string(), 5, "t1".to_string(), "m1".to_string(), at(1), at(1))
        .expect("join");
    assert!(state.queue_leave("t1"));
    assert!(!state.queue_leave("t1"));
    let after = state
        .queue_join_with("c2".to_string(), "w2".to_string(), 5, "t2".to_string(), "m2".to_string(), at(2), at(2))
        .expect("join");
    assert!(after.matched.is_none());
}

#[test]
fn expired_match_frees_wallets_and_refuses_room() {
    let mut state = AppState::new(config());
    state
        .queue_join_with("c1".to_string(), "w1".to_string(), 5, "t1".to_string(), "m1".to_string(), at(1), at(1))
        .expect("join");
    state
        .queue_join_with("c2".to_string(), "w2".to_string(), 5, "t2".to_string(), "m2".to_string(), at(2), at(2))
        .expect("join");
    let expired = state.expire_match("m2").expect("expired");
    assert_eq!(expired.state, MatchLifecycle::Expired);
    assert!(state.expire_match("m2").is_none());
    assert!(state.expire_match("nope").is_none());
    let refused = state.register_room_creation("m2", "room".to_string(), "sig".to_string());
    assert_eq!(refused.err(), Some("match_expired".to_string()));
    let missing = state.register_room_creation("nope", "room".to_string(), "sig".to_string());
    assert_eq!(missing.err(), Some("match_not_found".to_string()));
    assert!(state.queue_join("c1".to_string(), "w1".to_string(), 5).is_ok());
}

#[test]
fn registered_room_gathers_both_wallets() {
    let mut state = AppState::new(config());
    state
        .queue_join_with("c1".to_string(), "w1".to_string(), 5, "t1".to_string(), "m1".to_string(), at(1), at(1))
        .expect("join");
    state
        .queue_join_with("c2".to_string(), "w2".to_string(), 5, "t2".to_string(), "m2".to_string(), at(2), at(2))
        .expect("join");
    let ready = state
        .register_room_creation_at("m2", "room".to_string(), "sig".to_string(), at(3))
        .expect("room");
    assert_eq!(ready.state, MatchLifecycle::RoomReady);
    assert_eq!(ready.room_pubkey, Some("room".to_string()));
    assert!(state.expire_match("m2").is_none());
    let mut recipients = state.recipients("room");
    recipients.sort();
    assert_eq!(recipients, vec!["c1".to_string(), "c2".to_string()]);
    match state.current_room_snapshot("room").expect("room state") {
        ServerMessage::RoomState { room_pubkey, phase, turn_wallet, updated_at, last_signature } => {
            assert_eq!(room_pubkey, "room");
            assert_eq!(phase, RoomPhase::WaitingForPlayer);
            assert_eq!(turn_wallet, None);
            assert_eq!(updated_at, at(3));
            assert_eq!(last_signature, Some("sig".to_string()));
        },
        _ => panic!("expected room state"),
    }
    assert!(state.current_room_snapshot("other").is_none());
}

#[test]
fn subscribers_receive_broadcasts_once() {
    let mut state = AppState::new(config());
    state.subscribe_room_at("c1".to_string(), "room".to_string(), Some("w1".to_string()), at(1));
    state.subscribe_room_at("c2".to_string(), "room".to_string(), None, at(2));
    state.bind_wallet("c1", "w1");
    let deliveries = state.broadcast_to_room("room", ServerMessage::QueueStatus { ahead_count: 1, same_bet_count: 2 });
    let mut clients: Vec<String> = deliveries.iter().map(|d| d.client_id.clone()).collect();
    clients.sort();
    assert_eq!(clients, vec!["c1".to_string(), "c2".to_string()]);
    state.unregister_client("c2");
    let deliveries = state.broadcast_to_room("room", ServerMessage::QueueStatus { ahead_count: 1, same_bet_count: 2 });
    assert_eq!(deliveries.len(), 1);
    assert_eq!(deliveries[0].client_id, "c1");
    assert!(state.broadcast_to_room("unknown", ServerMessage::QueueStatus { ahead_count: 0, same_bet_count: 0 }).is_empty());
}

#[test]
fn broadcasts_go_out_in_client_id_order() {
    let mut state = AppState::new(config());
    for (client, t) in [("c2", 1), ("c10", 2), ("b9", 3), ("c1", 4), ("é", 5), ("Z", 6)] {
        state.subscribe_room_at(client.to_string(), "room".to_string(), None, at(t));
    }
    let deliveries = state.broadcast_to_room("room", ServerMessage::QueueStatus { ahead_count: 0, same_bet_count: 0 });
    let clients: Vec<String> = deliveries.iter().map(|d| d.client_id.clone()).collect();
    let mut expected = clients.clone();
    expected.sort();
    assert_eq!(clients, expected);
    assert_eq!(clients, vec!["Z", "b9", "c1", "c10", "c2", "é"]);
}

#[test]
fn readiness_status_codes() {
    let state = AppState::new(config());
    let up = state.readiness(true);
    assert_eq!(up.status, "ok");
    assert_eq!(readyz_status_code(&up), 200);
    let down = state.readiness(false);
    assert_eq!(down.status, "degraded");
    assert_eq!(readyz_status_code(&down), 503);
}

#[test]
fn allowed_origins() {
    assert!(matches!(allowed_origin("*"), AllowedOrigin::Any));
    assert!(matches!(allowed_origin("http://localhost:5173"), AllowedOrigin::Exact(o) if o == "http://localhost:5173"));
    assert!(matches!(allowed_origin("bad\norigin"), AllowedOrigin::Any));
    assert!(matches!(allowed_origin("tab\tok"), AllowedOrigin::Exact(_)));
    assert!(matches!(allowed_origin("caf\u{e9}"), AllowedOrigin::Exact(_)));
}

#[test]
fn account_updates_promote_phase_once_per_change() {
    let mut state = AppState::new(config());
    state.subscribe_room_at("c1".to_string(), "room".to_string(), None, at(1));
    let first = state.handle_room_account_update_at("room", "h1".to_string(), 10, at(2));
    assert_eq!(first.len(), 2);
    match &first[1].message {
        ServerMessage::RoomState { phase, updated_at, .. } => {
            assert_eq!(*phase, RoomPhase::WaitingForVrf);
            assert_eq!(*updated_at, at(2));
        },
        _ => panic!("expected room state"),
    }
    let repeat = state.handle_room_account_update_at("room", "h1".to_string(), 11, at(3));
    assert_eq!(repeat.len(), 1);
    match &repeat[0].message {
        ServerMessage::RoomEvent { event_type, .. } => assert_eq!(event_type, "account_change"),
        _ => panic!("expected an event"),
    }
    let second = state.handle_room_account_update_at("room", "h2".to_string(), 12, at(4));
    match &second[1].message {
        ServerMessage::RoomState { phase, .. } => assert_eq!(*phase, RoomPhase::Playing),
        _ => panic!("expected room state"),
    }
    assert!(state.handle_room_account_update_at("nowhere", "h".to_string(), 1, at(5)).is_empty());
}

#[test]
fn log_updates_set_phase_from_logs() {
    let mut state = AppState::new(config());
    state.subscribe_room_at("c1".to_string(), "room".to_string(), None, at(1));
    let out = state.handle_room_log_update_at(
        "room",
        "sig-9".to_string(),
        vec!["Program log: Instruction: Shoot".to_string()],
        3,
        at(2),
    );
    assert_eq!(out.len(), 2);
    match &out[1].message {
        ServerMessage::RoomState { phase, last_signature, .. } => {
            assert_eq!(*phase, RoomPhase::Playing);
            assert_eq!(last_signature.as_deref(), Some("sig-9"));
        },
        _ => panic!("expected room state"),
    }
    let out = state.handle_room_log_update_at("room", "s".to_string(), vec!["Winner chosen".to_string()], 4, at(3));
    match &out[1].message {
        ServerMessage::RoomState { phase, .. } => assert_eq!(*phase, RoomPhase::Finished),
        _ => panic!("expected room state"),
    }
}

#[test]
fn phase_inference_order() {
    let logs = |lines: &[&str]| lines.iter().map(|l| l.to_string()).collect::<Vec<String>>();
    assert_eq!(infer_phase_from_logs(&RoomPhase::Playing, &logs(&["winner", "round end"])), Some(RoomPhase::Finished));
    assert_eq!(infer_phase_from_logs(&RoomPhase::Playing, &logs(&["ROUND_END"])), Some(RoomPhase::RoundEnd));
    assert_eq!(infer_phase_from_logs(&RoomPhase::Playing, &logs(&["round", "end"])), None);
    assert_eq!(infer_phase_from_logs(&RoomPhase::Playing, &logs(&["Awaiting VRF"])), Some(RoomPhase::WaitingForVrf));
    assert_eq!(infer_phase_from_logs(&RoomPhase::Playing, &logs(&["UseItem"])), Some(RoomPhase::Playing));
    assert_eq!(infer_phase_from_logs(&RoomPhase::WaitingForPlayer, &logs(&["nothing"])), Some(RoomPhase::WaitingForVrf));
    assert_eq!(infer_phase_from_logs(&RoomPhase::RoundEnd, &logs(&[])), None);
}

#[test]
fn phase_inference_ignores_ascii_case() {
    let logs = |lines: &[&str]| lines.iter().map(|l| l.to_string()).collect::<Vec<String>>();
    for phase in [RoomPhase::Playing, RoomPhase::WaitingForPlayer] {
        for (lower, upper) in [
            (["program log: game finished", "x"], ["PROGRAM LOG: GAME FINISHED", "X"]),
            (["randomness requested", "ok"], ["RandomNess Requested", "OK"]),
            (["shoot", "reload"], ["Shoot", "ReLoad"]),
            (["quiet", "line"], ["QUIET", "LINE"]),
        ] {
            assert_eq!(
                infer_phase_from_logs(&phase, &logs(&lower)),
                infer_phase_from_logs(&phase, &logs(&upper))
            );
        }
    }
}

#[test]
fn phase_promotion() {
    assert_eq!(promote_phase_from_account(&RoomPhase::WaitingForPlayer), RoomPhase::WaitingForVrf);
    assert_eq!(promote_phase_from_account(&RoomPhase::WaitingForVrf), RoomPhase::Playing);
    assert_eq!(promote_phase_from_account(&RoomPhase::Playing), RoomPhase::Playing);
    assert_eq!(promote_phase_from_account(&RoomPhase::Finished), RoomPhase::Finished);
}

#[test]
fn resume_session_reports_everything() {
    let mut state = AppState::new(config());
    state
        .queue_join_with("c1".to_string(), "w1".to_string(), 5, "t1".to_string(), "m1".to_string(), at(1), at(1))
        .expect("join");
    let resumed = state.resume_session_at("c9", "w1", None, None, at(2));
    assert_eq!(resumed.messages.len(), 2);
    match &resumed.messages[1] {
        ServerMessage::QueueStatus { ahead_count, same_bet_count } => {
            assert_eq!(*ahead_count, 0);
            assert_eq!(*same_bet_count, 1);
        },
        _ => panic!("expected a status"),
    }
    assert_eq!(state.client_of_wallet("w1"), Some("c9".to_string()));
    state
        .queue_join_with("c2".to_string(), "w2".to_string(), 5, "t2".to_string(), "m2".to_string(), at(3), at(3))
        .expect("join");
    state
        .register_room_creation_at("m2", "room".to_string(), "sig".to_string(), at(4))
        .expect("room");
    let resumed = state.resume_session_at("c8", "w2", None, None, at(5));
    assert_eq!(resumed.messages.len(), 3);
    match &resumed.messages[0] {
        ServerMessage::MatchFound { match_id, role, opponent_wallet } => {
            assert_eq!(match_id, "m2");
            assert_eq!(*role, MatchRole::Joiner);
            assert_eq!(opponent_wallet, "w1");
        },
        _ => panic!("expected the match"),
    }
    assert!(matches!(resumed.messages[1], ServerMessage::MatchRoomReady { .. }));
    assert!(matches!(resumed.messages[2], ServerMessage::RoomState { .. }));
    assert_eq!(resumed.observe, Some("room".to_string()));
    let again = state.resume_session_at("c8", "w2", None, None, at(6));
    assert_eq!(again.observe, None);
}

#[test]
fn readiness_counts() {
    let mut state = AppState::new(config());
    state.queue_join("c1".to_string(), "w1".to_string(), 5).expect("join");
    state.queue_join("c3".to_string(), "w3".to_string(), 6).expect("join");
    state.queue_join("c2".to_string(), "w2".to_string(), 5).expect("join");
    state.subscribe_room("c1".to_string(), "room".to_string(), None);
    let ready = state.readiness(true);
    assert_eq!(ready.status, "ok");
    assert!(ready.program_id_valid);
    assert_eq!(ready.queued_players, 1);
    assert_eq!(ready.active_matches, 1);
    assert_eq!(ready.observed_rooms, 1);
    assert_eq!(state.readiness(false).status, "degraded");
    let mut bad = config();
    bad.program_id = "not-a-key!".to_string();
    assert_eq!(AppState::new(bad).readiness(true).status, "degraded");
}

#[test]
fn observers_start_once() {
    let mut state = AppState::new(config());
    assert!(state.spawn_observer_if_needed("room".to_string()));
    assert!(!state.spawn_observer_if_needed("room".to_string()));
}
