use shellshock::config::Config;
use shellshock::json::Json;
use shellshock::model::{EventPayload, ServerMessage, Timestamp};
use shellshock::observer::{
    frame_is_json, handle_frame, notification_of, observer_next, subscribe_frames, Notification, ObserverAction, ObserverEvent,
};
use shellshock::state::{AppState, Delivery};

fn config() -> Config {
    Config {
        port: 8080,
        solana_rpc_http_url: "http://localhost:8899".to_string(),
        solana_rpc_ws_url: "ws://localhost:8900".to_string(),
        program_id: "11111111111111111111111111111111".to_string(),
        cors_origin: "http://localhost:5173".to_string(),
        turn_timeout_seconds: 90,
    }
}

fn watched() -> AppState {
    let mut state = AppState::new(config());
    state.subscribe_room_at("c1".to_string(), "room".to_string(), None, Timestamp { seconds: 1, nanos: 0 });
    state
}

fn event_payload(out: &[Delivery]) -> Option<&EventPayload> {
    out.iter().find_map(|d| match &d.message {
        ServerMessage::RoomEvent { payload, .. } => Some(payload),
        _ => None,
    })
}

fn obj(fields: Vec<(&str, Json)>) -> Json {
    Json::Object(fields.into_iter().map(|(k, v)| (k.to_string(), v)).collect())
}

fn s(text: &str) -> Json {
    Json::Str(text.to_string())
}

#[test]
fn account_frame_is_hashed_from_its_value() {
    let mut state = watched();
    let frame = r#"{"jsonrpc":"2.0","method":"accountNotification","params":{"result":{"context":{"slot":42},"value":{"lamports":5,"data":["AA==","base64"]}},"subscription":7}}"#;
    let out = handle_frame(&mut state, "room", frame);
    assert_eq!(out.len(), 2);
    match event_payload(&out) {
        Some(EventPayload::AccountChange { slot, account_hash }) => {
            assert_eq!(*slot, 42);
            assert_eq!(account_hash, "f62460d3c9bff028c7083c71a2b1426e0f3ac717316f2697a9e43c357cb75b7b");
        }
        other => panic!("unexpected payload {other:?}"),
    }
}

#[test]
fn account_frame_without_value_hashes_null_text() {
    let mut state = watched();
    let frame = r#"{"method":"accountNotification","params":{"result":{"context":{"slot":"9"}}}}"#;
    let out = handle_frame(&mut state, "room", frame);
    match event_payload(&out) {
        Some(EventPayload::AccountChange { slot, account_hash }) => {
            assert_eq!(*slot, 0);
            assert_eq!(account_hash, "f072cbec3bf8841871d4284230c5e983dc211a56837aed862487148f947d1a1f");
        }
        other => panic!("unexpected payload {other:?}"),
    }
}

#[test]
fn numbers_keep_their_written_form_when_hashed() {
    let mut state = watched();
    let frame = r#"{"method":"accountNotification","params":{"result":{"context":{"slot":1.5},"value":{"b":[true,null,-3],"a":1.5}}}}"#;
    let out = handle_frame(&mut state, "room", frame);
    match event_payload(&out) {
        Some(EventPayload::AccountChange { slot, account_hash }) => {
            assert_eq!(*slot, 0);
            assert_eq!(account_hash, "cce46cbfd1b653827b15241a35e971dfce23b621f26df22016f98739269e00f4");
        }
        other => panic!("unexpected payload {other:?}"),
    }
}

#[test]
fn logs_frame_keeps_only_string_lines() {
    let mut state = watched();
    let frame = r#"{"method":"logsNotification","params":{"result":{"context":{"slot":77},"value":{"signature":"sig1","logs":["Program log: shoot",3,"done"]}}}}"#;
    let out = handle_frame(&mut state, "room", frame);
    match event_payload(&out) {
        Some(EventPayload::ProgramLogs { slot, signature, logs }) => {
            assert_eq!(*slot, 77);
            assert_eq!(signature, "sig1");
            assert_eq!(logs, &vec!["Program log: shoot".to_string(), "done".to_string()]);
        }
        other => panic!("unexpected payload {other:?}"),
    }
}

#[test]
fn logs_frame_without_value_has_empty_fields() {
    let frame = obj(vec![
        ("method", s("logsNotification")),
        ("params", obj(vec![("result", obj(vec![]))])),
    ]);
    match notification_of(&frame) {
        Some(Notification::Logs { slot, signature, logs }) => {
            assert_eq!(slot, 0);
            assert_eq!(signature, "");
            assert!(logs.is_empty());
        }
        _ => panic!("expected a logs notification"),
    }
}

#[test]
fn frames_without_a_followed_notification_change_nothing() {
    let mut state = watched();
    assert!(handle_frame(&mut state, "room", "not json").is_empty());
    assert!(handle_frame(&mut state, "room", r#"{"jsonrpc":"2.0","result":5,"id":1}"#).is_empty());
    assert!(handle_frame(&mut state, "room", r#"{"method":"slotNotification","params":{"result":{}}}"#).is_empty());
    assert!(handle_frame(&mut state, "room", r#"{"method":"accountNotification","params":{}}"#).is_empty());
    assert!(handle_frame(&mut state, "room", r#"{"method":7,"params":{"result":{}}}"#).is_empty());
    let unknown = obj(vec![("method", s("rootNotification")), ("params", obj(vec![("result", Json::Null)]))]);
    assert!(notification_of(&unknown).is_none());
}

#[test]
fn account_notification_of_a_built_frame() {
    let frame = obj(vec![
        ("method", s("accountNotification")),
        (
            "params",
            obj(vec![(
                "result",
                obj(vec![("context", obj(vec![("slot", Json::Number("12".to_string()))])), ("value", Json::Null)]),
            )]),
        ),
    ]);
    match notification_of(&frame) {
        Some(Notification::Account { slot, account_json }) => {
            assert_eq!(slot, 12);
            assert_eq!(account_json, b"null".to_vec());
        }
        _ => panic!("expected an account notification"),
    }
}

#[test]
fn subscribe_frames_name_the_room() {
    let (account, logs) = subscribe_frames("Room1");
    assert_eq!(
        account,
        r#"{"id":1,"jsonrpc":"2.0","method":"accountSubscribe","params":["Room1",{"commitment":"confirmed","encoding":"base64"}]}"#
    );
    assert_eq!(
        logs,
        r#"{"id":2,"jsonrpc":"2.0","method":"logsSubscribe","params":[{"mentions":["Room1"]},{"commitment":"confirmed"}]}"#
    );
}

#[test]
fn observer_retry_policy() {
    assert!(matches!(observer_next(ObserverEvent::Started { room_valid: true }), ObserverAction::Connect));
    assert!(matches!(observer_next(ObserverEvent::Started { room_valid: false }), ObserverAction::Stop));
    assert!(matches!(observer_next(ObserverEvent::Closed), ObserverAction::Connect));
    assert!(matches!(observer_next(ObserverEvent::Failed), ObserverAction::RetryAfter { secs: 3 }));
}

#[test]
fn frames_that_are_json() {
    assert!(frame_is_json(r#"{"a":[1,2.5,null]}"#));
    assert!(frame_is_json("7"));
    assert!(!frame_is_json("{\"a\":"));
    assert!(!frame_is_json(""));
}
