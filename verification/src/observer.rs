//! What the room observer does with the chain's notifications about a room.
use vstd::prelude::*;

use crate::json::{
    as_str, as_u64, get_field, json_get, json_str, json_strings, json_u64, string_items, Json, JsonView,
};
use crate::keyed::str_eq;
use crate::model::{MessageView, PayloadView, Timestamp};
use crate::outside::{
    base58_pubkey, encode_json, json_encode, json_parse, parse_json, parse_pubkey, sha256_hex, sha256_hex_of,
    utc_now,
};
use crate::state::{
    account_update_model, log_update_model, room_deliveries, update_messages, AppState, Delivery,
};

verus! {

/// A notification the chain sends about an observed room.
pub enum Notification {
    /// The room's account changed; `account_json` is the account value as JSON bytes.
    Account { slot: u64, account_json: Vec<u8> },
    /// A transaction that mentions the room ran, with its logs.
    Logs { slot: u64, signature: String, logs: Vec<String> },
}

/// The value of a notification, its strings and bytes taken as sequences.
pub enum NotificationView {
    Account { slot: u64, account_json: Seq<u8> },
    Logs { slot: u64, signature: Seq<char>, logs: Seq<Seq<char>> },
}

impl View for Notification {
    type V = NotificationView;

    open spec fn view(&self) -> NotificationView {
        match self {
            Notification::Account { slot, account_json } => NotificationView::Account {
                slot: *slot,
                account_json: account_json@,
            },
            Notification::Logs { slot, signature, logs } => NotificationView::Logs {
                slot: *slot,
                signature: signature@,
                logs: logs.deep_view(),
            },
        }
    }
}

/// The slot a notification's `result` names under `context.slot`; zero where it names none.
pub open spec fn slot_of(result: JsonView) -> u64 {
    match json_get(result, "context"@) {
        Some(context) => match json_get(context, "slot"@) {
            Some(slot) => match json_u64(slot) {
                Some(n) => n,
                None => 0,
            },
            None => 0,
        },
        None => 0,
    }
}

/// The JSON bytes of an account notification's `value`: the string `"null"`
/// stands for a missing value, and no bytes for a value that cannot be written.
pub open spec fn account_bytes(result: JsonView) -> Seq<u8> {
    let value = match json_get(result, "value"@) {
        Some(v) => v,
        None => JsonView::Str("null"@),
    };
    match json_encode(value) {
        Some(b) => b,
        None => Seq::empty(),
    }
}

/// The signature a logs notification's `value` names; empty where it names none.
pub open spec fn signature_of(value: Option<JsonView>) -> Seq<char> {
    match value {
        Some(v) => match json_get(v, "signature"@) {
            Some(s) => match json_str(s) {
                Some(t) => t,
                None => Seq::empty(),
            },
            None => Seq::empty(),
        },
        None => Seq::empty(),
    }
}

/// The string log lines a logs notification's `value` lists; none where it lists none.
pub open spec fn logs_of(value: Option<JsonView>) -> Seq<Seq<char>> {
    match value {
        Some(v) => match json_get(v, "logs"@) {
            Some(l) => json_strings(l),
            None => Seq::empty(),
        },
        None => Seq::empty(),
    }
}

/// The notification a pubsub frame carries: a frame whose `method` is
/// `accountNotification` or `logsNotification` and which has `params.result`.
/// Every other frame carries none.
pub open spec fn notification_spec(frame: JsonView) -> Option<NotificationView> {
    match json_get(frame, "method"@) {
        Some(m) => match json_str(m) {
            Some(method) => match json_get(frame, "params"@) {
                Some(params) => match json_get(params, "result"@) {
                    Some(result) => if method == "accountNotification"@ {
                        Some(
                            NotificationView::Account {
                                slot: slot_of(result),
                                account_json: account_bytes(result),
                            },
                        )
                    } else if method == "logsNotification"@ {
                        let value = json_get(result, "value"@);
                        Some(
                            NotificationView::Logs {
                                slot: slot_of(result),
                                signature: signature_of(value),
                                logs: logs_of(value),
                            },
                        )
                    } else {
                        None
                    },
                    None => None,
                },
                None => None,
            },
            None => None,
        },
        None => None,
    }
}

/// The slot named under `context.slot`; zero where there is none.
fn read_slot(result: &Json) -> (r: u64)
    ensures
        r == slot_of(result.deep_view()),
{
    match get_field(result, "context") {
        Some(context) => match get_field(context, "slot") {
            Some(slot) => match as_u64(slot) {
                Some(n) => n,
                None => 0,
            },
            None => 0,
        },
        None => 0,
    }
}

/// The notification a decoded pubsub frame carries, if any.
pub fn notification_of(frame: &Json) -> (r: Option<Notification>)
    ensures
        match r {
            Some(n) => notification_spec(frame.deep_view()) == Some(n@),
            None => notification_spec(frame.deep_view()) is None,
        },
{
    let method = match get_field(frame, "method") {
        Some(m) => match as_str(m) {
            Some(t) => t,
            None => return None,
        },
        None => return None,
    };
    let result = match get_field(frame, "params") {
        Some(params) => match get_field(params, "result") {
            Some(result) => result,
            None => return None,
        },
        None => return None,
    };
    let slot = read_slot(result);
    if str_eq(method.as_str(), "accountNotification") {
        let encoded = match get_field(result, "value") {
            Some(value) => encode_json(value),
            None => {
                let missing = Json::Str(String::from_str("null"));
                encode_json(&missing)
            },
        };
        let account_json = match encoded {
            Some(bytes) => bytes,
            None => Vec::new(),
        };
        assert(account_json@ == account_bytes(result.deep_view()));
        Some(Notification::Account { slot, account_json })
    } else if str_eq(method.as_str(), "logsNotification") {
        let value = get_field(result, "value");
        let signature = match value {
            Some(v) => match get_field(v, "signature") {
                Some(sig) => match as_str(sig) {
                    Some(t) => t.clone(),
                    None => String::new(),
                },
                None => String::new(),
            },
            None => String::new(),
        };
        let logs = match value {
            Some(v) => match get_field(v, "logs") {
                Some(l) => string_items(l),
                None => Vec::new(),
            },
            None => Vec::new(),
        };
        assert(signature@ == signature_of(json_get(result.deep_view(), "value"@)));
        assert(logs.deep_view() == logs_of(json_get(result.deep_view(), "value"@)));
        Some(Notification::Logs { slot, signature, logs })
    } else {
        None
    }
}

/// Whether a room address can be observed: it must be a base58 account address.
pub fn observable_room(room_pubkey: &str) -> (r: bool)
    ensures
        r == base58_pubkey(room_pubkey@) is Some,
{
    parse_pubkey(room_pubkey).is_some()
}

/// The fingerprint of an account value: its SHA-256 digest in lowercase hex.
pub fn account_hash(account_json: &[u8]) -> (r: String)
    ensures
        r@ == sha256_hex(account_json@),
        r@.len() == 64,
{
    sha256_hex_of(account_json)
}

/// The relay's new state and deliveries for a notification about a room, at time `now`.
pub open spec fn notification_outcome(
    before: crate::state::RelayView,
    after: crate::state::RelayView,
    deliveries: Seq<Delivery>,
    room_pubkey: Seq<char>,
    notification: NotificationView,
    now: Timestamp,
) -> bool {
    match notification {
        NotificationView::Account { slot, account_json } => {
            let hash = sha256_hex(account_json);
            &&& after == account_update_model(before, room_pubkey, hash, now).0
            &&& !before.rooms.contains_key(room_pubkey) ==> deliveries.len() == 0
            &&& before.rooms.contains_key(room_pubkey) ==> room_deliveries(
                deliveries,
                after,
                room_pubkey,
                update_messages(
                    MessageView::RoomEvent {
                        room_pubkey,
                        event_type: "account_change"@,
                        payload: PayloadView::AccountChange { slot, account_hash: hash },
                    },
                    account_update_model(before, room_pubkey, hash, now).1,
                ),
            )
        },
        NotificationView::Logs { slot, signature, logs } => {
            &&& after == log_update_model(before, room_pubkey, signature, logs, now).0
            &&& !before.rooms.contains_key(room_pubkey) ==> deliveries.len() == 0
            &&& before.rooms.contains_key(room_pubkey) ==> room_deliveries(
                deliveries,
                after,
                room_pubkey,
                update_messages(
                    MessageView::RoomEvent {
                        room_pubkey,
                        event_type: "program_logs"@,
                        payload: PayloadView::ProgramLogs { slot, signature, logs },
                    },
                    log_update_model(before, room_pubkey, signature, logs, now).1,
                ),
            )
        },
    }
}

/// Applies a notification about a room to the relay at time `now`, and says what to deliver.
pub fn handle_notification_at(
    state: &mut AppState,
    room_pubkey: &str,
    notification: Notification,
    now: Timestamp,
) -> (r: Vec<Delivery>)
    ensures
        notification_outcome(old(state)@, final(state)@, r@, room_pubkey@, notification@, now),
        final(state).config == old(state).config,
{
    match notification {
        Notification::Account { slot, account_json } => {
            let hash = account_hash(account_json.as_slice());
            state.handle_room_account_update_at(room_pubkey, hash, slot, now)
        },
        Notification::Logs { slot, signature, logs } => {
            state.handle_room_log_update_at(room_pubkey, signature, logs, slot, now)
        },
    }
}

/// Applies a notification about a room to the relay, stamped with the current time.
pub fn handle_notification(state: &mut AppState, room_pubkey: &str, notification: Notification) -> (r: Vec<Delivery>)
    ensures
        exists|now: Timestamp|
            notification_outcome(old(state)@, final(state)@, r@, room_pubkey@, notification@, now),
        final(state).config == old(state).config,
{
    let now = utc_now();
    handle_notification_at(state, room_pubkey, notification, now)
}

/// Whether a pubsub frame is JSON at all.
pub fn frame_is_json(text: &str) -> (r: bool)
    ensures
        r == json_parse(text@) is Some,
{
    parse_json(text).is_some()
}

/// Reads one text frame of the pubsub stream and applies the notification it
/// carries, if any, stamped with the current time. A frame that is not JSON,
/// or carries no notification this relay follows, changes nothing.
pub fn handle_frame(state: &mut AppState, room_pubkey: &str, text: &str) -> (r: Vec<Delivery>)
    ensures
        match json_parse(text@) {
            Some(frame) => match notification_spec(frame) {
                Some(n) => exists|now: Timestamp|
                    notification_outcome(old(state)@, final(state)@, r@, room_pubkey@, n, now),
                None => *final(state) == *old(state) && r@.len() == 0,
            },
            None => *final(state) == *old(state) && r@.len() == 0,
        },
        final(state).config == old(state).config,
{
    match parse_json(text) {
        Some(frame) => match notification_of(&frame) {
            Some(notification) => handle_notification(state, room_pubkey, notification),
            None => Vec::new(),
        },
        None => Vec::new(),
    }
}

/// The frame that subscribes to changes of a room's account.
pub open spec fn account_subscribe_frame(room_pubkey: Seq<char>) -> Seq<char> {
    "{\"id\":1,\"jsonrpc\":\"2.0\",\"method\":\"accountSubscribe\",\"params\":[\""@ + room_pubkey
        + "\",{\"commitment\":\"confirmed\",\"encoding\":\"base64\"}]}"@
}

/// The frame that subscribes to the logs of transactions that mention a room.
pub open spec fn logs_subscribe_frame(room_pubkey: Seq<char>) -> Seq<char> {
    "{\"id\":2,\"jsonrpc\":\"2.0\",\"method\":\"logsSubscribe\",\"params\":[{\"mentions\":[\""@
        + room_pubkey + "\"]},{\"commitment\":\"confirmed\"}]}"@
}

/// The two subscribe frames an observer sends for a room: account changes
/// first, then transaction logs. The address is written as it is: an account
/// address is base58 text, which JSON writes without escapes.
pub fn subscribe_frames(room_pubkey: &str) -> (r: (String, String))
    ensures
        r.0@ == account_subscribe_frame(room_pubkey@),
        r.1@ == logs_subscribe_frame(room_pubkey@),
{
    let mut account = String::from_str(
        "{\"id\":1,\"jsonrpc\":\"2.0\",\"method\":\"accountSubscribe\",\"params\":[\"",
    );
    account.append(room_pubkey);
    account.append("\",{\"commitment\":\"confirmed\",\"encoding\":\"base64\"}]}");
    let mut logs = String::from_str(
        "{\"id\":2,\"jsonrpc\":\"2.0\",\"method\":\"logsSubscribe\",\"params\":[{\"mentions\":[\"",
    );
    logs.append(room_pubkey);
    logs.append("\"]},{\"commitment\":\"confirmed\"}]}");
    (account, logs)
}

/// Seconds an observer waits before reconnecting after its connection failed.
pub const OBSERVER_RETRY_SECS: u64 = 3;

/// What happened to a room's observer.
pub enum ObserverEvent {
    /// The observer is starting; `room_valid` says whether the room is an account address.
    Started { room_valid: bool },
    /// The node closed the stream.
    Closed,
    /// Connecting, subscribing or reading failed.
    Failed,
}

/// What a room's observer does next.
pub enum ObserverAction {
    /// Connect to the node and subscribe.
    Connect,
    /// Give the room up.
    Stop,
    /// Wait `secs` seconds, then connect again.
    RetryAfter { secs: u64 },
}

/// The observer's retry policy: a room that is no account address is never
/// observed; a closed stream is reopened at once; a failure is retried after
/// three seconds, for as long as the relay runs.
pub fn observer_next(event: ObserverEvent) -> (a: ObserverAction)
    ensures
        event matches ObserverEvent::Started { room_valid } ==> a == (if room_valid {
            ObserverAction::Connect
        } else {
            ObserverAction::Stop
        }),
        event is Closed ==> a == ObserverAction::Connect,
        event is Failed ==> a == (ObserverAction::RetryAfter { secs: OBSERVER_RETRY_SECS }),
        OBSERVER_RETRY_SECS == 3,
{
    match event {
        ObserverEvent::Started { room_valid } => if room_valid {
            ObserverAction::Connect
        } else {
            ObserverAction::Stop
        },
        ObserverEvent::Closed => ObserverAction::Connect,
        ObserverEvent::Failed => ObserverAction::RetryAfter { secs: OBSERVER_RETRY_SECS },
    }
}

} // verus!
