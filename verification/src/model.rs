//! The messages the relay exchanges with clients, and its status reports.
use vstd::prelude::*;

verus! {

/// A UTC instant: whole seconds since the Unix epoch and the nanoseconds past them.
#[derive(Clone, Copy, Debug, PartialEq, Eq, Structural)]
pub struct Timestamp {
    pub seconds: i64,
    pub nanos: u32,
}

/// The phase of a room as the relay infers it from what happens on chain.
#[derive(Clone, Copy, Debug, PartialEq, Eq, Structural)]
pub enum RoomPhase {
    WaitingForPlayer,
    WaitingForVrf,
    Playing,
    RoundEnd,
    Finished,
}

#[derive(Clone, Copy, Debug, PartialEq, Eq, Structural)]
pub enum MatchRole {
    Creator,
    Joiner,
}

/// A request from a client.
#[derive(Debug)]
pub enum ClientMessage {
    QueueJoin { wallet: String, bet_lamports: u64 },
    QueueLeave { ticket_id: String },
    MatchRoomCreated { match_id: String, room_pubkey: String, signature: String },
    RoomSubscribe { room_pubkey: String },
    SessionResume { wallet: String, room_pubkey: Option<String>, match_id: Option<String> },
}

/// What a room event carries: an account change or the logs of a transaction.
#[derive(Debug)]
pub enum EventPayload {
    AccountChange { slot: u64, account_hash: String },
    ProgramLogs { slot: u64, signature: String, logs: Vec<String> },
}

/// A message to a client.
#[derive(Debug)]
pub enum ServerMessage {
    QueueJoined { ticket_id: String, bet_lamports: u64, queued_at: Timestamp },
    QueueStatus { ahead_count: usize, same_bet_count: usize },
    MatchFound { match_id: String, role: MatchRole, opponent_wallet: String },
    MatchRoomReady { match_id: String, room_pubkey: String },
    RoomState {
        room_pubkey: String,
        phase: RoomPhase,
        turn_wallet: Option<String>,
        updated_at: Timestamp,
        last_signature: Option<String>,
    },
    RoomEvent { room_pubkey: String, event_type: String, payload: EventPayload },
    SystemError { code: String, message: String },
}

/// The value of a client request, its strings taken as character sequences.
pub enum ClientMessageView {
    QueueJoin { wallet: Seq<char>, bet_lamports: u64 },
    QueueLeave { ticket_id: Seq<char> },
    MatchRoomCreated { match_id: Seq<char>, room_pubkey: Seq<char>, signature: Seq<char> },
    RoomSubscribe { room_pubkey: Seq<char> },
    SessionResume {
        wallet: Seq<char>,
        room_pubkey: Option<Seq<char>>,
        match_id: Option<Seq<char>>,
    },
}

/// The value of an event payload.
pub enum PayloadView {
    AccountChange { slot: u64, account_hash: Seq<char> },
    ProgramLogs { slot: u64, signature: Seq<char>, logs: Seq<Seq<char>> },
}

/// The value of a message to a client.
pub enum MessageView {
    QueueJoined { ticket_id: Seq<char>, bet_lamports: u64, queued_at: Timestamp },
    QueueStatus { ahead_count: usize, same_bet_count: usize },
    MatchFound { match_id: Seq<char>, role: MatchRole, opponent_wallet: Seq<char> },
    MatchRoomReady { match_id: Seq<char>, room_pubkey: Seq<char> },
    RoomState {
        room_pubkey: Seq<char>,
        phase: RoomPhase,
        turn_wallet: Option<Seq<char>>,
        updated_at: Timestamp,
        last_signature: Option<Seq<char>>,
    },
    RoomEvent { room_pubkey: Seq<char>, event_type: Seq<char>, payload: PayloadView },
    SystemError { code: Seq<char>, message: Seq<char> },
}

impl View for ClientMessage {
    type V = ClientMessageView;

    open spec fn view(&self) -> ClientMessageView {
        match self {
            ClientMessage::QueueJoin { wallet, bet_lamports } => ClientMessageView::QueueJoin {
                wallet: wallet@,
                bet_lamports: *bet_lamports,
            },
            ClientMessage::QueueLeave { ticket_id } => ClientMessageView::QueueLeave {
                ticket_id: ticket_id@,
            },
            ClientMessage::MatchRoomCreated { match_id, room_pubkey, signature } =>
                ClientMessageView::MatchRoomCreated {
                match_id: match_id@,
                room_pubkey: room_pubkey@,
                signature: signature@,
            },
            ClientMessage::RoomSubscribe { room_pubkey } => ClientMessageView::RoomSubscribe {
                room_pubkey: room_pubkey@,
            },
            ClientMessage::SessionResume { wallet, room_pubkey, match_id } =>
                ClientMessageView::SessionResume {
                wallet: wallet@,
                room_pubkey: room_pubkey.deep_view(),
                match_id: match_id.deep_view(),
            },
        }
    }
}

impl View for EventPayload {
    type V = PayloadView;

    open spec fn view(&self) -> PayloadView {
        match self {
            EventPayload::AccountChange { slot, account_hash } => PayloadView::AccountChange {
                slot: *slot,
                account_hash: account_hash@,
            },
            EventPayload::ProgramLogs { slot, signature, logs } => PayloadView::ProgramLogs {
                slot: *slot,
                signature: signature@,
                logs: logs.deep_view(),
            },
        }
    }
}

impl View for ServerMessage {
    type V = MessageView;

    open spec fn view(&self) -> MessageView {
        match self {
            ServerMessage::QueueJoined { ticket_id, bet_lamports, queued_at } =>
                MessageView::QueueJoined {
                ticket_id: ticket_id@,
                bet_lamports: *bet_lamports,
                queued_at: *queued_at,
            },
            ServerMessage::QueueStatus { ahead_count, same_bet_count } => MessageView::QueueStatus {
                ahead_count: *ahead_count,
                same_bet_count: *same_bet_count,
            },
            ServerMessage::MatchFound { match_id, role, opponent_wallet } =>
                MessageView::MatchFound {
                match_id: match_id@,
                role: *role,
                opponent_wallet: opponent_wallet@,
            },
            ServerMessage::MatchRoomReady { match_id, room_pubkey } => MessageView::MatchRoomReady {
                match_id: match_id@,
                room_pubkey: room_pubkey@,
            },
            ServerMessage::RoomState {
                room_pubkey,
                phase,
                turn_wallet,
                updated_at,
                last_signature,
            } => MessageView::RoomState {
                room_pubkey: room_pubkey@,
                phase: *phase,
                turn_wallet: turn_wallet.deep_view(),
                updated_at: *updated_at,
                last_signature: last_signature.deep_view(),
            },
            ServerMessage::RoomEvent { room_pubkey, event_type, payload } =>
                MessageView::RoomEvent {
                room_pubkey: room_pubkey@,
                event_type: event_type@,
                payload: payload@,
            },
            ServerMessage::SystemError { code, message } => MessageView::SystemError {
                code: code@,
                message: message@,
            },
        }
    }
}

/// The answer to a liveness probe.
#[derive(Clone, Copy, Debug)]
pub struct HealthzResponse {
    pub status: &'static str,
}

/// The answer to a readiness probe.
#[derive(Clone, Copy, Debug)]
pub struct ReadyzResponse {
    pub status: &'static str,
    pub program_id_valid: bool,
    pub rpc_reachable: bool,
    pub observed_rooms: usize,
    pub queued_players: usize,
    pub active_matches: usize,
}

/// A copy of an optional string.
pub fn copy_opt(s: &Option<String>) -> (r: Option<String>)
    ensures
        r.deep_view() == s.deep_view(),
{
    match s {
        Some(v) => Some(v.clone()),
        None => None,
    }
}

impl EventPayload {
    pub fn duplicate(&self) -> (r: EventPayload)
        ensures
            r@ == self@,
    {
        match self {
            EventPayload::AccountChange { slot, account_hash } => EventPayload::AccountChange {
                slot: *slot,
                account_hash: account_hash.clone(),
            },
            EventPayload::ProgramLogs { slot, signature, logs } => {
                let mut copied: Vec<String> = Vec::new();
                let n = logs.len();
                let mut i: usize = 0;
                while i < n
                    invariant
                        n == logs@.len(),
                        i <= n,
                        copied@.len() == i,
                        forall|k: int| 0 <= k < i ==> copied@[k]@ == logs@[k]@,
                    decreases n - i,
                {
                    copied.push(logs[i].clone());
                    i = i + 1;
                }
                proof {
                    assert(copied.deep_view() =~= logs.deep_view());
                }
                EventPayload::ProgramLogs { slot: *slot, signature: signature.clone(), logs: copied }
            },
        }
    }
}

impl ServerMessage {
    /// A copy of the message, for a second recipient.
    pub fn duplicate(&self) -> (r: ServerMessage)
        ensures
            r@ == self@,
    {
        match self {
            ServerMessage::QueueJoined { ticket_id, bet_lamports, queued_at } =>
                ServerMessage::QueueJoined {
                ticket_id: ticket_id.clone(),
                bet_lamports: *bet_lamports,
                queued_at: *queued_at,
            },
            ServerMessage::QueueStatus { ahead_count, same_bet_count } =>
                ServerMessage::QueueStatus {
                ahead_count: *ahead_count,
                same_bet_count: *same_bet_count,
            },
            ServerMessage::MatchFound { match_id, role, opponent_wallet } =>
                ServerMessage::MatchFound {
                match_id: match_id.clone(),
                role: *role,
                opponent_wallet: opponent_wallet.clone(),
            },
            ServerMessage::MatchRoomReady { match_id, room_pubkey } =>
                ServerMessage::MatchRoomReady {
                match_id: match_id.clone(),
                room_pubkey: room_pubkey.clone(),
            },
            ServerMessage::RoomState {
                room_pubkey,
                phase,
                turn_wallet,
                updated_at,
                last_signature,
            } => ServerMessage::RoomState {
                room_pubkey: room_pubkey.clone(),
                phase: *phase,
                turn_wallet: copy_opt(turn_wallet),
                updated_at: *updated_at,
                last_signature: copy_opt(last_signature),
            },
            ServerMessage::RoomEvent { room_pubkey, event_type, payload } =>
                ServerMessage::RoomEvent {
                room_pubkey: room_pubkey.clone(),
                event_type: event_type.clone(),
                payload: payload.duplicate(),
            },
            ServerMessage::SystemError { code, message } => ServerMessage::SystemError {
                code: code.clone(),
                message: message.clone(),
            },
        }
    }
}

/// The HTTP status of a readiness report: 200 when it says `ok`, 503 otherwise.
pub fn readyz_status_code(report: &ReadyzResponse) -> (code: u16)
    ensures
        code == (if report.status@ == "ok"@ {
            200u16
        } else {
            503u16
        }),
{
    if crate::keyed::str_eq(report.status, "ok") {
        200
    } else {
        503
    }
}

} // verus!
