//! What the relay does with each client request and each timer: the
//! decisions of the websocket session, as actions for the server to carry out.
use vstd::prelude::*;

use crate::model::{ClientMessage, ClientMessageView, MatchRole, MessageView, ServerMessage, Timestamp};
use crate::outside::{new_uuid, utc_now};
use crate::state::{
    messages_view, result_view, QueueJoinOutcome, SessionResume, expire_match_model, queue_join_model, queue_leave_model, register_room_model, resume_model,
    room_state_message, subscribe_model, AppState, Delivery, MatchView, RelayView,
};
use crate::text::{replace_underscores, underscores_spaced};

verus! {

/// Something the server must do for the relay.
pub enum Action {
    /// Send a message to one client.
    Send { client_id: String, message: ServerMessage },
    /// Send a message to every recipient of a room (see `AppState::broadcast_to_room`).
    Broadcast { room_pubkey: String, message: ServerMessage },
    /// Start following a room's chain activity.
    StartObserver { room_pubkey: String },
    /// After `seconds`, run `on_match_timeout` for the match.
    ExpireMatchAfter { match_id: String, seconds: u64 },
}

pub enum ActionView {
    Send { client_id: Seq<char>, message: MessageView },
    Broadcast { room_pubkey: Seq<char>, message: MessageView },
    StartObserver { room_pubkey: Seq<char> },
    ExpireMatchAfter { match_id: Seq<char>, seconds: u64 },
}

impl View for Action {
    type V = ActionView;

    open spec fn view(&self) -> ActionView {
        match self {
            Action::Send { client_id, message } => ActionView::Send {
                client_id: client_id@,
                message: message@,
            },
            Action::Broadcast { room_pubkey, message } => ActionView::Broadcast {
                room_pubkey: room_pubkey@,
                message: message@,
            },
            Action::StartObserver { room_pubkey } => ActionView::StartObserver {
                room_pubkey: room_pubkey@,
            },
            Action::ExpireMatchAfter { match_id, seconds } => ActionView::ExpireMatchAfter {
                match_id: match_id@,
                seconds: *seconds,
            },
        }
    }
}

/// The value of a list of actions.
pub open spec fn actions_view(a: Seq<Action>) -> Seq<ActionView> {
    a.map_values(|x: Action| x@)
}

/// The sentence a client is shown for an error code.
pub open spec fn humanized(code: Seq<char>) -> Seq<char> {
    if code == "wallet_already_queued"@ {
        "this wallet is already waiting in queue"@
    } else if code == "wallet_already_in_match"@ {
        "this wallet already has an active match"@
    } else if code == "match_not_found"@ {
        "match not found on relay"@
    } else if code == "match_expired"@ {
        "match expired before the room became ready"@
    } else {
        underscores_spaced(code)
    }
}

/// The sentence a client is shown for an error code; see `humanized`.
pub fn humanize_error(code: &str) -> (r: String)
    ensures
        r@ == humanized(code@),
{
    let known = String::from_str(code);
    if known == String::from_str("wallet_already_queued") {
        String::from_str("this wallet is already waiting in queue")
    } else if known == String::from_str("wallet_already_in_match") {
        String::from_str("this wallet already has an active match")
    } else if known == String::from_str("match_not_found") {
        String::from_str("match not found on relay")
    } else if known == String::from_str("match_expired") {
        String::from_str("match expired before the room became ready")
    } else {
        replace_underscores(code)
    }
}

/// The error message for a refused request.
pub open spec fn error_message(code: Seq<char>) -> MessageView {
    MessageView::SystemError { code, message: humanized(code) }
}

/// A message for a wallet goes to the client it is bound to, if any.
pub open spec fn to_wallet(v: RelayView, wallet: Seq<char>, message: MessageView) -> Seq<ActionView> {
    if v.bindings.contains_key(wallet) {
        seq![ActionView::Send { client_id: v.bindings[wallet], message }]
    } else {
        Seq::empty()
    }
}

/// Whose turn it is to be told of a new match, and how.
pub open spec fn match_found_actions(v: RelayView, m: MatchView, timeout: u64) -> Seq<ActionView> {
    to_wallet(
        v,
        m.creator_wallet,
        MessageView::MatchFound {
            match_id: m.match_id,
            role: MatchRole::Creator,
            opponent_wallet: m.joiner_wallet,
        },
    ) + to_wallet(
        v,
        m.joiner_wallet,
        MessageView::MatchFound {
            match_id: m.match_id,
            role: MatchRole::Joiner,
            opponent_wallet: m.creator_wallet,
        },
    ) + seq![ActionView::ExpireMatchAfter { match_id: m.match_id, seconds: timeout }]
}

/// Observing a room: the room is marked observed, and its observer is started
/// if it was not observed before.
pub open spec fn observe(v: RelayView, room_pubkey: Seq<char>) -> (RelayView, Seq<ActionView>) {
    (
        RelayView { observers: v.observers.insert(room_pubkey), ..v },
        if v.observers.contains(room_pubkey) {
            Seq::empty()
        } else {
            seq![ActionView::StartObserver { room_pubkey }]
        },
    )
}

/// The identifiers and times a request may draw.
pub struct Fresh {
    pub ticket_id: String,
    pub match_id: String,
    pub queued_at: Timestamp,
    pub created_at: Timestamp,
    pub now: Timestamp,
}

/// Handling one client request: the relay's new state and what it sends.
pub open spec fn handle_model(
    v: RelayView,
    timeout: u64,
    client_id: Seq<char>,
    message: ClientMessageView,
    ticket_id: Seq<char>,
    match_id: Seq<char>,
    queued_at: Timestamp,
    created_at: Timestamp,
    now: Timestamp,
) -> (RelayView, Seq<ActionView>) {
    match message {
        ClientMessageView::QueueJoin { wallet, bet_lamports } => {
            let (v2, r) = queue_join_model(
                v,
                client_id,
                wallet,
                bet_lamports,
                ticket_id,
                match_id,
                queued_at,
                created_at,
            );
            match r {
                Ok(o) => (
                    v2,
                    seq![
                        ActionView::Send { client_id, message: o.joined },
                        ActionView::Send { client_id, message: o.status },
                    ] + match o.matched {
                        Some(m) => match_found_actions(v2, m, timeout),
                        None => Seq::empty(),
                    },
                ),
                Err(code) => (v2, seq![ActionView::Send { client_id, message: error_message(code) }]),
            }
        },
        ClientMessageView::QueueLeave { ticket_id } => {
            let (v2, left) = queue_leave_model(v, ticket_id);
            (
                v2,
                seq![
                    ActionView::Send {
                        client_id,
                        message: if left {
                            MessageView::QueueStatus { ahead_count: 0, same_bet_count: 0 }
                        } else {
                            MessageView::SystemError {
                                code: "ticket_not_found"@,
                                message: "queue ticket not found"@,
                            }
                        },
                    },
                ],
            )
        },
        ClientMessageView::MatchRoomCreated { match_id, room_pubkey, signature } => {
            let (v2, r) = register_room_model(v, match_id, room_pubkey, signature, now);
            match r {
                Ok(m) => {
                    let (v3, started) = observe(v2, room_pubkey);
                    (
                        v3,
                        to_wallet(
                            v2,
                            m.joiner_wallet,
                            MessageView::MatchRoomReady { match_id: m.match_id, room_pubkey },
                        ) + started + seq![
                            ActionView::Broadcast {
                                room_pubkey,
                                message: room_state_message(v3.rooms[room_pubkey]),
                            },
                        ],
                    )
                },
                Err(code) => (v2, seq![ActionView::Send { client_id, message: error_message(code) }]),
            }
        },
        ClientMessageView::RoomSubscribe { room_pubkey } => {
            let (v2, room) = subscribe_model(v, client_id, room_pubkey, None, now);
            let (v3, started) = observe(v2, room_pubkey);
            (v3, started + seq![ActionView::Send { client_id, message: room_state_message(room) }])
        },
        ClientMessageView::SessionResume { wallet, room_pubkey, match_id } => {
            let (v2, msgs, started) = resume_model(v, client_id, wallet, room_pubkey, match_id, now);
            (
                v2,
                match started {
                    Some(r) => seq![ActionView::StartObserver { room_pubkey: r }],
                    None => Seq::empty(),
                } + msgs.map_values(|m: MessageView| ActionView::Send { client_id, message: m }),
            )
        },
    }
}


/// Expiring a match whose creator did not publish its room in time: both
/// wallets are told, if the match was still awaiting its room.
pub open spec fn timeout_model(v: RelayView, match_id: Seq<char>) -> (RelayView, Seq<ActionView>) {
    let (v2, expired) = expire_match_model(v, match_id);
    match expired {
        Some(m) => (
            v2,
            to_wallet(
                v2,
                m.creator_wallet,
                MessageView::SystemError {
                    code: "match_expired"@,
                    message: "creator did not publish room in time"@,
                },
            ) + to_wallet(
                v2,
                m.joiner_wallet,
                MessageView::SystemError {
                    code: "match_expired"@,
                    message: "match expired before room creation"@,
                },
            ),
        ),
        None => (v2, Seq::empty()),
    }
}

/// Adds the delivery of `message` to the client `wallet` is bound to, if any.
fn send_to_wallet(state: &AppState, wallet: &str, message: ServerMessage, out: &mut Vec<Action>)
    ensures
        actions_view(final(out)@) == actions_view(old(out)@) + to_wallet(state@, wallet@, message@),
{
    let ghost before = out@;
    match state.client_of_wallet(wallet) {
        Some(client_id) => {
            out.push(Action::Send { client_id, message });
            assert(actions_view(out@) =~= actions_view(before) + to_wallet(state@, wallet@, message@));
        },
        None => {
            assert(actions_view(out@) =~= actions_view(before) + to_wallet(state@, wallet@, message@));
        },
    }
}

/// Handles one client request with the given identifiers and times; see `handle_model`.
pub fn handle_message_with(state: &mut AppState, client_id: &str, message: ClientMessage, fresh: Fresh) -> (r: Vec<Action>)
    ensures
        (final(state)@, actions_view(r@)) == handle_model(
            old(state)@,
            old(state).config.turn_timeout_seconds,
            client_id@,
            message@,
            fresh.ticket_id@,
            fresh.match_id@,
            fresh.queued_at,
            fresh.created_at,
            fresh.now,
        ),
        final(state).config == old(state).config,
{
    let mut out: Vec<Action> = Vec::new();
    match message {
        ClientMessage::QueueJoin { wallet, bet_lamports } => {
            let r = state.queue_join_with(
                String::from_str(client_id),
                wallet,
                bet_lamports,
                fresh.ticket_id,
                fresh.match_id,
                fresh.queued_at,
                fresh.created_at,
            );
            match r {
                Ok(outcome) => {
                    let QueueJoinOutcome { joined, status, matched } = outcome;
                    out.push(Action::Send { client_id: String::from_str(client_id), message: joined });
                    out.push(Action::Send { client_id: String::from_str(client_id), message: status });
                    match matched {
                        Some(m) => {
                            let ghost before = out@;
                            let ghost mv = m@;
                            let ghost a1 = to_wallet(state@, mv.creator_wallet, MessageView::MatchFound {
                                match_id: mv.match_id,
                                role: MatchRole::Creator,
                                opponent_wallet: mv.joiner_wallet,
                            });
                            let ghost a2 = to_wallet(state@, mv.joiner_wallet, MessageView::MatchFound {
                                match_id: mv.match_id,
                                role: MatchRole::Joiner,
                                opponent_wallet: mv.creator_wallet,
                            });
                            send_to_wallet(
                                state,
                                m.creator_wallet.as_str(),
                                ServerMessage::MatchFound {
                                    match_id: m.match_id.clone(),
                                    role: MatchRole::Creator,
                                    opponent_wallet: m.joiner_wallet.clone(),
                                },
                                &mut out,
                            );
                            assert(actions_view(out@) == actions_view(before) + a1);
                            let ghost mid_out = out@;
                            send_to_wallet(
                                state,
                                m.joiner_wallet.as_str(),
                                ServerMessage::MatchFound {
                                    match_id: m.match_id.clone(),
                                    role: MatchRole::Joiner,
                                    opponent_wallet: m.creator_wallet.clone(),
                                },
                                &mut out,
                            );
                            assert(actions_view(out@) == actions_view(mid_out) + a2);
                            let ghost last_out = out@;
                            out.push(
                                Action::ExpireMatchAfter {
                                    match_id: m.match_id.clone(),
                                    seconds: state.config.turn_timeout_seconds,
                                },
                            );
                            proof {
                                assert(actions_view(out@) =~= actions_view(last_out).push(ActionView::ExpireMatchAfter {
                                    match_id: mv.match_id,
                                    seconds: state.config.turn_timeout_seconds,
                                }));
                                assert(actions_view(out@) =~= actions_view(before) + match_found_actions(
                                    state@,
                                    m@,
                                    state.config.turn_timeout_seconds,
                                ));
                            }
                        },
                        None => {},
                    }
                },
                Err(code) => {
                    let text = humanize_error(code.as_str());
                    out.push(
                        Action::Send {
                            client_id: String::from_str(client_id),
                            message: ServerMessage::SystemError { code, message: text },
                        },
                    );
                },
            }
        },
        ClientMessage::QueueLeave { ticket_id } => {
            let left = state.queue_leave(ticket_id.as_str());
            let reply = if left {
                ServerMessage::QueueStatus { ahead_count: 0, same_bet_count: 0 }
            } else {
                ServerMessage::SystemError {
                    code: String::from_str("ticket_not_found"),
                    message: String::from_str("queue ticket not found"),
                }
            };
            out.push(Action::Send { client_id: String::from_str(client_id), message: reply });
        },
        ClientMessage::MatchRoomCreated { match_id, room_pubkey, signature } => {
            let r = state.register_room_creation_at(
                match_id.as_str(),
                room_pubkey.clone(),
                signature,
                fresh.now,
            );
            match r {
                Ok(m) => {
                    let ghost v2 = state@;
                    send_to_wallet(
                        state,
                        m.joiner_wallet.as_str(),
                        ServerMessage::MatchRoomReady {
                            match_id: m.match_id.clone(),
                            room_pubkey: room_pubkey.clone(),
                        },
                        &mut out,
                    );
                    let ghost before = out@;
                    if state.spawn_observer_if_needed(room_pubkey.clone()) {
                        out.push(Action::StartObserver { room_pubkey: room_pubkey.clone() });
                    }
                    proof {
                        assert(actions_view(out@) =~= actions_view(before) + observe(v2, room_pubkey@).1);
                    }
                    match state.current_room_snapshot(room_pubkey.as_str()) {
                        Some(snapshot) => {
                            out.push(Action::Broadcast { room_pubkey, message: snapshot });
                        },
                        None => {},
                    }
                },
                Err(code) => {
                    let text = humanize_error(code.as_str());
                    out.push(
                        Action::Send {
                            client_id: String::from_str(client_id),
                            message: ServerMessage::SystemError { code, message: text },
                        },
                    );
                },
            }
        },
        ClientMessage::RoomSubscribe { room_pubkey } => {
            let room = state.subscribe_room_at(
                String::from_str(client_id),
                room_pubkey.clone(),
                None,
                fresh.now,
            );
            if state.spawn_observer_if_needed(room_pubkey.clone()) {
                out.push(Action::StartObserver { room_pubkey });
            }
            out.push(Action::Send { client_id: String::from_str(client_id), message: room.state_message() });
        },
        ClientMessage::SessionResume { wallet, room_pubkey, match_id } => {
            let resumed = state.resume_session_at(client_id, wallet.as_str(), room_pubkey, match_id, fresh.now);
            let SessionResume { messages, observe } = resumed;
            match observe {
                Some(r) => {
                    out.push(Action::StartObserver { room_pubkey: r });
                },
                None => {},
            }
            let ghost start = actions_view(out@);
            let n = messages.len();
            let mut i: usize = 0;
            while i < n
                invariant
                    n == messages@.len(),
                    i <= n,
                    actions_view(out@) == start + messages_view(messages@).take(i as int).map_values(
                        |m: MessageView| ActionView::Send { client_id: client_id@, message: m },
                    ),
                decreases n - i,
            {
                let ghost before = actions_view(out@);
                out.push(Action::Send { client_id: String::from_str(client_id), message: messages[i].duplicate() });
                proof {
                    let mv = messages_view(messages@);
                    assert(actions_view(out@) =~= before.push(ActionView::Send { client_id: client_id@, message: mv[i as int] }));
                    assert(mv.take(i + 1) =~= mv.take(i as int).push(mv[i as int]));
                    assert(actions_view(out@) =~= start + mv.take(i + 1).map_values(
                        |m: MessageView| ActionView::Send { client_id: client_id@, message: m },
                    ));
                }
                i = i + 1;
            }
            proof {
                assert(messages_view(messages@).take(n as int) =~= messages_view(messages@));
            }
        },
    }
    out
}

/// Handles one client request, drawing fresh identifiers and the current time.
pub fn handle_message(state: &mut AppState, client_id: &str, message: ClientMessage) -> (r: Vec<Action>)
    ensures
        exists|ticket_id: Seq<char>, match_id: Seq<char>, queued_at: Timestamp, created_at: Timestamp, now: Timestamp|
            ticket_id.len() == 36 && match_id.len() == 36 && (final(state)@, actions_view(r@)) == handle_model(
                old(state)@,
                old(state).config.turn_timeout_seconds,
                client_id@,
                message@,
                ticket_id,
                match_id,
                queued_at,
                created_at,
                now,
            ),
        final(state).config == old(state).config,
{
    let queued_at = utc_now();
    let fresh = Fresh {
        ticket_id: new_uuid(),
        match_id: new_uuid(),
        queued_at,
        created_at: utc_now(),
        now: queued_at,
    };
    handle_message_with(state, client_id, message, fresh)
}

/// A match's timer ran out; see `timeout_model`.
pub fn on_match_timeout(state: &mut AppState, match_id: &str) -> (r: Vec<Action>)
    ensures
        (final(state)@, actions_view(r@)) == timeout_model(old(state)@, match_id@),
        final(state).config == old(state).config,
{
    let mut out: Vec<Action> = Vec::new();
    match state.expire_match(match_id) {
        Some(m) => {
            send_to_wallet(
                state,
                m.creator_wallet.as_str(),
                ServerMessage::SystemError {
                    code: String::from_str("match_expired"),
                    message: String::from_str("creator did not publish room in time"),
                },
                &mut out,
            );
            send_to_wallet(
                state,
                m.joiner_wallet.as_str(),
                ServerMessage::SystemError {
                    code: String::from_str("match_expired"),
                    message: String::from_str("match expired before room creation"),
                },
                &mut out,
            );
        },
        None => {
            assert(actions_view(out@) =~= Seq::<ActionView>::empty());
        },
    }
    out
}

} // verus!
