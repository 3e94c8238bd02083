//! The relay's in-memory state: wallet bindings, the matchmaking queue,
//! matches, observed rooms and wallet sessions, with the operations that
//! change it. Every operation is stated against `RelayView`, the value of the state.
use vstd::prelude::*;

use crate::config::Config;
use crate::keyed::{str_eq, StrMap, StrSet};
use crate::model::{
    copy_opt, EventPayload, MatchRole, MessageView, PayloadView, ReadyzResponse, RoomPhase,
    ServerMessage, Timestamp,
};
use crate::outside::{lowercase, new_uuid, to_lowercase, utc_now, base58_pubkey};
use crate::text::{
    ascii_lowered, chars_of, strictly_sorted, contains_str, is_ascii_text, join_lines, joined_lines, lemma_joined_lines_ignoring_case, lines_same_ignoring_ascii_case,
    occurs_in,
};

verus! {

/// A wallet waiting for an opponent at its bet.
#[derive(Debug)]
pub struct QueueEntry {
    pub ticket_id: String,
    pub wallet: String,
    pub client_id: String,
    pub bet_lamports: u64,
    pub queued_at: Timestamp,
}

pub struct QueueEntryView {
    pub ticket_id: Seq<char>,
    pub wallet: Seq<char>,
    pub client_id: Seq<char>,
    pub bet_lamports: u64,
    pub queued_at: Timestamp,
}

impl View for QueueEntry {
    type V = QueueEntryView;

    open spec fn view(&self) -> QueueEntryView {
        QueueEntryView {
            ticket_id: self.ticket_id@,
            wallet: self.wallet@,
            client_id: self.client_id@,
            bet_lamports: self.bet_lamports,
            queued_at: self.queued_at,
        }
    }
}

#[derive(Clone, Copy, Debug, PartialEq, Eq, Structural)]
pub enum MatchLifecycle {
    AwaitingRoomCreation,
    RoomReady,
    Expired,
}

/// Two paired wallets; the creator is to publish the on-chain room.
#[derive(Debug)]
pub struct MatchRuntime {
    pub match_id: String,
    pub bet_lamports: u64,
    pub creator_wallet: String,
    pub creator_client: String,
    pub joiner_wallet: String,
    pub joiner_client: String,
    pub room_pubkey: Option<String>,
    pub state: MatchLifecycle,
    pub created_at: Timestamp,
}

pub struct MatchView {
    pub match_id: Seq<char>,
    pub bet_lamports: u64,
    pub creator_wallet: Seq<char>,
    pub creator_client: Seq<char>,
    pub joiner_wallet: Seq<char>,
    pub joiner_client: Seq<char>,
    pub room_pubkey: Option<Seq<char>>,
    pub state: MatchLifecycle,
    pub created_at: Timestamp,
}

impl View for MatchRuntime {
    type V = MatchView;

    open spec fn view(&self) -> MatchView {
        MatchView {
            match_id: self.match_id@,
            bet_lamports: self.bet_lamports,
            creator_wallet: self.creator_wallet@,
            creator_client: self.creator_client@,
            joiner_wallet: self.joiner_wallet@,
            joiner_client: self.joiner_client@,
            room_pubkey: self.room_pubkey.deep_view(),
            state: self.state,
            created_at: self.created_at,
        }
    }
}

impl MatchRuntime {
    pub fn duplicate(&self) -> (r: MatchRuntime)
        ensures
            r@ == self@,
    {
        MatchRuntime {
            match_id: self.match_id.clone(),
            bet_lamports: self.bet_lamports,
            creator_wallet: self.creator_wallet.clone(),
            creator_client: self.creator_client.clone(),
            joiner_wallet: self.joiner_wallet.clone(),
            joiner_client: self.joiner_client.clone(),
            room_pubkey: copy_opt(&self.room_pubkey),
            state: self.state,
            created_at: self.created_at,
        }
    }
}

/// What the relay knows of an on-chain room and who follows it.
pub struct RoomRuntime {
    pub room_pubkey: String,
    pub match_id: Option<String>,
    pub wallets: StrSet,
    pub subscribers: StrSet,
    pub phase: RoomPhase,
    pub turn_wallet: Option<String>,
    pub updated_at: Timestamp,
    pub last_signature: Option<String>,
    pub last_account_hash: Option<String>,
}

pub struct RoomView {
    pub room_pubkey: Seq<char>,
    pub match_id: Option<Seq<char>>,
    pub wallets: Set<Seq<char>>,
    pub subscribers: Set<Seq<char>>,
    pub phase: RoomPhase,
    pub turn_wallet: Option<Seq<char>>,
    pub updated_at: Timestamp,
    pub last_signature: Option<Seq<char>>,
    pub last_account_hash: Option<Seq<char>>,
}

impl View for RoomRuntime {
    type V = RoomView;

    open spec fn view(&self) -> RoomView {
        RoomView {
            room_pubkey: self.room_pubkey@,
            match_id: self.match_id.deep_view(),
            wallets: self.wallets@,
            subscribers: self.subscribers@,
            phase: self.phase,
            turn_wallet: self.turn_wallet.deep_view(),
            updated_at: self.updated_at,
            last_signature: self.last_signature.deep_view(),
            last_account_hash: self.last_account_hash.deep_view(),
        }
    }
}

impl RoomRuntime {
    pub fn duplicate(&self) -> (r: RoomRuntime)
        ensures
            r@ == self@,
    {
        RoomRuntime {
            room_pubkey: self.room_pubkey.clone(),
            match_id: copy_opt(&self.match_id),
            wallets: self.wallets.duplicate(),
            subscribers: self.subscribers.duplicate(),
            phase: self.phase,
            turn_wallet: copy_opt(&self.turn_wallet),
            updated_at: self.updated_at,
            last_signature: copy_opt(&self.last_signature),
            last_account_hash: copy_opt(&self.last_account_hash),
        }
    }
}

/// Where a wallet stands: its queue ticket, its match and its room.
#[derive(Debug, Default)]
pub struct WalletSession {
    pub ticket_id: Option<String>,
    pub current_match_id: Option<String>,
    pub current_room_pubkey: Option<String>,
}

pub struct SessionView {
    pub ticket_id: Option<Seq<char>>,
    pub current_match_id: Option<Seq<char>>,
    pub current_room_pubkey: Option<Seq<char>>,
}

impl View for WalletSession {
    type V = SessionView;

    open spec fn view(&self) -> SessionView {
        SessionView {
            ticket_id: self.ticket_id.deep_view(),
            current_match_id: self.current_match_id.deep_view(),
            current_room_pubkey: self.current_room_pubkey.deep_view(),
        }
    }
}

impl WalletSession {
    pub fn duplicate(&self) -> (r: WalletSession)
        ensures
            r@ == self@,
    {
        WalletSession {
            ticket_id: copy_opt(&self.ticket_id),
            current_match_id: copy_opt(&self.current_match_id),
            current_room_pubkey: copy_opt(&self.current_room_pubkey),
        }
    }
}

/// The session of a wallet that has none yet.
pub open spec fn empty_session() -> SessionView {
    SessionView { ticket_id: None, current_match_id: None, current_room_pubkey: None }
}

/// What `queue_join` answers: the ticket, the queue status and the match, if one was made.
pub struct QueueJoinOutcome {
    pub joined: ServerMessage,
    pub status: ServerMessage,
    pub matched: Option<MatchRuntime>,
}

pub struct OutcomeView {
    pub joined: MessageView,
    pub status: MessageView,
    pub matched: Option<MatchView>,
}

impl View for QueueJoinOutcome {
    type V = OutcomeView;

    open spec fn view(&self) -> OutcomeView {
        OutcomeView {
            joined: self.joined@,
            status: self.status@,
            matched: match self.matched {
                Some(m) => Some(m@),
                None => None,
            },
        }
    }
}

/// A message to deliver to one client.
pub struct Delivery {
    pub client_id: String,
    pub message: ServerMessage,
}

pub struct DeliveryView {
    pub client_id: Seq<char>,
    pub message: MessageView,
}

impl View for Delivery {
    type V = DeliveryView;

    open spec fn view(&self) -> DeliveryView {
        DeliveryView { client_id: self.client_id@, message: self.message@ }
    }
}

/// The value of the relay's state.
pub struct RelayView {
    /// The client each wallet last spoke through.
    pub bindings: Map<Seq<char>, Seq<char>>,
    /// The waiting wallets, in the order they joined.
    pub queue: Seq<QueueEntryView>,
    pub matches: Map<Seq<char>, MatchView>,
    pub rooms: Map<Seq<char>, RoomView>,
    pub sessions: Map<Seq<char>, SessionView>,
    /// The rooms whose chain activity is being followed.
    pub observers: Set<Seq<char>>,
}

/// The relay's state.
pub struct RuntimeState {
    wallet_bindings: StrMap<String>,
    queue: Vec<QueueEntry>,
    matches: StrMap<MatchRuntime>,
    rooms: StrMap<RoomRuntime>,
    wallet_sessions: StrMap<WalletSession>,
    observers: StrSet,
}

impl View for RuntimeState {
    type V = RelayView;

    closed spec fn view(&self) -> RelayView {
        RelayView {
            bindings: self.wallet_bindings@,
            queue: self.queue@.map_values(|e: QueueEntry| e@),
            matches: self.matches@,
            rooms: self.rooms@,
            sessions: self.wallet_sessions@,
            observers: self.observers@,
        }
    }
}

/// The relay: its settings and its state.
pub struct AppState {
    pub config: Config,
    pub runtime: RuntimeState,
}

impl View for AppState {
    type V = RelayView;

    closed spec fn view(&self) -> RelayView {
        self.runtime@
    }
}

/// Whether `wallet` holds a queue ticket.
pub open spec fn wallet_queued(q: Seq<QueueEntryView>, wallet: Seq<char>) -> bool {
    exists|i: int| 0 <= i < q.len() && #[trigger] q[i].wallet == wallet
}

/// Whether `wallet` is in a match that has not expired.
pub open spec fn wallet_in_match(m: Map<Seq<char>, MatchView>, wallet: Seq<char>) -> bool {
    exists|k: Seq<char>|
        #[trigger] m.contains_key(k) && m[k].state != MatchLifecycle::Expired && (
        m[k].creator_wallet == wallet || m[k].joiner_wallet == wallet)
}

/// Whether entry `i` is the longest-waiting one at `bet`.
pub open spec fn first_at_bet(q: Seq<QueueEntryView>, bet: u64, i: int) -> bool {
    &&& 0 <= i < q.len()
    &&& q[i].bet_lamports == bet
    &&& forall|j: int| 0 <= j < i ==> #[trigger] q[j].bet_lamports != bet
}

/// Whether anyone waits at `bet`.
pub open spec fn someone_at_bet(q: Seq<QueueEntryView>, bet: u64) -> bool {
    exists|i: int| 0 <= i < q.len() && #[trigger] q[i].bet_lamports == bet
}

/// The longest-waiting entry at `bet`.
pub open spec fn first_index_at_bet(q: Seq<QueueEntryView>, bet: u64) -> int {
    choose|i: int| first_at_bet(q, bet, i)
}

/// The session of `wallet`, empty where it has none.
pub open spec fn session_of(s: Map<Seq<char>, SessionView>, wallet: Seq<char>) -> SessionView {
    if s.contains_key(wallet) {
        s[wallet]
    } else {
        empty_session()
    }
}

/// `wallet` is now in match `match_id` and holds no ticket.
pub open spec fn enter_match(
    s: Map<Seq<char>, SessionView>,
    wallet: Seq<char>,
    match_id: Seq<char>,
) -> Map<Seq<char>, SessionView> {
    s.insert(
        wallet,
        SessionView {
            ticket_id: None,
            current_match_id: Some(match_id),
            ..session_of(s, wallet)
        },
    )
}

/// Joining the queue: the wallet is bound to the client; a wallet that is
/// queued or in a live match is refused; otherwise it is paired with the
/// longest-waiting wallet at the same bet, or else it waits with a new ticket.
pub open spec fn queue_join_model(
    v: RelayView,
    client_id: Seq<char>,
    wallet: Seq<char>,
    bet_lamports: u64,
    ticket_id: Seq<char>,
    match_id: Seq<char>,
    queued_at: Timestamp,
    created_at: Timestamp,
) -> (RelayView, Result<OutcomeView, Seq<char>>) {
    let v1 = RelayView { bindings: v.bindings.insert(wallet, client_id), ..v };
    if wallet_queued(v1.queue, wallet) {
        (v1, Err("wallet_already_queued"@))
    } else if wallet_in_match(v1.matches, wallet) {
        (v1, Err("wallet_already_in_match"@))
    } else {
        let joined = MessageView::QueueJoined { ticket_id, bet_lamports, queued_at };
        if someone_at_bet(v1.queue, bet_lamports) {
            let i = first_index_at_bet(v1.queue, bet_lamports);
            let creator = v1.queue[i];
            let m = MatchView {
                match_id,
                bet_lamports,
                creator_wallet: creator.wallet,
                creator_client: creator.client_id,
                joiner_wallet: wallet,
                joiner_client: client_id,
                room_pubkey: None,
                state: MatchLifecycle::AwaitingRoomCreation,
                created_at,
            };
            (
                RelayView {
                    queue: v1.queue.remove(i),
                    matches: v1.matches.insert(match_id, m),
                    sessions: enter_match(
                        enter_match(v1.sessions, creator.wallet, match_id),
                        wallet,
                        match_id,
                    ),
                    ..v1
                },
                Ok(
                    OutcomeView {
                        joined,
                        status: MessageView::QueueStatus { ahead_count: 0, same_bet_count: 0 },
                        matched: Some(m),
                    },
                ),
            )
        } else {
            let entry = QueueEntryView {
                ticket_id,
                wallet,
                client_id,
                bet_lamports,
                queued_at,
            };
            (
                RelayView {
                    queue: v1.queue.push(entry),
                    sessions: v1.sessions.insert(
                        wallet,
                        SessionView { ticket_id: Some(ticket_id), ..session_of(v1.sessions, wallet) },
                    ),
                    ..v1
                },
                Ok(
                    OutcomeView {
                        joined,
                        status: MessageView::QueueStatus { ahead_count: 0, same_bet_count: 1 },
                        matched: None,
                    },
                ),
            )
        }
    }
}

/// The value of a `Result` with a `String` error.
pub open spec fn result_view<T: View>(r: Result<T, String>) -> Result<T::V, Seq<char>> {
    match r {
        Ok(t) => Ok(t@),
        Err(e) => Err(e@),
    }
}


/// Whether entry `i` is the first holding ticket `ticket_id`.
pub open spec fn first_with_ticket(q: Seq<QueueEntryView>, ticket_id: Seq<char>, i: int) -> bool {
    &&& 0 <= i < q.len()
    &&& q[i].ticket_id == ticket_id
    &&& forall|j: int| 0 <= j < i ==> #[trigger] q[j].ticket_id != ticket_id
}

/// Whether some entry holds ticket `ticket_id`.
pub open spec fn ticket_queued(q: Seq<QueueEntryView>, ticket_id: Seq<char>) -> bool {
    exists|i: int| 0 <= i < q.len() && #[trigger] q[i].ticket_id == ticket_id
}

/// Leaving the queue: the ticket's entry goes, and its wallet's session
/// (if it has one) no longer holds a ticket.
pub open spec fn queue_leave_model(v: RelayView, ticket_id: Seq<char>) -> (RelayView, bool) {
    if ticket_queued(v.queue, ticket_id) {
        let i = choose|i: int| first_with_ticket(v.queue, ticket_id, i);
        let w = v.queue[i].wallet;
        (
            RelayView {
                queue: v.queue.remove(i),
                sessions: if v.sessions.contains_key(w) {
                    v.sessions.insert(w, SessionView { ticket_id: None, ..v.sessions[w] })
                } else {
                    v.sessions
                },
                ..v
            },
            true,
        )
    } else {
        (v, false)
    }
}

/// Expiring a match: only one still awaiting its room expires.
pub open spec fn expire_match_model(v: RelayView, match_id: Seq<char>) -> (RelayView, Option<MatchView>) {
    if v.matches.contains_key(match_id) && v.matches[match_id].state
        == MatchLifecycle::AwaitingRoomCreation {
        let m = MatchView { state: MatchLifecycle::Expired, ..v.matches[match_id] };
        (RelayView { matches: v.matches.insert(match_id, m), ..v }, Some(m))
    } else {
        (v, None)
    }
}

/// A room the relay has just started to track.
pub open spec fn fresh_room(room_pubkey: Seq<char>, match_id: Option<Seq<char>>, now: Timestamp) -> RoomView {
    RoomView {
        room_pubkey,
        match_id,
        wallets: Set::empty(),
        subscribers: Set::empty(),
        phase: RoomPhase::WaitingForPlayer,
        turn_wallet: None,
        updated_at: now,
        last_signature: None,
        last_account_hash: None,
    }
}

/// The tracked room, or a fresh one.
pub open spec fn room_or_fresh(
    rooms: Map<Seq<char>, RoomView>,
    room_pubkey: Seq<char>,
    match_id: Option<Seq<char>>,
    now: Timestamp,
) -> RoomView {
    if rooms.contains_key(room_pubkey) {
        rooms[room_pubkey]
    } else {
        fresh_room(room_pubkey, match_id, now)
    }
}

/// `wallet`'s session now points at room `room_pubkey`.
pub open spec fn enter_room(
    s: Map<Seq<char>, SessionView>,
    wallet: Seq<char>,
    room_pubkey: Seq<char>,
) -> Map<Seq<char>, SessionView> {
    s.insert(wallet, SessionView { current_room_pubkey: Some(room_pubkey), ..session_of(s, wallet) })
}

/// Registering the on-chain room of a match: an unknown or expired match is
/// refused; otherwise the match is ready in that room, the room (tracked or
/// fresh) belongs to the match and both wallets, is waiting for its second
/// player, and records the creating transaction; both wallets' sessions point at it.
pub open spec fn register_room_model(
    v: RelayView,
    match_id: Seq<char>,
    room_pubkey: Seq<char>,
    signature: Seq<char>,
    now: Timestamp,
) -> (RelayView, Result<MatchView, Seq<char>>) {
    if !v.matches.contains_key(match_id) {
        (v, Err("match_not_found"@))
    } else if v.matches[match_id].state == MatchLifecycle::Expired {
        (v, Err("match_expired"@))
    } else {
        let m = MatchView {
            room_pubkey: Some(room_pubkey),
            state: MatchLifecycle::RoomReady,
            ..v.matches[match_id]
        };
        let base = room_or_fresh(v.rooms, room_pubkey, Some(match_id), now);
        let r = RoomView {
            match_id: Some(match_id),
            wallets: base.wallets.insert(m.creator_wallet).insert(m.joiner_wallet),
            phase: RoomPhase::WaitingForPlayer,
            updated_at: now,
            last_signature: Some(signature),
            ..base
        };
        (
            RelayView {
                matches: v.matches.insert(match_id, m),
                rooms: v.rooms.insert(room_pubkey, r),
                sessions: enter_room(
                    enter_room(v.sessions, m.creator_wallet, room_pubkey),
                    m.joiner_wallet,
                    room_pubkey,
                ),
                ..v
            },
            Ok(m),
        )
    }
}

/// Subscribing a client to a room (tracked or fresh), and adding the wallet, if given, to it.
pub open spec fn subscribe_model(
    v: RelayView,
    client_id: Seq<char>,
    room_pubkey: Seq<char>,
    wallet: Option<Seq<char>>,
    now: Timestamp,
) -> (RelayView, RoomView) {
    let base = room_or_fresh(v.rooms, room_pubkey, None, now);
    let r = RoomView {
        subscribers: base.subscribers.insert(client_id),
        wallets: match wallet {
            Some(w) => base.wallets.insert(w),
            None => base.wallets,
        },
        ..base
    };
    (RelayView { rooms: v.rooms.insert(room_pubkey, r), ..v }, r)
}

/// The state message of a room.
pub open spec fn room_state_message(r: RoomView) -> MessageView {
    MessageView::RoomState {
        room_pubkey: r.room_pubkey,
        phase: r.phase,
        turn_wallet: r.turn_wallet,
        updated_at: r.updated_at,
        last_signature: r.last_signature,
    }
}


/// The clients a room's messages go to: those its wallets are bound to, and its subscribers.
pub open spec fn room_recipients(v: RelayView, room_pubkey: Seq<char>) -> Set<Seq<char>> {
    if v.rooms.contains_key(room_pubkey) {
        let r = v.rooms[room_pubkey];
        Set::new(
            |c: Seq<char>|
                (exists|w: Seq<char>|
                    #[trigger] r.wallets.contains(w) && v.bindings.contains_key(w) && v.bindings[w]
                        == c) || r.subscribers.contains(c),
        )
    } else {
        Set::empty()
    }
}

/// Each message in turn, to each of the clients `rs` in turn.
pub open spec fn deliveries_to(rs: Seq<Seq<char>>, msgs: Seq<MessageView>) -> Seq<DeliveryView>
    decreases msgs.len(),
{
    if msgs.len() == 0 {
        Seq::empty()
    } else {
        rs.map_values(|c: Seq<char>| DeliveryView { client_id: c, message: msgs[0] })
            + deliveries_to(rs, msgs.drop_first())
    }
}

/// The value of a list of deliveries.
pub open spec fn deliveries_view(d: Seq<Delivery>) -> Seq<DeliveryView> {
    d.map_values(|x: Delivery| x@)
}

/// `d` delivers `msgs`, in order, to each recipient of the room once, the
/// recipients taken in increasing order of strings.
pub open spec fn room_deliveries(d: Seq<Delivery>, v: RelayView, room_pubkey: Seq<char>, msgs: Seq<MessageView>) -> bool {
    exists|rs: Seq<Seq<char>>|
        #[trigger] rs.to_set() == room_recipients(v, room_pubkey) && rs.no_duplicates() && strictly_sorted(rs)
            && deliveries_view(d) == deliveries_to(rs, msgs)
}

/// The matches that have not expired.
pub open spec fn live_matches(m: Map<Seq<char>, MatchView>) -> Set<Seq<char>> {
    m.dom().filter(|k: Seq<char>| m[k].state != MatchLifecycle::Expired)
}

/// The rooms with `client_id` no longer among any room's subscribers.
pub open spec fn without_subscriber(rooms: Map<Seq<char>, RoomView>, client_id: Seq<char>) -> Map<Seq<char>, RoomView> {
    Map::new(
        |k: Seq<char>| rooms.contains_key(k),
        |k: Seq<char>| RoomView { subscribers: rooms[k].subscribers.remove(client_id), ..rooms[k] },
    )
}

/// The phase a room moves to on an account change: a waiting room moves one step on.
pub open spec fn promoted_phase(current: RoomPhase) -> RoomPhase {
    match current {
        RoomPhase::WaitingForPlayer => RoomPhase::WaitingForVrf,
        RoomPhase::WaitingForVrf => RoomPhase::Playing,
        p => p,
    }
}

/// The phase a transaction's logs point to, read from their lowercased text
/// in this order: finished or winner; round end; vrf or randomness; shoot,
/// turn, reload or item. Logs that show none move a room still waiting for
/// its second player on to waiting for randomness.
pub open spec fn inferred_phase(current: RoomPhase, logs: Seq<Seq<char>>) -> Option<RoomPhase> {
    phase_from_text(current, lowercase(joined_lines(logs)))
}

/// The phase lowercased log text points to; see `inferred_phase`.
pub open spec fn phase_from_text(current: RoomPhase, text: Seq<char>) -> Option<RoomPhase> {
    if occurs_in(text, "finished"@) || occurs_in(text, "winner"@) {
        Some(RoomPhase::Finished)
    } else if occurs_in(text, "round end"@) || occurs_in(text, "round_end"@) {
        Some(RoomPhase::RoundEnd)
    } else if occurs_in(text, "vrf"@) || occurs_in(text, "randomness"@) {
        Some(RoomPhase::WaitingForVrf)
    } else if occurs_in(text, "shoot"@) || occurs_in(text, "turn"@) || occurs_in(text, "reload"@)
        || occurs_in(text, "item"@) {
        Some(RoomPhase::Playing)
    } else if current == RoomPhase::WaitingForPlayer {
        Some(RoomPhase::WaitingForVrf)
    } else {
        None
    }
}

/// An account change of a tracked room: unless it repeats the last change
/// seen, the room records it, is stamped `now` and its phase is promoted.
/// Returns the new state and the room's new state message, if it changed.
pub open spec fn account_update_model(
    v: RelayView,
    room_pubkey: Seq<char>,
    account_hash: Seq<char>,
    now: Timestamp,
) -> (RelayView, Option<MessageView>) {
    if !v.rooms.contains_key(room_pubkey) {
        (v, None)
    } else {
        let r = v.rooms[room_pubkey];
        if r.last_account_hash == Some(account_hash) {
            (v, None)
        } else {
            let r2 = RoomView {
                last_account_hash: Some(account_hash),
                updated_at: now,
                phase: promoted_phase(r.phase),
                ..r
            };
            (RelayView { rooms: v.rooms.insert(room_pubkey, r2), ..v }, Some(room_state_message(r2)))
        }
    }
}

/// A transaction touching a tracked room: the room records its signature,
/// is stamped `now` and takes the phase its logs point to, if any.
pub open spec fn log_update_model(
    v: RelayView,
    room_pubkey: Seq<char>,
    signature: Seq<char>,
    logs: Seq<Seq<char>>,
    now: Timestamp,
) -> (RelayView, Option<MessageView>) {
    if !v.rooms.contains_key(room_pubkey) {
        (v, None)
    } else {
        let r = v.rooms[room_pubkey];
        let r2 = RoomView {
            updated_at: now,
            last_signature: Some(signature),
            phase: match inferred_phase(r.phase, logs) {
                Some(p) => p,
                None => r.phase,
            },
            ..r
        };
        (RelayView { rooms: v.rooms.insert(room_pubkey, r2), ..v }, Some(room_state_message(r2)))
    }
}

/// The messages an update sends a room: the event, then the new state if there is one.
pub open spec fn update_messages(event: MessageView, snapshot: Option<MessageView>) -> Seq<MessageView> {
    match snapshot {
        Some(s) => seq![event, s],
        None => seq![event],
    }
}


/// The number of entries at `bet`.
pub open spec fn count_at_bet(q: Seq<QueueEntryView>, bet: u64) -> nat
    decreases q.len(),
{
    if q.len() == 0 {
        0
    } else {
        count_at_bet(q.drop_last(), bet) + if q.last().bet_lamports == bet {
            1nat
        } else {
            0nat
        }
    }
}

/// What a resuming wallet is told of its queue ticket: the ticket and its
/// place among those waiting at the same bet, if it is still queued.
pub open spec fn ticket_messages(q: Seq<QueueEntryView>, s: SessionView) -> Seq<MessageView> {
    match s.ticket_id {
        Some(t) => if ticket_queued(q, t) {
            let i = choose|i: int| first_with_ticket(q, t, i);
            let e = q[i];
            seq![
                MessageView::QueueJoined {
                    ticket_id: e.ticket_id,
                    bet_lamports: e.bet_lamports,
                    queued_at: e.queued_at,
                },
                MessageView::QueueStatus {
                    ahead_count: count_at_bet(q.take(i), e.bet_lamports) as usize,
                    same_bet_count: count_at_bet(q, e.bet_lamports) as usize,
                },
            ]
        } else {
            Seq::empty()
        },
        None => Seq::empty(),
    }
}

/// What a resuming wallet is told of a match: who it faces and, once
/// published, the match's room.
pub open spec fn match_messages(
    matches: Map<Seq<char>, MatchView>,
    wallet: Seq<char>,
    preferred: Option<Seq<char>>,
) -> Seq<MessageView> {
    match preferred {
        Some(id) => if matches.contains_key(id) {
            let m = matches[id];
            let found = if m.creator_wallet == wallet {
                MessageView::MatchFound {
                    match_id: m.match_id,
                    role: MatchRole::Creator,
                    opponent_wallet: m.joiner_wallet,
                }
            } else {
                MessageView::MatchFound {
                    match_id: m.match_id,
                    role: MatchRole::Joiner,
                    opponent_wallet: m.creator_wallet,
                }
            };
            seq![found] + match m.room_pubkey {
                Some(r) => seq![MessageView::MatchRoomReady { match_id: m.match_id, room_pubkey: r }],
                None => Seq::empty(),
            }
        } else {
            Seq::empty()
        },
        None => Seq::empty(),
    }
}

/// The first of two options that is present.
pub open spec fn either(a: Option<Seq<char>>, b: Option<Seq<char>>) -> Option<Seq<char>> {
    match a {
        Some(x) => Some(x),
        None => b,
    }
}

/// Resuming a wallet's session: the wallet is bound to the client, and is
/// told of its ticket, of its match (the one asked for, else the session's)
/// and of its room (the one asked for, else the session's), which it is
/// subscribed to and which is observed from then on. Returns the new state,
/// the messages, and the room whose observer must be started, if any.
pub open spec fn resume_model(
    v: RelayView,
    client_id: Seq<char>,
    wallet: Seq<char>,
    room_pubkey: Option<Seq<char>>,
    match_id: Option<Seq<char>>,
    now: Timestamp,
) -> (RelayView, Seq<MessageView>, Option<Seq<char>>) {
    let v1 = RelayView { bindings: v.bindings.insert(wallet, client_id), ..v };
    let s = session_of(v1.sessions, wallet);
    let msgs = ticket_messages(v1.queue, s) + match_messages(
        v1.matches,
        wallet,
        either(match_id, s.current_match_id),
    );
    match either(room_pubkey, s.current_room_pubkey) {
        Some(r) => {
            let (v2, rv) = subscribe_model(v1, client_id, r, Some(wallet), now);
            (
                RelayView { observers: v2.observers.insert(r), ..v2 },
                msgs.push(room_state_message(rv)),
                if v2.observers.contains(r) {
                    None
                } else {
                    Some(r)
                },
            )
        },
        None => (v1, msgs, None),
    }
}

/// The value of a list of messages.
pub open spec fn messages_view(m: Seq<ServerMessage>) -> Seq<MessageView> {
    m.map_values(|x: ServerMessage| x@)
}

/// What resuming a session yields: the messages for the client, and the
/// room whose observer must be started, if any.
pub struct SessionResume {
    pub messages: Vec<ServerMessage>,
    pub observe: Option<String>,
}

impl AppState {
    /// A relay with the given settings and nothing in it.
    pub fn new(config: Config) -> (s: AppState)
        ensures
            s@.bindings == Map::<Seq<char>, Seq<char>>::empty(),
            s@.queue == Seq::<QueueEntryView>::empty(),
            s@.matches == Map::<Seq<char>, MatchView>::empty(),
            s@.rooms == Map::<Seq<char>, RoomView>::empty(),
            s@.sessions == Map::<Seq<char>, SessionView>::empty(),
            s@.observers == Set::<Seq<char>>::empty(),
            s.config == config,
    {
        let runtime = RuntimeState {
            wallet_bindings: StrMap::new(),
            queue: Vec::new(),
            matches: StrMap::new(),
            rooms: StrMap::new(),
            wallet_sessions: StrMap::new(),
            observers: StrSet::new(),
        };
        assert(runtime.queue@.map_values(|e: QueueEntry| e@) =~= Seq::<QueueEntryView>::empty());
        AppState { config, runtime }
    }

    /// Binds `wallet` to the client it speaks through.
    pub fn bind_wallet(&mut self, client_id: &str, wallet: &str)
        ensures
            final(self)@ == (RelayView {
                bindings: old(self)@.bindings.insert(wallet@, client_id@),
                ..old(self)@
            }),
            final(self).config == old(self).config,
    {
        self.runtime.wallet_bindings.insert(String::from_str(wallet), String::from_str(client_id));
    }

    /// The client `wallet` is bound to, if any.
    pub fn client_of_wallet(&self, wallet: &str) -> (r: Option<String>)
        ensures
            r.deep_view() == (if self@.bindings.contains_key(wallet@) {
                Some(self@.bindings[wallet@])
            } else {
                None
            }),
    {
        match self.runtime.wallet_bindings.get(wallet) {
            Some(c) => Some(c.clone()),
            None => None,
        }
    }

    fn is_wallet_queued(&self, wallet: &str) -> (r: bool)
        ensures
            r == wallet_queued(self@.queue, wallet@),
    {
        let n = self.runtime.queue.len();
        let mut i: usize = 0;
        while i < n
            invariant
                n == self@.queue.len(),
                i <= n,
                forall|j: int| 0 <= j < i ==> #[trigger] self@.queue[j].wallet != wallet@,
            decreases n - i,
        {
            if str_eq(self.runtime.queue[i].wallet.as_str(), wallet) {
                assert(self@.queue[i as int].wallet == wallet@);
                return true;
            }
            i = i + 1;
        }
        false
    }

    fn is_wallet_in_match(&self, wallet: &str) -> (r: bool)
        ensures
            r == wallet_in_match(self@.matches, wallet@),
    {
        let n = self.runtime.matches.len();
        let mut i: usize = 0;
        while i < n
            invariant
                n == self.runtime.matches.key_seq().len(),
                i <= n,
                forall|k: Seq<char>| self@.matches.contains_key(k) <==> self.runtime.matches.key_seq().contains(k),
                forall|j: int|
                    0 <= j < i ==> {
                        let m = #[trigger] self@.matches[self.runtime.matches.key_seq()[j]];
                        !(m.state != MatchLifecycle::Expired && (m.creator_wallet == wallet@
                            || m.joiner_wallet == wallet@))
                    },
            decreases n - i,
        {
            let m = self.runtime.matches.value_at(i);
            if m.state != MatchLifecycle::Expired && (str_eq(m.creator_wallet.as_str(), wallet)
                || str_eq(m.joiner_wallet.as_str(), wallet)) {
                return true;
            }
            i = i + 1;
        }
        proof {
            assert forall|k: Seq<char>| #[trigger] self@.matches.contains_key(k) implies !(
            self@.matches[k].state != MatchLifecycle::Expired && (self@.matches[k].creator_wallet
                == wallet@ || self@.matches[k].joiner_wallet == wallet@)) by {
                let j = choose|j: int| 0 <= j < n && self.runtime.matches.key_seq()[j] == k;
                assert(self@.matches[self.runtime.matches.key_seq()[j]] == self@.matches[k]);
            }
        }
        false
    }

    fn first_waiting_at_bet(&self, bet_lamports: u64) -> (r: Option<usize>)
        ensures
            match r {
                Some(i) => first_at_bet(self@.queue, bet_lamports, i as int),
                None => !someone_at_bet(self@.queue, bet_lamports),
            },
    {
        let n = self.runtime.queue.len();
        let mut i: usize = 0;
        while i < n
            invariant
                n == self@.queue.len(),
                i <= n,
                forall|j: int| 0 <= j < i ==> #[trigger] self@.queue[j].bet_lamports != bet_lamports,
            decreases n - i,
        {
            if self.runtime.queue[i].bet_lamports == bet_lamports {
                return Some(i);
            }
            i = i + 1;
        }
        None
    }

    /// The session of `wallet`, or an empty one.
    fn session_copy(&self, wallet: &str) -> (r: WalletSession)
        ensures
            r@ == session_of(self@.sessions, wallet@),
    {
        match self.runtime.wallet_sessions.get(wallet) {
            Some(s) => s.duplicate(),
            None => WalletSession { ticket_id: None, current_match_id: None, current_room_pubkey: None },
        }
    }

    /// Puts `wallet` in match `match_id`, without a ticket.
    fn enter_match(&mut self, wallet: String, match_id: &String)
        ensures
            final(self)@ == (RelayView {
                sessions: enter_match(old(self)@.sessions, wallet@, match_id@),
                ..old(self)@
            }),
            final(self).config == old(self).config,
    {
        let mut session = self.session_copy(wallet.as_str());
        session.ticket_id = None;
        session.current_match_id = Some(match_id.clone());
        self.runtime.wallet_sessions.insert(wallet, session);
    }

    /// `queue_join` with its identifiers and times given.
    pub fn queue_join_with(
        &mut self,
        client_id: String,
        wallet: String,
        bet_lamports: u64,
        ticket_id: String,
        match_id: String,
        queued_at: Timestamp,
        created_at: Timestamp,
    ) -> (r: Result<QueueJoinOutcome, String>)
        ensures
            (final(self)@, result_view(r)) == queue_join_model(
                old(self)@,
                client_id@,
                wallet@,
                bet_lamports,
                ticket_id@,
                match_id@,
                queued_at,
                created_at,
            ),
            final(self).config == old(self).config,
    {
        self.bind_wallet(client_id.as_str(), wallet.as_str());
        if self.is_wallet_queued(wallet.as_str()) {
            return Err(String::from_str("wallet_already_queued"));
        }
        if self.is_wallet_in_match(wallet.as_str()) {
            return Err(String::from_str("wallet_already_in_match"));
        }
        let joined = ServerMessage::QueueJoined {
            ticket_id: ticket_id.clone(),
            bet_lamports,
            queued_at,
        };
        let ghost v1 = self@;
        match self.first_waiting_at_bet(bet_lamports) {
            Some(i) => {
                proof {
                    let c = first_index_at_bet(v1.queue, bet_lamports);
                    assert(first_at_bet(v1.queue, bet_lamports, c));
                    if c < i {
                        assert(v1.queue[c].bet_lamports != bet_lamports);
                    }
                    if i < c {
                        assert(v1.queue[i as int].bet_lamports != bet_lamports);
                    }
                    assert(c == i);
                }
                let creator = self.runtime.queue.remove(i);
                proof {
                    assert(self@.queue =~= v1.queue.remove(i as int));
                }
                let runtime = MatchRuntime {
                    match_id: match_id.clone(),
                    bet_lamports,
                    creator_wallet: creator.wallet.clone(),
                    creator_client: creator.client_id,
                    joiner_wallet: wallet.clone(),
                    joiner_client: client_id,
                    room_pubkey: None,
                    state: MatchLifecycle::AwaitingRoomCreation,
                    created_at,
                };
                self.runtime.matches.insert(match_id.clone(), runtime.duplicate());
                self.enter_match(creator.wallet, &match_id);
                self.enter_match(wallet, &match_id);
                Ok(
                    QueueJoinOutcome {
                        joined,
                        status: ServerMessage::QueueStatus { ahead_count: 0, same_bet_count: 0 },
                        matched: Some(runtime),
                    },
                )
            },
            None => {
                let entry = QueueEntry {
                    ticket_id: ticket_id.clone(),
                    wallet: wallet.clone(),
                    client_id,
                    bet_lamports,
                    queued_at,
                };
                self.runtime.queue.push(entry);
                proof {
                    assert(self@.queue =~= v1.queue.push(
                        QueueEntryView {
                            ticket_id: ticket_id@,
                            wallet: wallet@,
                            client_id: client_id@,
                            bet_lamports,
                            queued_at,
                        },
                    ));
                }
                let mut session = self.session_copy(wallet.as_str());
                session.ticket_id = Some(ticket_id);
                self.runtime.wallet_sessions.insert(wallet, session);
                Ok(
                    QueueJoinOutcome {
                        joined,
                        status: ServerMessage::QueueStatus { ahead_count: 0, same_bet_count: 1 },
                        matched: None,
                    },
                )
            },
        }
    }
    /// Joins the queue with a fresh ticket and match identifier, stamped with the current time.
    pub fn queue_join(&mut self, client_id: String, wallet: String, bet_lamports: u64) -> (r: Result<QueueJoinOutcome, String>)
        ensures
            exists|ticket_id: Seq<char>, match_id: Seq<char>, queued_at: Timestamp, created_at: Timestamp|
                {
                    &&& ticket_id.len() == 36
                    &&& match_id.len() == 36
                    &&& (final(self)@, result_view(r)) == queue_join_model(
                        old(self)@,
                        client_id@,
                        wallet@,
                        bet_lamports,
                        ticket_id,
                        match_id,
                        queued_at,
                        created_at,
                    )
                },
            final(self).config == old(self).config,
    {
        let queued_at = utc_now();
        let ticket_id = new_uuid();
        let match_id = new_uuid();
        let created_at = utc_now();
        let ghost t = ticket_id@;
        let ghost m = match_id@;
        let r = self.queue_join_with(
            client_id,
            wallet,
            bet_lamports,
            ticket_id,
            match_id,
            queued_at,
            created_at,
        );
        assert(t.len() == 36 && m.len() == 36);
        r
    }

    /// Leaves the queue; tells whether the ticket was queued.
    pub fn queue_leave(&mut self, ticket_id: &str) -> (r: bool)
        ensures
            (final(self)@, r) == queue_leave_model(old(self)@, ticket_id@),
            final(self).config == old(self).config,
    {
        let ghost v = self@;
        let n = self.runtime.queue.len();
        let mut i: usize = 0;
        while i < n
            invariant
                n == self@.queue.len(),
                self@ == v,
                v == old(self)@,
                self.config == old(self).config,
                i <= n,
                forall|j: int| 0 <= j < i ==> #[trigger] v.queue[j].ticket_id != ticket_id@,
            decreases n - i,
        {
            if str_eq(self.runtime.queue[i].ticket_id.as_str(), ticket_id) {
                proof {
                    assert(first_with_ticket(v.queue, ticket_id@, i as int));
                    let c = choose|c: int| first_with_ticket(v.queue, ticket_id@, c);
                    if c < i {
                        assert(v.queue[c].ticket_id != ticket_id@);
                    }
                    if i < c {
                        assert(v.queue[i as int].ticket_id != ticket_id@);
                    }
                    assert(c == i);
                    assert(v.queue[i as int].ticket_id == ticket_id@);
                    assert(ticket_queued(v.queue, ticket_id@));
                }
                let removed = self.runtime.queue.remove(i);
                proof {
                    assert(self@.queue =~= v.queue.remove(i as int));
                }
                match self.runtime.wallet_sessions.find(removed.wallet.as_str()) {
                    Some(k) => {
                        let mut session = self.runtime.wallet_sessions.value_at(k).duplicate();
                        session.ticket_id = None;
                        self.runtime.wallet_sessions.set_at(k, session);
                    },
                    None => {},
                }
                proof {
                    let w = v.queue[i as int].wallet;
                    assert(removed.wallet@ == w);
                    assert(self@.queue == queue_leave_model(v, ticket_id@).0.queue);
                    assert(self@.sessions == queue_leave_model(v, ticket_id@).0.sessions);
                }
                return true;
            }
            i = i + 1;
        }
        false
    }

    /// Expires a match that is still awaiting its room; returns it, expired.
    pub fn expire_match(&mut self, match_id: &str) -> (r: Option<MatchRuntime>)
        ensures
            (final(self)@, match r {
                Some(m) => Some(m@),
                None => None,
            }) == expire_match_model(old(self)@, match_id@),
            final(self).config == old(self).config,
    {
        match self.runtime.matches.find(match_id) {
            Some(i) => {
                let current = self.runtime.matches.value_at(i);
                if current.state != MatchLifecycle::AwaitingRoomCreation {
                    return None;
                }
                let mut expired = current.duplicate();
                expired.state = MatchLifecycle::Expired;
                let out = expired.duplicate();
                self.runtime.matches.set_at(i, expired);
                Some(out)
            },
            None => None,
        }
    }

    /// A copy of the tracked room, or a fresh one.
    fn room_copy_or_fresh(&self, room_pubkey: &String, match_id: Option<String>, now: Timestamp) -> (r: RoomRuntime)
        ensures
            r@ == room_or_fresh(self@.rooms, room_pubkey@, match_id.deep_view(), now),
    {
        match self.runtime.rooms.get(room_pubkey.as_str()) {
            Some(room) => room.duplicate(),
            None => RoomRuntime {
                room_pubkey: room_pubkey.clone(),
                match_id,
                wallets: StrSet::new(),
                subscribers: StrSet::new(),
                phase: RoomPhase::WaitingForPlayer,
                turn_wallet: None,
                updated_at: now,
                last_signature: None,
                last_account_hash: None,
            },
        }
    }

    /// Points `wallet`'s session at room `room_pubkey`.
    fn enter_room(&mut self, wallet: String, room_pubkey: &String)
        ensures
            final(self)@ == (RelayView {
                sessions: enter_room(old(self)@.sessions, wallet@, room_pubkey@),
                ..old(self)@
            }),
            final(self).config == old(self).config,
    {
        let mut session = self.session_copy(wallet.as_str());
        session.current_room_pubkey = Some(room_pubkey.clone());
        self.runtime.wallet_sessions.insert(wallet, session);
    }

    /// `register_room_creation` at time `now`.
    pub fn register_room_creation_at(
        &mut self,
        match_id: &str,
        room_pubkey: String,
        signature: String,
        now: Timestamp,
    ) -> (r: Result<MatchRuntime, String>)
        ensures
            (final(self)@, result_view(r)) == register_room_model(
                old(self)@,
                match_id@,
                room_pubkey@,
                signature@,
                now,
            ),
            final(self).config == old(self).config,
    {
        let i = match self.runtime.matches.find(match_id) {
            Some(i) => i,
            None => return Err(String::from_str("match_not_found")),
        };
        let current = self.runtime.matches.value_at(i);
        if current.state == MatchLifecycle::Expired {
            return Err(String::from_str("match_expired"));
        }
        let mut ready = current.duplicate();
        ready.room_pubkey = Some(room_pubkey.clone());
        ready.state = MatchLifecycle::RoomReady;
        let out = ready.duplicate();
        let creator_wallet = ready.creator_wallet.clone();
        let joiner_wallet = ready.joiner_wallet.clone();
        self.runtime.matches.set_at(i, ready);
        let mut room = self.room_copy_or_fresh(&room_pubkey, Some(String::from_str(match_id)), now);
        room.match_id = Some(String::from_str(match_id));
        room.wallets.insert(creator_wallet.clone());
        room.wallets.insert(joiner_wallet.clone());
        room.phase = RoomPhase::WaitingForPlayer;
        room.updated_at = now;
        room.last_signature = Some(signature);
        self.runtime.rooms.insert(room_pubkey.clone(), room);
        self.enter_room(creator_wallet, &room_pubkey);
        self.enter_room(joiner_wallet, &room_pubkey);
        Ok(out)
    }

    /// Registers the on-chain room a match's creator published.
    pub fn register_room_creation(&mut self, match_id: &str, room_pubkey: String, signature: String) -> (r: Result<MatchRuntime, String>)
        ensures
            exists|now: Timestamp|
                (final(self)@, result_view(r)) == register_room_model(
                    old(self)@,
                    match_id@,
                    room_pubkey@,
                    signature@,
                    now,
                ),
            final(self).config == old(self).config,
    {
        let now = utc_now();
        self.register_room_creation_at(match_id, room_pubkey, signature, now)
    }

    /// `subscribe_room` at time `now`.
    pub fn subscribe_room_at(
        &mut self,
        client_id: String,
        room_pubkey: String,
        wallet: Option<String>,
        now: Timestamp,
    ) -> (r: RoomRuntime)
        ensures
            (final(self)@, r@) == subscribe_model(
                old(self)@,
                client_id@,
                room_pubkey@,
                wallet.deep_view(),
                now,
            ),
            final(self).config == old(self).config,
    {
        let mut room = self.room_copy_or_fresh(&room_pubkey, None, now);
        room.subscribers.insert(client_id);
        match wallet {
            Some(w) => {
                room.wallets.insert(w);
            },
            None => {},
        }
        let out = room.duplicate();
        self.runtime.rooms.insert(room_pubkey, room);
        out
    }

    /// Subscribes a client (and the wallet, if given) to a room; returns the room.
    pub fn subscribe_room(&mut self, client_id: String, room_pubkey: String, wallet: Option<String>) -> (r: RoomRuntime)
        ensures
            exists|now: Timestamp|
                (final(self)@, r@) == subscribe_model(
                    old(self)@,
                    client_id@,
                    room_pubkey@,
                    wallet.deep_view(),
                    now,
                ),
            final(self).config == old(self).config,
    {
        let now = utc_now();
        self.subscribe_room_at(client_id, room_pubkey, wallet, now)
    }

    /// The state message of a tracked room.
    pub fn current_room_snapshot(&self, room_pubkey: &str) -> (r: Option<ServerMessage>)
        ensures
            match r {
                Some(m) => self@.rooms.contains_key(room_pubkey@) && m@ == room_state_message(
                    self@.rooms[room_pubkey@],
                ),
                None => !self@.rooms.contains_key(room_pubkey@),
            },
    {
        match self.runtime.rooms.get(room_pubkey) {
            Some(room) => Some(room.state_message()),
            None => None,
        }
    }

    /// The clients a room's messages go to, each once, in increasing order of strings.
    pub fn recipients(&self, room_pubkey: &str) -> (r: Vec<String>)
        ensures
            r@.map_values(|c: String| c@).no_duplicates(),
            strictly_sorted(r@.map_values(|c: String| c@)),
            r@.map_values(|c: String| c@).to_set() == room_recipients(self@, room_pubkey@),
    {
        let mut out = StrSet::new();
        match self.runtime.rooms.get(room_pubkey) {
            Some(room) => {
                let ghost rv = room@;
                let ghost b = self@.bindings;
                let n = room.wallets.len();
                let mut i: usize = 0;
                while i < n
                    invariant
                        n == room.wallets.member_seq().len(),
                        i <= n,
                        rv == room@,
                        b == self@.bindings,
                        forall|w: Seq<char>| room.wallets@.contains(w) <==> room.wallets.member_seq().contains(w),
                        forall|c: Seq<char>|
                            out@.contains(c) <==> exists|j: int|
                                0 <= j < i && #[trigger] b.contains_key(room.wallets.member_seq()[j])
                                    && b[room.wallets.member_seq()[j]] == c,
                    decreases n - i,
                {
                    let w = room.wallets.at(i);
                    match self.runtime.wallet_bindings.get(w.as_str()) {
                        Some(c) => {
                            out.insert(c.clone());
                        },
                        None => {},
                    }
                    proof {
                        assert forall|c: Seq<char>|
                            out@.contains(c) <==> exists|j: int|
                                0 <= j < i + 1 && #[trigger] b.contains_key(room.wallets.member_seq()[j])
                                    && b[room.wallets.member_seq()[j]] == c by {
                            if out@.contains(c) && !(exists|j: int|
                                0 <= j < i && #[trigger] b.contains_key(room.wallets.member_seq()[j])
                                    && b[room.wallets.member_seq()[j]] == c) {
                                assert(b.contains_key(room.wallets.member_seq()[i as int]));
                            }
                        }
                    }
                    i = i + 1;
                }
                let m = room.subscribers.len();
                let mut k: usize = 0;
                while k < m
                    invariant
                        m == room.subscribers.member_seq().len(),
                        k <= m,
                        rv == room@,
                        b == self@.bindings,
                        forall|w: Seq<char>| room.wallets@.contains(w) <==> room.wallets.member_seq().contains(w),
                        forall|s: Seq<char>| room.subscribers@.contains(s) <==> room.subscribers.member_seq().contains(s),
                        forall|c: Seq<char>|
                            out@.contains(c) <==> (exists|j: int|
                                0 <= j < n && #[trigger] b.contains_key(room.wallets.member_seq()[j])
                                    && b[room.wallets.member_seq()[j]] == c) || exists|j: int|
                                0 <= j < k && room.subscribers.member_seq()[j] == c,
                    decreases m - k,
                {
                    out.insert(room.subscribers.at(k).clone());
                    k = k + 1;
                }
                proof {
                    assert forall|c: Seq<char>| out@.contains(c) <==> room_recipients(self@, room_pubkey@).contains(c) by {
                        if out@.contains(c) {
                            if exists|j: int|
                                0 <= j < n && #[trigger] b.contains_key(room.wallets.member_seq()[j])
                                    && b[room.wallets.member_seq()[j]] == c {
                                let j = choose|j: int|
                                    0 <= j < n && #[trigger] b.contains_key(room.wallets.member_seq()[j])
                                        && b[room.wallets.member_seq()[j]] == c;
                                assert(room.wallets.member_seq().contains(room.wallets.member_seq()[j]));
                                assert(rv.wallets.contains(room.wallets.member_seq()[j]));
                            } else {
                                let j = choose|j: int| 0 <= j < m && room.subscribers.member_seq()[j] == c;
                                assert(room.subscribers.member_seq().contains(c));
                            }
                        }
                        if room_recipients(self@, room_pubkey@).contains(c) {
                            if exists|w: Seq<char>|
                                #[trigger] rv.wallets.contains(w) && b.contains_key(w) && b[w] == c {
                                let w = choose|w: Seq<char>|
                                    #[trigger] rv.wallets.contains(w) && b.contains_key(w) && b[w] == c;
                                assert(room.wallets.member_seq().contains(w));
                                let j = choose|j: int| 0 <= j < n && room.wallets.member_seq()[j] == w;
                                assert(b.contains_key(room.wallets.member_seq()[j]));
                            } else {
                                assert(room.subscribers.member_seq().contains(c));
                            }
                        }
                    }
                    assert(out@ =~= room_recipients(self@, room_pubkey@));
                }
            },
            None => {
                assert(out@ =~= room_recipients(self@, room_pubkey@));
            },
        }
        out.to_sorted_vec()
    }

    /// Broadcasts a message to a room's recipients.
    pub fn broadcast_to_room(&self, room_pubkey: &str, message: ServerMessage) -> (r: Vec<Delivery>)
        ensures
            room_deliveries(r@, self@, room_pubkey@, seq![message@]),
    {
        let recipients = self.recipients(room_pubkey);
        let mut out: Vec<Delivery> = Vec::new();
        deliver(&mut out, &recipients, &message);
        proof {
            let rs = recipients@.map_values(|c: String| c@);
            lemma_deliveries_one(rs, message@);
            assert(deliveries_view(out@) =~= deliveries_to(rs, seq![message@]));
        }
        out
    }

    /// The readiness report, given whether the RPC node answered.
    pub fn readiness(&self, rpc_reachable: bool) -> (r: ReadyzResponse)
        ensures
            r.program_id_valid == base58_pubkey(self.config.program_id@) is Some,
            r.rpc_reachable == rpc_reachable,
            r.status@ == (if r.program_id_valid && rpc_reachable {
                "ok"@
            } else {
                "degraded"@
            }),
            r.observed_rooms == self@.rooms.dom().len(),
            r.queued_players == self@.queue.len(),
            r.active_matches == live_matches(self@.matches).len(),
    {
        let program_id_valid = self.config.validate_program_id().is_ok();
        let observed_rooms = self.runtime.rooms.len();
        let queued_players = self.runtime.queue.len();
        let ghost m = self@.matches;
        let n = self.runtime.matches.len();
        let mut count: usize = 0;
        let ghost mut counted: Set<Seq<char>> = Set::empty();
        let mut i: usize = 0;
        while i < n
            invariant
                n == self.runtime.matches.key_seq().len(),
                m == self@.matches,
                self.runtime.matches.key_seq().no_duplicates(),
                forall|k: Seq<char>| m.contains_key(k) <==> self.runtime.matches.key_seq().contains(k),
                i <= n,
                counted.finite(),
                count == counted.len(),
                count <= i,
                forall|k: Seq<char>|
                    counted.contains(k) <==> exists|j: int|
                        0 <= j < i && #[trigger] self.runtime.matches.key_seq()[j] == k
                            && m[k].state != MatchLifecycle::Expired,
            decreases n - i,
        {
            let current = self.runtime.matches.value_at(i);
            let ghost k = self.runtime.matches.key_seq()[i as int];
            if current.state != MatchLifecycle::Expired {
                proof {
                    assert(!counted.contains(k));
                    counted = counted.insert(k);
                }
                count = count + 1;
            }
            proof {
                assert forall|k2: Seq<char>|
                    counted.contains(k2) <==> exists|j: int|
                        0 <= j < i + 1 && #[trigger] self.runtime.matches.key_seq()[j] == k2
                            && m[k2].state != MatchLifecycle::Expired by {
                    if k2 == k && m[k].state != MatchLifecycle::Expired {
                        assert(self.runtime.matches.key_seq()[i as int] == k2);
                    }
                }
            }
            i = i + 1;
        }
        proof {
            assert forall|k: Seq<char>| counted.contains(k) <==> live_matches(m).contains(k) by {
                if live_matches(m).contains(k) {
                    assert(self.runtime.matches.key_seq().contains(k));
                    let j = choose|j: int| 0 <= j < n && self.runtime.matches.key_seq()[j] == k;
                }
            }
            assert(counted =~= live_matches(m));
        }
        let status = if program_id_valid && rpc_reachable {
            "ok"
        } else {
            "degraded"
        };
        ReadyzResponse {
            status,
            program_id_valid,
            rpc_reachable,
            observed_rooms,
            queued_players,
            active_matches: count,
        }
    }

    /// Drops a disconnected client from every room's subscribers.
    pub fn unregister_client(&mut self, client_id: &str)
        ensures
            final(self)@ == (RelayView {
                rooms: without_subscriber(old(self)@.rooms, client_id@),
                ..old(self)@
            }),
            final(self).config == old(self).config,
    {
        let ghost v = self@;
        let ghost ks = self.runtime.rooms.key_seq();
        let n = self.runtime.rooms.len();
        let mut i: usize = 0;
        while i < n
            invariant
                n == ks.len(),
                ks == self.runtime.rooms.key_seq(),
                ks.no_duplicates(),
                forall|k: Seq<char>| v.rooms.contains_key(k) <==> ks.contains(k),
                i <= n,
                v == old(self)@,
                self.config == old(self).config,
                self@.rooms.dom() == v.rooms.dom(),
                self@ == (RelayView { rooms: self@.rooms, ..v }),
                forall|j: int|
                    0 <= j < n ==> #[trigger] self@.rooms[ks[j]] == (if j < i {
                        RoomView { subscribers: v.rooms[ks[j]].subscribers.remove(client_id@), ..v.rooms[ks[j]] }
                    } else {
                        v.rooms[ks[j]]
                    }),
            decreases n - i,
        {
            let mut room = self.runtime.rooms.value_at(i).duplicate();
            room.subscribers.remove(client_id);
            let ghost before = self@.rooms;
            self.runtime.rooms.set_at(i, room);
            proof {
                assert(self@.rooms.dom() =~= before.dom());
                assert forall|j: int| 0 <= j < n implies #[trigger] self@.rooms[ks[j]] == (if j < i + 1 {
                    RoomView { subscribers: v.rooms[ks[j]].subscribers.remove(client_id@), ..v.rooms[ks[j]] }
                } else {
                    v.rooms[ks[j]]
                }) by {
                    if j != i {
                        assert(ks[j] != ks[i as int]);
                    }
                }
            }
            i = i + 1;
        }
        proof {
            assert forall|k: Seq<char>| #[trigger] self@.rooms.contains_key(k) implies self@.rooms[k]
                == without_subscriber(v.rooms, client_id@)[k] by {
                assert(ks.contains(k));
                let j = choose|j: int| 0 <= j < n && ks[j] == k;
                assert(self@.rooms[ks[j]] == self@.rooms[k]);
            }
            assert(self@.rooms =~= without_subscriber(v.rooms, client_id@));
        }
    }

    /// `handle_room_account_update` at time `now`.
    pub fn handle_room_account_update_at(
        &mut self,
        room_pubkey: &str,
        account_hash: String,
        slot: u64,
        now: Timestamp,
    ) -> (r: Vec<Delivery>)
        ensures
            final(self)@ == account_update_model(old(self)@, room_pubkey@, account_hash@, now).0,
            final(self).config == old(self).config,
            !old(self)@.rooms.contains_key(room_pubkey@) ==> r@.len() == 0,
            old(self)@.rooms.contains_key(room_pubkey@) ==> room_deliveries(
                r@,
                final(self)@,
                room_pubkey@,
                update_messages(
                    MessageView::RoomEvent {
                        room_pubkey: room_pubkey@,
                        event_type: "account_change"@,
                        payload: PayloadView::AccountChange { slot, account_hash: account_hash@ },
                    },
                    account_update_model(old(self)@, room_pubkey@, account_hash@, now).1,
                ),
            ),
    {
        let i = match self.runtime.rooms.find(room_pubkey) {
            Some(i) => i,
            None => return Vec::new(),
        };
        let current = self.runtime.rooms.value_at(i);
        let repeated = match &current.last_account_hash {
            Some(h) => *h == account_hash,
            None => false,
        };
        let snapshot = if repeated {
            None
        } else {
            let mut room = current.duplicate();
            room.last_account_hash = Some(account_hash.clone());
            room.updated_at = now;
            room.phase = promote_phase_from_account(&room.phase);
            let message = room.state_message();
            self.runtime.rooms.set_at(i, room);
            Some(message)
        };
        let event = ServerMessage::RoomEvent {
            room_pubkey: String::from_str(room_pubkey),
            event_type: String::from_str("account_change"),
            payload: EventPayload::AccountChange { slot, account_hash },
        };
        self.deliver_update(room_pubkey, event, snapshot)
    }

    /// Sends an update to a room: the event, then the new state if there is one.
    fn deliver_update(&self, room_pubkey: &str, event: ServerMessage, snapshot: Option<ServerMessage>) -> (r: Vec<Delivery>)
        ensures
            room_deliveries(
                r@,
                self@,
                room_pubkey@,
                update_messages(
                    event@,
                    match snapshot {
                        Some(s) => Some(s@),
                        None => None,
                    },
                ),
            ),
    {
        let recipients = self.recipients(room_pubkey);
        let mut out: Vec<Delivery> = Vec::new();
        deliver(&mut out, &recipients, &event);
        let ghost rs = recipients@.map_values(|c: String| c@);
        match snapshot {
            Some(s) => {
                deliver(&mut out, &recipients, &s);
                proof {
                    lemma_deliveries_two(rs, event@, s@);
                    assert(deliveries_view(out@) =~= deliveries_to(rs, seq![event@, s@]));
                }
            },
            None => {
                proof {
                    lemma_deliveries_one(rs, event@);
                    assert(deliveries_view(out@) =~= deliveries_to(rs, seq![event@]));
                }
            },
        }
        out
    }

    /// An account change of an observed room, stamped with the current time.
    pub fn handle_room_account_update(&mut self, room_pubkey: &str, account_hash: String, slot: u64) -> (r: Vec<Delivery>)
        ensures
            exists|now: Timestamp|
                {
                    &&& final(self)@ == account_update_model(old(self)@, room_pubkey@, account_hash@, now).0
                    &&& !old(self)@.rooms.contains_key(room_pubkey@) ==> r@.len() == 0
                    &&& old(self)@.rooms.contains_key(room_pubkey@) ==> room_deliveries(
                        r@,
                        final(self)@,
                        room_pubkey@,
                        update_messages(
                            MessageView::RoomEvent {
                                room_pubkey: room_pubkey@,
                                event_type: "account_change"@,
                                payload: PayloadView::AccountChange { slot, account_hash: account_hash@ },
                            },
                            account_update_model(old(self)@, room_pubkey@, account_hash@, now).1,
                        ),
                    )
                },
            final(self).config == old(self).config,
    {
        let now = utc_now();
        self.handle_room_account_update_at(room_pubkey, account_hash, slot, now)
    }

    /// `handle_room_log_update` at time `now`.
    pub fn handle_room_log_update_at(
        &mut self,
        room_pubkey: &str,
        signature: String,
        logs: Vec<String>,
        slot: u64,
        now: Timestamp,
    ) -> (r: Vec<Delivery>)
        ensures
            final(self)@ == log_update_model(old(self)@, room_pubkey@, signature@, logs.deep_view(), now).0,
            final(self).config == old(self).config,
            !old(self)@.rooms.contains_key(room_pubkey@) ==> r@.len() == 0,
            old(self)@.rooms.contains_key(room_pubkey@) ==> room_deliveries(
                r@,
                final(self)@,
                room_pubkey@,
                update_messages(
                    MessageView::RoomEvent {
                        room_pubkey: room_pubkey@,
                        event_type: "program_logs"@,
                        payload: PayloadView::ProgramLogs { slot, signature: signature@, logs: logs.deep_view() },
                    },
                    log_update_model(old(self)@, room_pubkey@, signature@, logs.deep_view(), now).1,
                ),
            ),
    {
        let i = match self.runtime.rooms.find(room_pubkey) {
            Some(i) => i,
            None => return Vec::new(),
        };
        proof {
            assert(logs.deep_view() =~= logs@.map_values(|l: String| l@));
        }
        let mut room = self.runtime.rooms.value_at(i).duplicate();
        room.updated_at = now;
        room.last_signature = Some(signature.clone());
        match infer_phase_from_logs(&room.phase, logs.as_slice()) {
            Some(p) => {
                room.phase = p;
            },
            None => {},
        }
        let message = room.state_message();
        self.runtime.rooms.set_at(i, room);
        let event = ServerMessage::RoomEvent {
            room_pubkey: String::from_str(room_pubkey),
            event_type: String::from_str("program_logs"),
            payload: EventPayload::ProgramLogs { slot, signature, logs },
        };
        self.deliver_update(room_pubkey, event, Some(message))
    }

    /// A transaction that touched an observed room, stamped with the current time.
    pub fn handle_room_log_update(&mut self, room_pubkey: &str, signature: String, logs: Vec<String>, slot: u64) -> (r: Vec<Delivery>)
        ensures
            exists|now: Timestamp|
                {
                    &&& final(self)@ == log_update_model(old(self)@, room_pubkey@, signature@, logs.deep_view(), now).0
                    &&& !old(self)@.rooms.contains_key(room_pubkey@) ==> r@.len() == 0
                    &&& old(self)@.rooms.contains_key(room_pubkey@) ==> room_deliveries(
                        r@,
                        final(self)@,
                        room_pubkey@,
                        update_messages(
                            MessageView::RoomEvent {
                                room_pubkey: room_pubkey@,
                                event_type: "program_logs"@,
                                payload: PayloadView::ProgramLogs { slot, signature: signature@, logs: logs.deep_view() },
                            },
                            log_update_model(old(self)@, room_pubkey@, signature@, logs.deep_view(), now).1,
                        ),
                    )
                },
            final(self).config == old(self).config,
    {
        let now = utc_now();
        self.handle_room_log_update_at(room_pubkey, signature, logs, slot, now)
    }

    /// The number of queued entries before `upto` at `bet`.
    fn count_waiting_at_bet(&self, bet_lamports: u64, upto: usize) -> (r: usize)
        requires
            upto <= self@.queue.len(),
        ensures
            r == count_at_bet(self@.queue.take(upto as int), bet_lamports),
    {
        let mut count: usize = 0;
        let mut i: usize = 0;
        while i < upto
            invariant
                upto <= self@.queue.len(),
                i <= upto,
                count == count_at_bet(self@.queue.take(i as int), bet_lamports),
                count <= i,
            decreases upto - i,
        {
            proof {
                assert(self@.queue.take(i + 1).drop_last() =~= self@.queue.take(i as int));
            }
            if self.runtime.queue[i].bet_lamports == bet_lamports {
                count = count + 1;
            }
            i = i + 1;
        }
        count
    }

    /// The messages about `wallet`'s ticket; see `ticket_messages`.
    fn ticket_report(&self, session: &WalletSession) -> (r: Vec<ServerMessage>)
        ensures
            messages_view(r@) == ticket_messages(self@.queue, session@),
    {
        let mut out: Vec<ServerMessage> = Vec::new();
        let t = match &session.ticket_id {
            Some(t) => t,
            None => {
                assert(messages_view(out@) =~= Seq::<MessageView>::empty());
                return out;
            },
        };
        let ghost q = self@.queue;
        let n = self.runtime.queue.len();
        let mut i: usize = 0;
        while i < n
            invariant
                n == q.len(),
                q == self@.queue,
                i <= n,
                out@.len() == 0,
                session@.ticket_id == Some(t@),
                forall|j: int| 0 <= j < i ==> #[trigger] q[j].ticket_id != t@,
            decreases n - i,
        {
            if str_eq(self.runtime.queue[i].ticket_id.as_str(), t.as_str()) {
                proof {
                    assert(first_with_ticket(q, t@, i as int));
                    let c = choose|c: int| first_with_ticket(q, t@, c);
                    if c < i {
                        assert(q[c].ticket_id != t@);
                    }
                    if i < c {
                        assert(q[i as int].ticket_id != t@);
                    }
                    assert(c == i);
                }
                let e = &self.runtime.queue[i];
                let ahead = self.count_waiting_at_bet(e.bet_lamports, i);
                let same = self.count_waiting_at_bet(e.bet_lamports, n);
                proof {
                    assert(q.take(n as int) =~= q);
                }
                out.push(
                    ServerMessage::QueueJoined {
                        ticket_id: e.ticket_id.clone(),
                        bet_lamports: e.bet_lamports,
                        queued_at: e.queued_at,
                    },
                );
                out.push(ServerMessage::QueueStatus { ahead_count: ahead, same_bet_count: same });
                assert(messages_view(out@) =~= ticket_messages(q, session@));
                return out;
            }
            i = i + 1;
        }
        assert(!ticket_queued(q, t@));
        assert(messages_view(out@) =~= Seq::<MessageView>::empty());
        out
    }

    /// The messages about a match; see `match_messages`.
    fn match_report(&self, wallet: &str, preferred: &Option<String>) -> (r: Vec<ServerMessage>)
        ensures
            messages_view(r@) == match_messages(self@.matches, wallet@, preferred.deep_view()),
    {
        let mut out: Vec<ServerMessage> = Vec::new();
        let id = match preferred {
            Some(id) => id,
            None => {
                assert(messages_view(out@) =~= Seq::<MessageView>::empty());
                return out;
            },
        };
        match self.runtime.matches.get(id.as_str()) {
            Some(m) => {
                if str_eq(m.creator_wallet.as_str(), wallet) {
                    out.push(
                        ServerMessage::MatchFound {
                            match_id: m.match_id.clone(),
                            role: MatchRole::Creator,
                            opponent_wallet: m.joiner_wallet.clone(),
                        },
                    );
                } else {
                    out.push(
                        ServerMessage::MatchFound {
                            match_id: m.match_id.clone(),
                            role: MatchRole::Joiner,
                            opponent_wallet: m.creator_wallet.clone(),
                        },
                    );
                }
                match &m.room_pubkey {
                    Some(r) => {
                        out.push(
                            ServerMessage::MatchRoomReady {
                                match_id: m.match_id.clone(),
                                room_pubkey: r.clone(),
                            },
                        );
                    },
                    None => {},
                }
                assert(messages_view(out@) =~= match_messages(self@.matches, wallet@, preferred.deep_view()));
            },
            None => {
                assert(messages_view(out@) =~= Seq::<MessageView>::empty());
            },
        }
        out
    }

    /// `resume_session` at time `now`.
    pub fn resume_session_at(
        &mut self,
        client_id: &str,
        wallet: &str,
        room_pubkey: Option<String>,
        match_id: Option<String>,
        now: Timestamp,
    ) -> (r: SessionResume)
        ensures
            (final(self)@, messages_view(r.messages@), r.observe.deep_view()) == resume_model(
                old(self)@,
                client_id@,
                wallet@,
                room_pubkey.deep_view(),
                match_id.deep_view(),
                now,
            ),
            final(self).config == old(self).config,
    {
        self.bind_wallet(client_id, wallet);
        let session = self.session_copy(wallet);
        let mut messages = self.ticket_report(&session);
        let preferred_match = match match_id {
            Some(id) => Some(id),
            None => copy_opt(&session.current_match_id),
        };
        let mut about_match = self.match_report(wallet, &preferred_match);
        let ghost before_append = messages@;
        let ghost appended = about_match@;
        messages.append(&mut about_match);
        proof {
            assert(messages@ == before_append + appended);
            assert(messages_view(messages@) =~= messages_view(before_append) + messages_view(
                appended,
            ));
        }
        let preferred_room = match room_pubkey {
            Some(r) => Some(r),
            None => copy_opt(&session.current_room_pubkey),
        };
        let observe = match preferred_room {
            Some(r) => {
                let room = self.subscribe_room_at(
                    String::from_str(client_id),
                    r.clone(),
                    Some(String::from_str(wallet)),
                    now,
                );
                messages.push(room.state_message());
                if self.spawn_observer_if_needed(r.clone()) {
                    Some(r)
                } else {
                    None
                }
            },
            None => None,
        };
        SessionResume { messages, observe }
    }

    /// Resumes a wallet's session at the current time; see `resume_model`.
    pub fn resume_session(
        &mut self,
        client_id: &str,
        wallet: &str,
        room_pubkey: Option<String>,
        match_id: Option<String>,
    ) -> (r: SessionResume)
        ensures
            exists|now: Timestamp|
                (final(self)@, messages_view(r.messages@), r.observe.deep_view()) == resume_model(
                    old(self)@,
                    client_id@,
                    wallet@,
                    room_pubkey.deep_view(),
                    match_id.deep_view(),
                    now,
                ),
            final(self).config == old(self).config,
    {
        let now = utc_now();
        self.resume_session_at(client_id, wallet, room_pubkey, match_id, now)
    }

    /// Marks a room as observed; tells whether its observer must be started now.
    pub fn spawn_observer_if_needed(&mut self, room_pubkey: String) -> (r: bool)
        ensures
            final(self)@ == (RelayView {
                observers: old(self)@.observers.insert(room_pubkey@),
                ..old(self)@
            }),
            r == !old(self)@.observers.contains(room_pubkey@),
            final(self).config == old(self).config,
    {
        self.runtime.observers.insert(room_pubkey)
    }
}



/// The phase a room's transaction logs point to; see `inferred_phase`.
/// Keywords are matched without regard to the case of ASCII letters: logs that
/// differ from these only in that case point to the same phase.
pub fn infer_phase_from_logs(current: &RoomPhase, logs: &[String]) -> (r: Option<RoomPhase>)
    ensures
        r == inferred_phase(*current, logs@.map_values(|l: String| l@)),
        forall|other: Seq<Seq<char>>|
            lines_same_ignoring_ascii_case(other, logs@.map_values(|l: String| l@)) ==> #[trigger] inferred_phase(
                *current,
                other,
            ) == r,
        is_ascii_text(joined_lines(logs@.map_values(|l: String| l@))) ==> r == phase_from_text(
            *current,
            ascii_lowered(joined_lines(logs@.map_values(|l: String| l@))),
        ),
{
    let joined = join_lines(logs);
    let lowered = to_lowercase(joined.as_str());
    proof {
        let views = logs@.map_values(|l: String| l@);
        assert forall|other: Seq<Seq<char>>|
            lines_same_ignoring_ascii_case(other, views) implies #[trigger] inferred_phase(*current, other)
                == inferred_phase(*current, views) by {
            lemma_joined_lines_ignoring_case(other, views);
            assert(lowercase(joined_lines(other)) == lowered@);
        }
    }
    let text = chars_of(lowered.as_str());
    if contains_str(&text, "finished") || contains_str(&text, "winner") {
        return Some(RoomPhase::Finished);
    }
    if contains_str(&text, "round end") || contains_str(&text, "round_end") {
        return Some(RoomPhase::RoundEnd);
    }
    if contains_str(&text, "vrf") || contains_str(&text, "randomness") {
        return Some(RoomPhase::WaitingForVrf);
    }
    if contains_str(&text, "shoot") || contains_str(&text, "turn") || contains_str(&text, "reload")
        || contains_str(&text, "item") {
        return Some(RoomPhase::Playing);
    }
    if *current == RoomPhase::WaitingForPlayer {
        Some(RoomPhase::WaitingForVrf)
    } else {
        None
    }
}

/// The phase a room moves to on an account change; see `promoted_phase`.
pub fn promote_phase_from_account(current: &RoomPhase) -> (r: RoomPhase)
    ensures
        r == promoted_phase(*current),
{
    match current {
        RoomPhase::WaitingForPlayer => RoomPhase::WaitingForVrf,
        RoomPhase::WaitingForVrf => RoomPhase::Playing,
        phase => *phase,
    }
}

/// One message to each client.
pub proof fn lemma_deliveries_one(rs: Seq<Seq<char>>, m: MessageView)
    ensures
        deliveries_to(rs, seq![m]) == rs.map_values(|c: Seq<char>| DeliveryView { client_id: c, message: m }),
{
    assert(seq![m].drop_first() =~= Seq::<MessageView>::empty());
    assert(deliveries_to(rs, Seq::<MessageView>::empty()) == Seq::<DeliveryView>::empty());
    assert(deliveries_to(rs, seq![m]) =~= rs.map_values(|c: Seq<char>| DeliveryView { client_id: c, message: m }));
}

/// Two messages, each to each client.
pub proof fn lemma_deliveries_two(rs: Seq<Seq<char>>, m1: MessageView, m2: MessageView)
    ensures
        deliveries_to(rs, seq![m1, m2]) == rs.map_values(|c: Seq<char>| DeliveryView { client_id: c, message: m1 })
            + rs.map_values(|c: Seq<char>| DeliveryView { client_id: c, message: m2 }),
{
    assert(seq![m1, m2].drop_first() =~= seq![m2]);
    lemma_deliveries_one(rs, m2);
}

/// Appends `message` for each of `recipients`, in order.
pub fn deliver(out: &mut Vec<Delivery>, recipients: &Vec<String>, message: &ServerMessage)
    ensures
        deliveries_view(final(out)@) == deliveries_view(old(out)@) + recipients@.map_values(
            |c: String| c@,
        ).map_values(|c: Seq<char>| DeliveryView { client_id: c, message: message@ }),
{
    let ghost start = deliveries_view(out@);
    let n = recipients.len();
    let mut i: usize = 0;
    while i < n
        invariant
            n == recipients@.len(),
            i <= n,
            deliveries_view(out@) == start + recipients@.map_values(|c: String| c@).take(i as int).map_values(
                |c: Seq<char>| DeliveryView { client_id: c, message: message@ },
            ),
        decreases n - i,
    {
        let d = Delivery { client_id: recipients[i].clone(), message: message.duplicate() };
        let ghost before = deliveries_view(out@);
        out.push(d);
        proof {
            let rs = recipients@.map_values(|c: String| c@);
            assert(deliveries_view(out@) =~= before.push(DeliveryView { client_id: rs[i as int], message: message@ }));
            assert(rs.take(i + 1) =~= rs.take(i as int).push(rs[i as int]));
            assert(deliveries_view(out@) =~= start + rs.take(i + 1).map_values(
                |c: Seq<char>| DeliveryView { client_id: c, message: message@ },
            ));
        }
        i = i + 1;
    }
    proof {
        let rs = recipients@.map_values(|c: String| c@);
        assert(rs.take(n as int) =~= rs);
    }
}

impl RoomRuntime {
    /// The room's state message.
    pub fn state_message(&self) -> (m: ServerMessage)
        ensures
            m@ == room_state_message(self@),
    {
        ServerMessage::RoomState {
            room_pubkey: self.room_pubkey.clone(),
            phase: self.phase,
            turn_wallet: copy_opt(&self.turn_wallet),
            updated_at: self.updated_at,
            last_signature: copy_opt(&self.last_signature),
        }
    }
}

} // verus!
