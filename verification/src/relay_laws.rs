//! Properties the relay keeps across its operations.
use vstd::prelude::*;

use crate::model::{MatchRole, MessageView, RoomPhase, Timestamp};
use crate::model::ClientMessageView;
use crate::session::{handle_model, observe, timeout_model, ActionView};
use crate::state::{
    account_update_model, expire_match_model, first_at_bet, log_update_model, resume_model, subscribe_model, first_index_at_bet, promoted_phase, queue_join_model,
    queue_leave_model, register_room_model, room_deliveries, room_recipients, session_of,
    someone_at_bet, ticket_queued, wallet_in_match, wallet_queued, MatchLifecycle, MatchView,
    QueueEntryView, RelayView, phase_from_text,
};

verus! {

/// No two waiting entries share a bet or a wallet.
pub open spec fn queue_well_formed(q: Seq<QueueEntryView>) -> bool {
    forall|i: int, j: int|
        0 <= i < j < q.len() ==> #[trigger] q[i].bet_lamports != #[trigger] q[j].bet_lamports
            && q[i].wallet != q[j].wallet
}

proof fn lemma_remove_keeps_well_formed(q: Seq<QueueEntryView>, k: int)
    requires
        queue_well_formed(q),
        0 <= k < q.len(),
    ensures
        queue_well_formed(q.remove(k)),
{
    let r = q.remove(k);
    assert forall|i: int, j: int| 0 <= i < j < r.len() implies #[trigger] r[i].bet_lamports
        != #[trigger] r[j].bet_lamports && r[i].wallet != r[j].wallet by {
        let i2 = if i < k { i } else { i + 1 };
        let j2 = if j < k { j } else { j + 1 };
        assert(r[i] == q[i2]);
        assert(r[j] == q[j2]);
        assert(q[i2].bet_lamports != q[j2].bet_lamports);
    }
}

/// Joining the queue keeps at most one waiting wallet per bet, and each
/// wallet waiting at most once.
pub proof fn lemma_join_keeps_queue_well_formed(
    v: RelayView,
    client_id: Seq<char>,
    wallet: Seq<char>,
    bet_lamports: u64,
    ticket_id: Seq<char>,
    match_id: Seq<char>,
    queued_at: Timestamp,
    created_at: Timestamp,
)
    requires
        queue_well_formed(v.queue),
    ensures
        queue_well_formed(
            queue_join_model(
                v,
                client_id,
                wallet,
                bet_lamports,
                ticket_id,
                match_id,
                queued_at,
                created_at,
            ).0.queue,
        ),
{
    if !wallet_queued(v.queue, wallet) && !wallet_in_match(v.matches, wallet) {
        if someone_at_bet(v.queue, bet_lamports) {
            let c = first_index_at_bet(v.queue, bet_lamports);
            lemma_first_at_bet_exists(v.queue, bet_lamports, v.queue.len() as int);
            lemma_remove_keeps_well_formed(v.queue, c);
        } else {
            let q2 = v.queue.push(
                QueueEntryView { ticket_id, wallet, client_id, bet_lamports, queued_at },
            );
            assert forall|i: int, j: int| 0 <= i < j < q2.len() implies #[trigger] q2[i].bet_lamports
                != #[trigger] q2[j].bet_lamports && q2[i].wallet != q2[j].wallet by {
                if j == v.queue.len() {
                    assert(v.queue[i].bet_lamports != bet_lamports);
                    assert(v.queue[i].wallet != wallet);
                }
            }
        }
    }
}

/// Where someone waits at a bet, a longest-waiting one exists.
pub proof fn lemma_first_at_bet_exists(q: Seq<QueueEntryView>, bet: u64, n: int)
    requires
        0 <= n <= q.len(),
        exists|i: int| 0 <= i < n && #[trigger] q[i].bet_lamports == bet,
    ensures
        exists|i: int| first_at_bet(q, bet, i),
    decreases n,
{
    if exists|i: int| 0 <= i < n - 1 && #[trigger] q[i].bet_lamports == bet {
        lemma_first_at_bet_exists(q, bet, n - 1);
    } else {
        assert(first_at_bet(q, bet, n - 1));
    }
}

/// Leaving the queue keeps at most one waiting wallet per bet, and each wallet waiting at most once.
pub proof fn lemma_leave_keeps_queue_well_formed(v: RelayView, ticket_id: Seq<char>)
    requires
        queue_well_formed(v.queue),
    ensures
        queue_well_formed(queue_leave_model(v, ticket_id).0.queue),
{
    if ticket_queued(v.queue, ticket_id) {
        lemma_first_with_ticket_exists(v.queue, ticket_id, v.queue.len() as int);
        let i = choose|i: int| crate::state::first_with_ticket(v.queue, ticket_id, i);
        lemma_remove_keeps_well_formed(v.queue, i);
    }
}

/// Where some entry holds a ticket, a first one does.
pub proof fn lemma_first_with_ticket_exists(q: Seq<QueueEntryView>, ticket_id: Seq<char>, n: int)
    requires
        0 <= n <= q.len(),
        exists|i: int| 0 <= i < n && #[trigger] q[i].ticket_id == ticket_id,
    ensures
        exists|i: int| crate::state::first_with_ticket(q, ticket_id, i),
    decreases n,
{
    if exists|i: int| 0 <= i < n - 1 && #[trigger] q[i].ticket_id == ticket_id {
        lemma_first_with_ticket_exists(q, ticket_id, n - 1);
    } else {
        assert(crate::state::first_with_ticket(q, ticket_id, n - 1));
    }
}

/// A wallet that joins at a bet where others wait is paired with the one
/// that has waited longest: a new match at that bet between two different
/// wallets, which leaves the queue and cannot join again while it lasts.
pub proof fn lemma_join_matches_longest_waiting(
    v: RelayView,
    client_id: Seq<char>,
    wallet: Seq<char>,
    bet_lamports: u64,
    ticket_id: Seq<char>,
    match_id: Seq<char>,
    queued_at: Timestamp,
    created_at: Timestamp,
)
    requires
        someone_at_bet(v.queue, bet_lamports),
        !wallet_queued(v.queue, wallet),
        !wallet_in_match(v.matches, wallet),
    ensures
        ({
            let (v2, r) = queue_join_model(
                v,
                client_id,
                wallet,
                bet_lamports,
                ticket_id,
                match_id,
                queued_at,
                created_at,
            );
            let i = first_index_at_bet(v.queue, bet_lamports);
            &&& first_at_bet(v.queue, bet_lamports, i)
            &&& r matches Ok(o) && o.matched matches Some(m) && {
                &&& m.bet_lamports == bet_lamports
                &&& m.creator_wallet == v.queue[i].wallet
                &&& m.joiner_wallet == wallet
                &&& m.creator_wallet != m.joiner_wallet
                &&& m.state == MatchLifecycle::AwaitingRoomCreation
                &&& v2.queue == v.queue.remove(i)
                &&& v2.matches[match_id] == m
                &&& wallet_in_match(v2.matches, wallet)
                &&& wallet_in_match(v2.matches, m.creator_wallet)
            }
        }),
{
    lemma_first_at_bet_exists(v.queue, bet_lamports, v.queue.len() as int);
    let i = first_index_at_bet(v.queue, bet_lamports);
    assert(v.queue[i].wallet != wallet);
    let (v2, r) = queue_join_model(
        v,
        client_id,
        wallet,
        bet_lamports,
        ticket_id,
        match_id,
        queued_at,
        created_at,
    );
    assert(v2.matches.contains_key(match_id));
}

/// A wallet that joins at a bet where nobody waits is queued with its new
/// ticket at the back, told it is alone at that bet, and not matched.
pub proof fn lemma_join_alone_waits(
    v: RelayView,
    client_id: Seq<char>,
    wallet: Seq<char>,
    bet_lamports: u64,
    ticket_id: Seq<char>,
    match_id: Seq<char>,
    queued_at: Timestamp,
    created_at: Timestamp,
)
    requires
        !someone_at_bet(v.queue, bet_lamports),
        !wallet_queued(v.queue, wallet),
        !wallet_in_match(v.matches, wallet),
    ensures
        ({
            let (v2, r) = queue_join_model(
                v,
                client_id,
                wallet,
                bet_lamports,
                ticket_id,
                match_id,
                queued_at,
                created_at,
            );
            &&& r matches Ok(o) && o.matched is None && o.status == (MessageView::QueueStatus {
                ahead_count: 0,
                same_bet_count: 1,
            })
            &&& v2.queue == v.queue.push(
                QueueEntryView { ticket_id, wallet, client_id, bet_lamports, queued_at },
            )
            &&& v2.matches == v.matches
            &&& session_of(v2.sessions, wallet).ticket_id == Some(ticket_id)
        }),
{
}

/// Leaving with the ticket just received undoes the join: the queue is as
/// before and the wallet's session holds no ticket.
pub proof fn lemma_join_then_leave_restores_queue(
    v: RelayView,
    client_id: Seq<char>,
    wallet: Seq<char>,
    bet_lamports: u64,
    ticket_id: Seq<char>,
    match_id: Seq<char>,
    queued_at: Timestamp,
    created_at: Timestamp,
)
    requires
        !someone_at_bet(v.queue, bet_lamports),
        !wallet_queued(v.queue, wallet),
        !wallet_in_match(v.matches, wallet),
        !ticket_queued(v.queue, ticket_id),
    ensures
        ({
            let v2 = queue_join_model(
                v,
                client_id,
                wallet,
                bet_lamports,
                ticket_id,
                match_id,
                queued_at,
                created_at,
            ).0;
            let (v3, left) = queue_leave_model(v2, ticket_id);
            &&& left
            &&& v3.queue == v.queue
            &&& session_of(v3.sessions, wallet).ticket_id is None
            &&& v3.matches == v.matches
        }),
{
    let v2 = queue_join_model(
        v,
        client_id,
        wallet,
        bet_lamports,
        ticket_id,
        match_id,
        queued_at,
        created_at,
    ).0;
    let n = v.queue.len() as int;
    assert(v2.queue[n].ticket_id == ticket_id);
    assert(crate::state::first_with_ticket(v2.queue, ticket_id, n));
    let i = choose|i: int| crate::state::first_with_ticket(v2.queue, ticket_id, i);
    if i < n {
        assert(v.queue[i].ticket_id == ticket_id);
    }
    assert(i == n);
    assert(v2.queue.remove(n) =~= v.queue);
}

/// A match that timed out before its room was published cannot get a room.
pub proof fn lemma_expired_match_refuses_room(
    v: RelayView,
    match_id: Seq<char>,
    room_pubkey: Seq<char>,
    signature: Seq<char>,
    now: Timestamp,
)
    requires
        v.matches.contains_key(match_id),
        v.matches[match_id].state == MatchLifecycle::AwaitingRoomCreation,
    ensures
        expire_match_model(v, match_id).1 is Some,
        register_room_model(expire_match_model(v, match_id).0, match_id, room_pubkey, signature, now)
            == (expire_match_model(v, match_id).0, Err::<crate::state::MatchView, Seq<char>>("match_expired"@)),
{
}

/// A match whose room was published in time does not expire: its timer
/// changes nothing and tells no one.
pub proof fn lemma_ready_match_survives_timeout(
    v: RelayView,
    match_id: Seq<char>,
    room_pubkey: Seq<char>,
    signature: Seq<char>,
    now: Timestamp,
)
    requires
        register_room_model(v, match_id, room_pubkey, signature, now).1 is Ok,
    ensures
        ({
            let v2 = register_room_model(v, match_id, room_pubkey, signature, now).0;
            &&& v2.matches[match_id].state == MatchLifecycle::RoomReady
            &&& expire_match_model(v2, match_id) == (v2, None::<crate::state::MatchView>)
            &&& timeout_model(v2, match_id) == (v2, Seq::<ActionView>::empty())
        }),
{
}

/// Account changes move a room forward through the waiting phases and then
/// leave it: promotion never returns to an earlier phase and settles after two steps.
pub proof fn lemma_promotion_settles(p: RoomPhase)
    ensures
        promoted_phase(promoted_phase(promoted_phase(p))) == promoted_phase(promoted_phase(p)),
        promoted_phase(p) != RoomPhase::WaitingForPlayer,
        promoted_phase(p) == p <==> (p != RoomPhase::WaitingForPlayer && p != RoomPhase::WaitingForVrf),
{
}

/// A room's observer is started at most once: once observed, observing it again starts nothing.
pub proof fn lemma_room_observed_once(v: RelayView, room_pubkey: Seq<char>)
    ensures
        observe(v, room_pubkey).0.observers.contains(room_pubkey),
        observe(observe(v, room_pubkey).0, room_pubkey).1 == Seq::<ActionView>::empty(),
{
}

/// A broadcast reaches each recipient of the room exactly once, and no one else.
pub proof fn lemma_broadcast_reaches_each_once(
    d: Seq<crate::state::Delivery>,
    v: RelayView,
    room_pubkey: Seq<char>,
    m: MessageView,
)
    requires
        room_deliveries(d, v, room_pubkey, seq![m]),
    ensures
        forall|i: int| 0 <= i < d.len() ==> #[trigger] room_recipients(v, room_pubkey).contains(d[i]@.client_id)
            && d[i]@.message == m,
        forall|c: Seq<char>| #[trigger] room_recipients(v, room_pubkey).contains(c) ==> exists|i: int|
            0 <= i < d.len() && #[trigger] d[i]@.client_id == c,
        forall|i: int, j: int| 0 <= i < j < d.len() ==> #[trigger] d[i]@.client_id != #[trigger] d[j]@.client_id,
{
    let rs = choose|rs: Seq<Seq<char>>|
        #[trigger] rs.to_set() == room_recipients(v, room_pubkey) && rs.no_duplicates()
            && crate::state::deliveries_view(d) == crate::state::deliveries_to(rs, seq![m]);
    crate::state::lemma_deliveries_one(rs, m);
    assert forall|i: int| 0 <= i < d.len() implies #[trigger] room_recipients(v, room_pubkey).contains(d[i]@.client_id)
        && d[i]@.message == m by {
        assert(crate::state::deliveries_view(d)[i] == d[i]@);
        assert(rs.to_set().contains(rs[i]));
    }
    assert forall|c: Seq<char>| #[trigger] room_recipients(v, room_pubkey).contains(c) implies exists|i: int|
        0 <= i < d.len() && #[trigger] d[i]@.client_id == c by {
        assert(rs.to_set().contains(c));
        let i = choose|i: int| 0 <= i < rs.len() && rs[i] == c;
        assert(crate::state::deliveries_view(d).len() == d.len());
        assert(crate::state::deliveries_view(d)[i] == d[i]@);
        assert(d[i]@.client_id == c);
    }
    assert forall|i: int, j: int| 0 <= i < j < d.len() implies #[trigger] d[i]@.client_id != #[trigger] d[j]@.client_id by {
        assert(crate::state::deliveries_view(d)[i] == d[i]@);
        assert(crate::state::deliveries_view(d)[j] == d[j]@);
    }
}

/// Whether match `k` exists and has not expired.
pub open spec fn live_match(m: Map<Seq<char>, MatchView>, k: Seq<char>) -> bool {
    m.contains_key(k) && m[k].state != MatchLifecycle::Expired
}

/// The relay's exclusivity: at most one waiting wallet per bet and each wallet
/// waiting once; no waiting wallet is in a live match; no match pairs a wallet
/// with itself; no wallet is in two live matches.
pub open spec fn relay_exclusive(v: RelayView) -> bool {
    &&& queue_well_formed(v.queue)
    &&& forall|i: int| 0 <= i < v.queue.len() ==> !wallet_in_match(v.matches, #[trigger] v.queue[i].wallet)
    &&& forall|k: Seq<char>|
        #[trigger] v.matches.contains_key(k) ==> v.matches[k].creator_wallet != v.matches[k].joiner_wallet
    &&& forall|k1: Seq<char>, k2: Seq<char>|
        #![trigger v.matches[k1], v.matches[k2]]
        k1 != k2 && live_match(v.matches, k1) && live_match(v.matches, k2) ==> {
            let a = v.matches[k1];
            let b = v.matches[k2];
            &&& a.creator_wallet != b.creator_wallet
            &&& a.creator_wallet != b.joiner_wallet
            &&& a.joiner_wallet != b.creator_wallet
            &&& a.joiner_wallet != b.joiner_wallet
        }
}

/// The relay starts exclusive: nobody waits and there are no matches.
pub proof fn lemma_empty_relay_is_exclusive(v: RelayView)
    requires
        v.queue.len() == 0,
        v.matches == Map::<Seq<char>, MatchView>::empty(),
    ensures
        relay_exclusive(v),
{
}

/// Joining the queue keeps the relay exclusive.
pub proof fn lemma_join_keeps_exclusive(
    v: RelayView,
    client_id: Seq<char>,
    wallet: Seq<char>,
    bet_lamports: u64,
    ticket_id: Seq<char>,
    match_id: Seq<char>,
    queued_at: Timestamp,
    created_at: Timestamp,
)
    requires
        relay_exclusive(v),
    ensures
        relay_exclusive(
            queue_join_model(
                v,
                client_id,
                wallet,
                bet_lamports,
                ticket_id,
                match_id,
                queued_at,
                created_at,
            ).0,
        ),
{
    lemma_join_keeps_queue_well_formed(
        v,
        client_id,
        wallet,
        bet_lamports,
        ticket_id,
        match_id,
        queued_at,
        created_at,
    );
    let after = queue_join_model(
        v,
        client_id,
        wallet,
        bet_lamports,
        ticket_id,
        match_id,
        queued_at,
        created_at,
    ).0;
    if !wallet_queued(v.queue, wallet) && !wallet_in_match(v.matches, wallet) {
        if someone_at_bet(v.queue, bet_lamports) {
            lemma_first_at_bet_exists(v.queue, bet_lamports, v.queue.len() as int);
            let c = first_index_at_bet(v.queue, bet_lamports);
            let creator = v.queue[c].wallet;
            assert(creator != wallet);
            assert(!wallet_in_match(v.matches, creator));
            let m2 = after.matches;
            assert(m2.contains_key(match_id));
            assert(m2[match_id].creator_wallet == creator && m2[match_id].joiner_wallet == wallet);
            assert forall|i: int| 0 <= i < after.queue.len() implies !wallet_in_match(
                m2,
                #[trigger] after.queue[i].wallet,
            ) by {
                let i2 = if i < c { i } else { i + 1 };
                assert(after.queue[i] == v.queue[i2]);
                let w = v.queue[i2].wallet;
                assert(i2 != c);
                if i2 < c {
                    assert(v.queue[i2].bet_lamports != v.queue[c].bet_lamports);
                } else {
                    assert(v.queue[c].bet_lamports != v.queue[i2].bet_lamports);
                }
                assert(w != creator);
                assert(w != wallet);
                assert(!wallet_in_match(v.matches, w));
                if wallet_in_match(m2, w) {
                    let k = choose|k: Seq<char>|
                        #[trigger] m2.contains_key(k) && m2[k].state != MatchLifecycle::Expired && (
                        m2[k].creator_wallet == w || m2[k].joiner_wallet == w);
                    if k != match_id {
                        assert(v.matches.contains_key(k));
                    }
                }
            }
            assert forall|k: Seq<char>| #[trigger] m2.contains_key(k) implies m2[k].creator_wallet
                != m2[k].joiner_wallet by {
                if k != match_id {
                    assert(v.matches.contains_key(k));
                }
            }
            assert forall|k1: Seq<char>, k2: Seq<char>|
                k1 != k2 && live_match(m2, k1) && live_match(m2, k2) implies {
                let a = #[trigger] m2[k1];
                let b = #[trigger] m2[k2];
                &&& a.creator_wallet != b.creator_wallet
                &&& a.creator_wallet != b.joiner_wallet
                &&& a.joiner_wallet != b.creator_wallet
                &&& a.joiner_wallet != b.joiner_wallet
            } by {
                if k1 == match_id {
                    assert(live_match(v.matches, k2));
                    if m2[k2].creator_wallet == creator || m2[k2].joiner_wallet == creator {
                        assert(wallet_in_match(v.matches, creator));
                    }
                    if m2[k2].creator_wallet == wallet || m2[k2].joiner_wallet == wallet {
                        assert(wallet_in_match(v.matches, wallet));
                    }
                } else if k2 == match_id {
                    assert(live_match(v.matches, k1));
                    if m2[k1].creator_wallet == creator || m2[k1].joiner_wallet == creator {
                        assert(wallet_in_match(v.matches, creator));
                    }
                    if m2[k1].creator_wallet == wallet || m2[k1].joiner_wallet == wallet {
                        assert(wallet_in_match(v.matches, wallet));
                    }
                } else {
                    assert(live_match(v.matches, k1) && live_match(v.matches, k2));
                    assert(v.matches[k1] == m2[k1] && v.matches[k2] == m2[k2]);
                }
            }
        } else {
            let n = v.queue.len();
            assert forall|i: int| 0 <= i < after.queue.len() implies !wallet_in_match(
                after.matches,
                #[trigger] after.queue[i].wallet,
            ) by {
                if i < n {
                    assert(after.queue[i] == v.queue[i]);
                }
            }
        }
    }
}

/// Leaving the queue keeps the relay exclusive.
pub proof fn lemma_leave_keeps_exclusive(v: RelayView, ticket_id: Seq<char>)
    requires
        relay_exclusive(v),
    ensures
        relay_exclusive(queue_leave_model(v, ticket_id).0),
{
    lemma_leave_keeps_queue_well_formed(v, ticket_id);
    if ticket_queued(v.queue, ticket_id) {
        lemma_first_with_ticket_exists(v.queue, ticket_id, v.queue.len() as int);
        let c = choose|i: int| crate::state::first_with_ticket(v.queue, ticket_id, i);
        let after = queue_leave_model(v, ticket_id).0;
        assert forall|i: int| 0 <= i < after.queue.len() implies !wallet_in_match(
            after.matches,
            #[trigger] after.queue[i].wallet,
        ) by {
            let i2 = if i < c { i } else { i + 1 };
            assert(after.queue[i] == v.queue[i2]);
        }
    }
}

/// Expiring a match keeps the relay exclusive.
pub proof fn lemma_expire_keeps_exclusive(v: RelayView, match_id: Seq<char>)
    requires
        relay_exclusive(v),
    ensures
        relay_exclusive(expire_match_model(v, match_id).0),
{
    let after = expire_match_model(v, match_id).0;
    if v.matches.contains_key(match_id) && v.matches[match_id].state
        == MatchLifecycle::AwaitingRoomCreation {
        let m2 = after.matches;
        assert forall|i: int| 0 <= i < after.queue.len() implies !wallet_in_match(
            m2,
            #[trigger] after.queue[i].wallet,
        ) by {
            let w = after.queue[i].wallet;
            assert(!wallet_in_match(v.matches, w));
            if wallet_in_match(m2, w) {
                let k = choose|k: Seq<char>|
                    #[trigger] m2.contains_key(k) && m2[k].state != MatchLifecycle::Expired && (
                    m2[k].creator_wallet == w || m2[k].joiner_wallet == w);
                assert(v.matches.contains_key(k));
            }
        }
        assert forall|k: Seq<char>| #[trigger] m2.contains_key(k) implies m2[k].creator_wallet
            != m2[k].joiner_wallet by {
            assert(v.matches.contains_key(k));
        }
        assert forall|k1: Seq<char>, k2: Seq<char>|
            k1 != k2 && live_match(m2, k1) && live_match(m2, k2) implies {
            let a = #[trigger] m2[k1];
            let b = #[trigger] m2[k2];
            &&& a.creator_wallet != b.creator_wallet
            &&& a.creator_wallet != b.joiner_wallet
            &&& a.joiner_wallet != b.creator_wallet
            &&& a.joiner_wallet != b.joiner_wallet
        } by {
            assert(live_match(v.matches, k1) && live_match(v.matches, k2));
            assert(v.matches[k1] == m2[k1] && v.matches[k2] == m2[k2]);
        }
    }
}

/// Publishing a match's room keeps the relay exclusive.
pub proof fn lemma_register_room_keeps_exclusive(
    v: RelayView,
    match_id: Seq<char>,
    room_pubkey: Seq<char>,
    signature: Seq<char>,
    now: Timestamp,
)
    requires
        relay_exclusive(v),
    ensures
        relay_exclusive(register_room_model(v, match_id, room_pubkey, signature, now).0),
{
    let after = register_room_model(v, match_id, room_pubkey, signature, now).0;
    if v.matches.contains_key(match_id) && v.matches[match_id].state != MatchLifecycle::Expired {
        let m2 = after.matches;
        assert(after.queue == v.queue);
        assert forall|i: int| 0 <= i < after.queue.len() implies !wallet_in_match(
            m2,
            #[trigger] after.queue[i].wallet,
        ) by {
            let w = after.queue[i].wallet;
            assert(!wallet_in_match(v.matches, w));
            if wallet_in_match(m2, w) {
                let k = choose|k: Seq<char>|
                    #[trigger] m2.contains_key(k) && m2[k].state != MatchLifecycle::Expired && (
                    m2[k].creator_wallet == w || m2[k].joiner_wallet == w);
                assert(v.matches.contains_key(k));
            }
        }
        assert forall|k: Seq<char>| #[trigger] m2.contains_key(k) implies m2[k].creator_wallet
            != m2[k].joiner_wallet by {
            assert(v.matches.contains_key(k));
        }
        assert forall|k1: Seq<char>, k2: Seq<char>|
            k1 != k2 && live_match(m2, k1) && live_match(m2, k2) implies {
            let a = #[trigger] m2[k1];
            let b = #[trigger] m2[k2];
            &&& a.creator_wallet != b.creator_wallet
            &&& a.creator_wallet != b.joiner_wallet
            &&& a.joiner_wallet != b.creator_wallet
            &&& a.joiner_wallet != b.joiner_wallet
        } by {
            assert(live_match(v.matches, k1) && live_match(v.matches, k2));
        }
    }
}

/// A step that leaves the queue and the matches as they were keeps the relay exclusive.
proof fn lemma_same_pairing_keeps_exclusive(v: RelayView, w: RelayView)
    requires
        relay_exclusive(v),
        w.queue == v.queue,
        w.matches == v.matches,
    ensures
        relay_exclusive(w),
{
}

/// Whatever a client asks, the relay stays exclusive.
pub proof fn lemma_request_keeps_exclusive(
    v: RelayView,
    timeout: u64,
    client_id: Seq<char>,
    message: ClientMessageView,
    ticket_id: Seq<char>,
    match_id: Seq<char>,
    queued_at: Timestamp,
    created_at: Timestamp,
    now: Timestamp,
)
    requires
        relay_exclusive(v),
    ensures
        relay_exclusive(
            handle_model(
                v,
                timeout,
                client_id,
                message,
                ticket_id,
                match_id,
                queued_at,
                created_at,
                now,
            ).0,
        ),
{
    match message {
        ClientMessageView::QueueJoin { wallet, bet_lamports } => {
            lemma_join_keeps_exclusive(
                v,
                client_id,
                wallet,
                bet_lamports,
                ticket_id,
                match_id,
                queued_at,
                created_at,
            );
        },
        ClientMessageView::QueueLeave { ticket_id } => {
            lemma_leave_keeps_exclusive(v, ticket_id);
        },
        ClientMessageView::MatchRoomCreated { match_id, room_pubkey, signature } => {
            lemma_register_room_keeps_exclusive(v, match_id, room_pubkey, signature, now);
            let v2 = register_room_model(v, match_id, room_pubkey, signature, now).0;
            lemma_same_pairing_keeps_exclusive(v2, observe(v2, room_pubkey).0);
        },
        ClientMessageView::RoomSubscribe { room_pubkey } => {
            let v2 = subscribe_model(v, client_id, room_pubkey, None, now).0;
            lemma_same_pairing_keeps_exclusive(v, v2);
            lemma_same_pairing_keeps_exclusive(v2, observe(v2, room_pubkey).0);
        },
        ClientMessageView::SessionResume { wallet, room_pubkey, match_id } => {
            lemma_same_pairing_keeps_exclusive(
                v,
                resume_model(v, client_id, wallet, room_pubkey, match_id, now).0,
            );
        },
    }
}

/// A match's timer running out keeps the relay exclusive.
pub proof fn lemma_timeout_keeps_exclusive(v: RelayView, match_id: Seq<char>)
    requires
        relay_exclusive(v),
    ensures
        relay_exclusive(timeout_model(v, match_id).0),
{
    lemma_expire_keeps_exclusive(v, match_id);
}

/// What the chain reports about a room keeps the relay exclusive.
pub proof fn lemma_chain_updates_keep_exclusive(
    v: RelayView,
    room_pubkey: Seq<char>,
    account_hash: Seq<char>,
    signature: Seq<char>,
    logs: Seq<Seq<char>>,
    now: Timestamp,
)
    requires
        relay_exclusive(v),
    ensures
        relay_exclusive(account_update_model(v, room_pubkey, account_hash, now).0),
        relay_exclusive(log_update_model(v, room_pubkey, signature, logs, now).0),
{
    lemma_same_pairing_keeps_exclusive(v, account_update_model(v, room_pubkey, account_hash, now).0);
    lemma_same_pairing_keeps_exclusive(v, log_update_model(v, room_pubkey, signature, logs, now).0);
}

/// Room deliveries are fixed by the room and the messages: the recipients are
/// taken in increasing order of strings, so two lists of deliveries of the same
/// messages to the same room are the same list.
pub proof fn lemma_room_deliveries_determined(
    d1: Seq<crate::state::Delivery>,
    d2: Seq<crate::state::Delivery>,
    v: RelayView,
    room_pubkey: Seq<char>,
    msgs: Seq<MessageView>,
)
    requires
        room_deliveries(d1, v, room_pubkey, msgs),
        room_deliveries(d2, v, room_pubkey, msgs),
    ensures
        crate::state::deliveries_view(d1) == crate::state::deliveries_view(d2),
{
    let rs1 = choose|rs: Seq<Seq<char>>|
        #[trigger] rs.to_set() == room_recipients(v, room_pubkey) && rs.no_duplicates()
            && crate::text::strictly_sorted(rs) && crate::state::deliveries_view(d1)
            == crate::state::deliveries_to(rs, msgs);
    let rs2 = choose|rs: Seq<Seq<char>>|
        #[trigger] rs.to_set() == room_recipients(v, room_pubkey) && rs.no_duplicates()
            && crate::text::strictly_sorted(rs) && crate::state::deliveries_view(d2)
            == crate::state::deliveries_to(rs, msgs);
    crate::text::lemma_sorted_unique(rs1, rs2);
}

/// A resuming wallet is told its role in the match it resumes: the match's
/// creator hears that it is the creator and faces the joiner (so it publishes
/// the room); any other wallet hears that it is the joiner and faces the creator.
pub proof fn lemma_resume_reports_role(
    v: RelayView,
    client_id: Seq<char>,
    wallet: Seq<char>,
    room_pubkey: Option<Seq<char>>,
    match_id: Option<Seq<char>>,
    now: Timestamp,
    resumed: Seq<char>,
)
    requires
        crate::state::either(match_id, session_of(v.sessions, wallet).current_match_id) == Some(resumed),
        v.matches.contains_key(resumed),
    ensures
        ({
            let msgs = resume_model(v, client_id, wallet, room_pubkey, match_id, now).1;
            let m = v.matches[resumed];
            &&& m.creator_wallet == wallet ==> msgs.contains(
                MessageView::MatchFound {
                    match_id: m.match_id,
                    role: MatchRole::Creator,
                    opponent_wallet: m.joiner_wallet,
                },
            )
            &&& m.creator_wallet != wallet ==> msgs.contains(
                MessageView::MatchFound {
                    match_id: m.match_id,
                    role: MatchRole::Joiner,
                    opponent_wallet: m.creator_wallet,
                },
            )
        }),
{
    let v1 = RelayView { bindings: v.bindings.insert(wallet, client_id), ..v };
    let s = session_of(v1.sessions, wallet);
    assert(s == session_of(v.sessions, wallet));
    let t = crate::state::ticket_messages(v1.queue, s);
    let mm = crate::state::match_messages(v1.matches, wallet, Some(resumed));
    let base = t + mm;
    let k = t.len() as int;
    assert(base[k] == mm[0]);
    let msgs = resume_model(v, client_id, wallet, room_pubkey, match_id, now).1;
    match crate::state::either(room_pubkey, s.current_room_pubkey) {
        Some(r) => {
            assert(msgs == base.push(crate::state::room_state_message(
                crate::state::subscribe_model(v1, client_id, r, Some(wallet), now).1,
            )));
            assert(msgs[k] == base[k]);
        },
        None => {
            assert(msgs == base);
        },
    }
    assert(msgs[k] == mm[0]);
}

/// How a room's logs move its phase, over every lowercased log text: a
/// finish or a winner means finished; else a round end means the round ended;
/// else randomness means waiting for randomness; else a shot, a turn, a reload
/// or an item means the game is being played; else only a room still waiting
/// for its second player moves, on to waiting for randomness. Logs never send a
/// room back to waiting for a player.
pub proof fn lemma_log_keywords(current: RoomPhase, text: Seq<char>)
    ensures
        (crate::text::occurs_in(text, "finished"@) || crate::text::occurs_in(text, "winner"@))
            ==> phase_from_text(current, text) == Some(RoomPhase::Finished),
        !crate::text::occurs_in(text, "finished"@) && !crate::text::occurs_in(text, "winner"@) && (
        crate::text::occurs_in(text, "round end"@) || crate::text::occurs_in(text, "round_end"@))
            ==> phase_from_text(current, text) == Some(RoomPhase::RoundEnd),
        !crate::text::occurs_in(text, "finished"@) && !crate::text::occurs_in(text, "winner"@)
            && !crate::text::occurs_in(text, "round end"@) && !crate::text::occurs_in(
            text,
            "round_end"@,
        ) && (crate::text::occurs_in(text, "vrf"@) || crate::text::occurs_in(text, "randomness"@))
            ==> phase_from_text(current, text) == Some(RoomPhase::WaitingForVrf),
        no_earlier_keyword(text) && (crate::text::occurs_in(text, "shoot"@) || crate::text::occurs_in(
            text,
            "turn"@,
        ) || crate::text::occurs_in(text, "reload"@) || crate::text::occurs_in(text, "item"@))
            ==> phase_from_text(current, text) == Some(RoomPhase::Playing),
        phase_from_text(current, text) != Some(RoomPhase::WaitingForPlayer),
        phase_from_text(current, text) is None ==> current != RoomPhase::WaitingForPlayer,
        current == RoomPhase::WaitingForPlayer ==> phase_from_text(current, text) is Some,
{
}

/// The text names none of finished, winner, round end or randomness.
pub open spec fn no_earlier_keyword(text: Seq<char>) -> bool {
    &&& !crate::text::occurs_in(text, "finished"@)
    &&& !crate::text::occurs_in(text, "winner"@)
    &&& !crate::text::occurs_in(text, "round end"@)
    &&& !crate::text::occurs_in(text, "round_end"@)
    &&& !crate::text::occurs_in(text, "vrf"@)
    &&& !crate::text::occurs_in(text, "randomness"@)
}

} // verus!
