//! What holds of a session store across its operations.

use vstd::prelude::*;
use crate::bytes::Key32;
use crate::initiator_store::{InitiatorAsk, InitiatorSessionReservation};
use crate::secure_datagram::DatagramModel;
use crate::responder_store::{ResponderPlan, ResponderSeeds, UpsertResponderSessionReturn};
use crate::session_store::{
    KeyRecord, PeerSessionEntry, ReservationBody, SessionId, SessionQuotas, StoreModel,
    INITIATOR_RECOVERY_LIFETIME_MS, MAX_INITIATOR_RECEIPT_RECORDS, MAX_IN_DOUBT_RESERVATIONS,
    MAX_RESPONDER_RECOVERY_RECORDS,
};
use crate::session_types::{IdentityModel, PeerSessionAction, SessionError, SessionKeyModel};

verus! {

/// Preparing an initiator transition publishes nothing and changes no traffic
/// keys: every key has the session that it had, and every session its datagram
/// state.
pub proof fn lemma_prepared_stays_private(
    store: StoreModel,
    quotas: SessionQuotas,
    key: SessionKeyModel,
    ask: InitiatorAsk,
    metadata_id: u128,
    now_ms: u64,
    other: SessionKeyModel,
    id: SessionId,
)
    requires
        store.sound(),
    ensures
        ({
            let prepared = store.initiator_prepared(quotas, key, ask, metadata_id, now_ms).0;
            &&& prepared.published(other) == store.published(other)
            &&& prepared.rec(other).active == store.rec(other).active
            &&& store.has(id) ==> prepared.has(id) && prepared.sess(id).datagram == store.sess(
                id,
            ).datagram && prepared.sess(id).peer_static_pubkey == store.sess(id).peer_static_pubkey
        }),
{
    crate::session_store::lemma_sound_record(store, other);
    crate::session_store::lemma_sound_record(store, key);
}

/// A creation that was claimed is refused to everyone else until the claim is
/// given up: to initiators, and to responders.
pub proof fn lemma_creation_claim_is_exclusive(
    store: StoreModel,
    quotas: SessionQuotas,
    key: SessionKeyModel,
    ask: InitiatorAsk,
    metadata_id: u128,
    send_algorithm: Seq<char>,
    recv_algorithm: Seq<char>,
    peer_static_pubkey: Option<Key32>,
    allow_existing_proof: bool,
    seeds: ResponderSeeds,
    now_ms: u64,
)
    requires
        store.rec(key).pending_create is Some,
        store.published(key) is None,
    ensures
        ask.action == PeerSessionAction::Create ==> store.initiator_prepared(
            quotas,
            key,
            ask,
            metadata_id,
            now_ms,
        ).1 is Err,
        store.responder_staged(
            key,
            send_algorithm,
            recv_algorithm,
            peer_static_pubkey,
            allow_existing_proof,
            seeds,
            now_ms,
        ).1 is Err,
{
}

/// A prepared creation that is canceled leaves the key as it was, with its slot
/// given back; one that is committed is the published session of the key.
pub proof fn lemma_creation_ends(
    store: StoreModel,
    quotas: SessionQuotas,
    key: SessionKeyModel,
    ask: InitiatorAsk,
    metadata_id: u128,
    now_ms: u64,
    later_ms: u64,
)
    requires
        store.sound(),
        ask.action == PeerSessionAction::Create,
        store.initiator_prepared(quotas, key, ask, metadata_id, now_ms).1 is Ok,
    ensures
        ({
            let (prepared, body) = store.initiator_prepared(quotas, key, ask, metadata_id, now_ms);
            let body = body->Ok_0;
            let canceled = prepared.reservation_canceled(key, body);
            let committed = prepared.reservation_committed(key, body, later_ms);
            &&& canceled.rec(key) == store.rec(key)
            &&& crate::initiator_store::permit_released(quotas.with_in_doubt(), true) == quotas
            &&& prepared.commit_check(key, body) is Ok
            &&& committed.published(key) == Some(body.session)
            &&& committed.rec(key).pending_create is None
            &&& committed.sess(body.session).committed_as(
                body.fields(metadata_id),
            ) is Some
        }),
{
    crate::session_store::lemma_sound_record(store, key);
    let (prepared, body) = store.initiator_prepared(quotas, key, ask, metadata_id, now_ms);
    let body = body->Ok_0;
    let committed = prepared.reservation_committed(key, body, later_ms);
    let history = committed.sess(body.session).committed_history;
    assert(prepared.sess(body.session).committed_history =~= Seq::empty());
    assert(history.last() == body.committed(body.root_key));
}

/// A reservation that is suspended comes back exactly as it was, under the
/// identity with which it was kept, and the store is what it was before.
pub proof fn lemma_suspended_comes_back(
    store: StoreModel,
    quotas: SessionQuotas,
    reservation: InitiatorSessionReservation,
    lifetime_ms: u64,
    identity: IdentityModel,
    kept: StoreModel,
    quotas_after: SessionQuotas,
    asked: IdentityModel,
)
    requires
        crate::initiator_records::suspended(
            reservation,
            store,
            quotas,
            lifetime_ms,
            identity,
            Ok(()),
            kept,
            quotas_after,
        ),
        asked.key == identity.key,
    ensures
        kept.in_doubt_check(asked) is Ok <==> identity.fields.authenticated_as(asked.fields),
        kept.rec(identity.key).in_doubt->0.body == reservation.body,
        kept.with_in_doubt(identity.key, None).rec(identity.key) == store.rec(identity.key),
        quotas_after == quotas,
{
}

/// While a transition is in doubt or a proof is pending, no new transition of
/// its key starts.
pub proof fn lemma_recovery_comes_first(
    store: StoreModel,
    quotas: SessionQuotas,
    key: SessionKeyModel,
    ask: InitiatorAsk,
    metadata_id: u128,
    send_algorithm: Seq<char>,
    recv_algorithm: Seq<char>,
    peer_static_pubkey: Option<Key32>,
    seeds: ResponderSeeds,
    now_ms: u64,
)
    requires
        store.rec(key).in_doubt is Some || store.rec(key).recovery is Some,
    ensures
        store.initiator_prepared(quotas, key, ask, metadata_id, now_ms).0 == store,
        store.initiator_prepared(quotas, key, ask, metadata_id, now_ms).1 is Err,
        ({
            let staged = store.responder_staged(
                key,
                send_algorithm,
                recv_algorithm,
                peer_static_pubkey,
                false,
                seeds,
                now_ms,
            );
            staged.0 == store && staged.1 is Err
        }),
{
}

/// No timer touches a transition in doubt: expiry and eviction keep it, its
/// session, and every receipt with its session.
pub proof fn lemma_time_keeps_transitions_in_doubt(
    store: StoreModel,
    in_use: Seq<SessionId>,
    idle_ms: u64,
    now_ms: u64,
    key: SessionKeyModel,
)
    requires
        store.sound(),
    ensures
        ({
            let after = store.expired(now_ms).evicted(in_use, idle_ms, now_ms);
            &&& after.rec(key).in_doubt == store.rec(key).in_doubt
            &&& after.rec(key).receipt == store.rec(key).receipt
            &&& after.rec(key).pending_create == store.rec(key).pending_create
            &&& store.rec(key).in_doubt is Some ==> after.has(
                store.rec(key).in_doubt->0.body.session,
            )
            &&& store.rec(key).receipt is Some ==> after.has((store.rec(key).receipt->0).session)
        }),
{
    crate::session_store::lemma_sound_record(store, key);
    let expired = store.expired(now_ms);
    let idle = expired.idle_withdrawn(Set::full(), in_use, idle_ms, now_ms);
    if store.rec(key).in_doubt is Some {
        assert(idle.rec(key).names(store.rec(key).in_doubt->0.body.session));
    }
    if store.rec(key).receipt is Some {
        assert(idle.rec(key).names((store.rec(key).receipt->0).session));
    }
}

/// A valid session that a record pins, or that is in use, stays published
/// through an eviction; an invalid one never does.
pub proof fn lemma_eviction_spares_used_sessions(
    store: StoreModel,
    in_use: Seq<SessionId>,
    idle_ms: u64,
    now_ms: u64,
    key: SessionKeyModel,
    id: SessionId,
)
    requires
        store.sound(),
        store.rec(key).active is Some,
        (store.rec(key).active->0).session == id,
    ensures
        ({
            let after = store.evicted(in_use, idle_ms, now_ms);
            &&& store.sess(id).valid() && (in_use.contains(id) || store.pinned(id))
                ==> after.published(key) == Some(id) && after.has(id)
            &&& !store.sess(id).valid() ==> after.rec(key).active is None
        }),
{
    crate::session_store::lemma_sound_record(store, key);
    let idle = store.idle_withdrawn(Set::full(), in_use, idle_ms, now_ms);
    if store.sess(id).valid() && (in_use.contains(id) || store.pinned(id)) {
        assert(idle.rec(key).names(id));
        assert(idle.referenced(in_use, id));
    }
}

/// A commit with a receipt that is refused publishes nothing: the sessions of
/// all keys, and the receipts, are what they were.
pub proof fn lemma_refused_receipt_publishes_nothing(
    store: StoreModel,
    quotas: SessionQuotas,
    reservation: InitiatorSessionReservation,
    receipt: IdentityModel,
    previous: Option<IdentityModel>,
    now_ms: u64,
    error: SessionError,
    reservation_after: InitiatorSessionReservation,
    store_after: StoreModel,
    quotas_after: SessionQuotas,
    other: SessionKeyModel,
)
    requires
        reservation.held_in(store),
        crate::initiator_records::receipt_committed(
            reservation,
            store,
            quotas,
            receipt,
            previous,
            now_ms,
            Err(error),
            reservation_after,
            store_after,
            quotas_after,
        ),
    ensures
        store_after.rec(other).active == store.rec(other).active,
        store_after.rec(other).receipt == store.rec(other).receipt,
        store_after.published(other) == store.published(other),
        store_after.sess(reservation.body.session).committed_history == store.sess(
            reservation.body.session,
        ).committed_history,
        quotas_after.initiator_receipts == quotas.initiator_receipts,
{
}

/// The bounded kinds of records stay within their bounds.
pub open spec fn within_bounds(quotas: SessionQuotas) -> bool {
    &&& quotas.in_doubt <= MAX_IN_DOUBT_RESERVATIONS
    &&& quotas.responder_recoveries <= MAX_RESPONDER_RECOVERY_RECORDS
    &&& quotas.initiator_receipts <= MAX_INITIATOR_RECEIPT_RECORDS
}

/// No operation that takes a slot exceeds the bounds.
pub proof fn lemma_bounds_are_kept(
    store: StoreModel,
    quotas: SessionQuotas,
    key: SessionKeyModel,
    ask: InitiatorAsk,
    metadata_id: u128,
    body: ReservationBody,
    receipt: IdentityModel,
    previous: Option<IdentityModel>,
    prepared: UpsertResponderSessionReturn,
    now_ms: u64,
)
    requires
        within_bounds(quotas),
    ensures
        store.initiator_prepared(quotas, key, ask, metadata_id, now_ms).1 is Ok ==> within_bounds(
            quotas.with_in_doubt(),
        ),
        store.receipt_commit_check(quotas, key, body, receipt, previous) == Ok::<
            bool,
            SessionError,
        >(true) ==> within_bounds(quotas.with_receipt()),
        store.responder_committed(quotas, key, prepared, now_ms).1 is Ok ==> within_bounds(
            store.proof_slots_after(quotas, key, prepared),
        ),
        within_bounds(quotas.without_in_doubt()),
        within_bounds(quotas.without_recovery()),
        within_bounds(quotas.without_receipt()),
{
}

/// A committed responder transition can be asked for again by its exact
/// identity, until its proof is removed.
pub proof fn lemma_committed_can_be_reconciled(
    store: StoreModel,
    quotas: SessionQuotas,
    key: SessionKeyModel,
    prepared: UpsertResponderSessionReturn,
    now_ms: u64,
)
    requires
        store.responder_committed(quotas, key, prepared, now_ms).1 is Ok,
    ensures
        ({
            let after = store.responder_committed(quotas, key, prepared, now_ms).0;
            let record = after.rec(key).recovery->0;
            &&& after.rec(key).recovery is Some
            &&& after.reconciled(IdentityModel { key, fields: record.identity }) == Some(
                record.recovery,
            )
            &&& record.recovery.session == prepared.session
            &&& record.identity.transition_id == prepared.transition_id
        }),
{
}

/// A responder publishes a static key only when the transition is committed:
/// staging leaves the static keys, and the traffic keys, of all sessions alone.
pub proof fn lemma_staging_keeps_keys(
    store: StoreModel,
    key: SessionKeyModel,
    send_algorithm: Seq<char>,
    recv_algorithm: Seq<char>,
    peer_static_pubkey: Option<Key32>,
    allow_existing_proof: bool,
    seeds: ResponderSeeds,
    now_ms: u64,
    id: SessionId,
)
    requires
        store.sound(),
        store.has(id),
    ensures
        ({
            let staged = store.responder_staged(
                key,
                send_algorithm,
                recv_algorithm,
                peer_static_pubkey,
                allow_existing_proof,
                seeds,
                now_ms,
            ).0;
            &&& staged.has(id)
            &&& staged.sess(id).peer_static_pubkey == store.sess(id).peer_static_pubkey
            &&& staged.sess(id).datagram == store.sess(id).datagram
        }),
{
    crate::session_store::lemma_sound_record(store, key);
}

/// A staged synchronization that is committed at once becomes active with the
/// static key that it was staged with.
pub proof fn lemma_staged_sync_commits(
    store: StoreModel,
    id: SessionId,
    key: SessionKeyModel,
    send_algorithm: Seq<char>,
    recv_algorithm: Seq<char>,
    peer_static_pubkey: Option<Key32>,
    transition_id: u128,
    now_ms: u64,
)
    requires
        store.published(key) == Some(id),
        peer_static_pubkey is Some,
        store.responder_sync_staged(
            id,
            send_algorithm,
            recv_algorithm,
            peer_static_pubkey,
            transition_id,
        ).1 is Ok,
    ensures
        ({
            let (staged, plan) = store.responder_sync_staged(
                id,
                send_algorithm,
                recv_algorithm,
                peer_static_pubkey,
                transition_id,
            );
            let (active, result) = staged.plan_activated(key, plan->Ok_0, now_ms);
            &&& result is Ok
            &&& active.sess(id).peer_static_pubkey == peer_static_pubkey
            &&& active.sess(id).pending_epoch is None
            &&& active.published(key) == Some(id)
            &&& active.sess(id).datagram.send_epoch == (plan->Ok_0).initial_epoch
        }),
{
    reveal(DatagramModel::synchronized);
}

/// A proof that was cleared for a transition which is then given up is back as
/// it was.
pub proof fn lemma_cleared_proof_comes_back(
    store: StoreModel,
    key: SessionKeyModel,
    prepared: UpsertResponderSessionReturn,
)
    requires
        prepared.prepared_key@ == key,
        !prepared.proof_cleared,
        prepared.proof_dependency is Some,
        store.authenticate_check(key, prepared, prepared.proof_dependency->0) is Ok,
    ensures
        store.with_recovery(key, None).with_recovery(key, store.rec(key).recovery).rec(key)
            == store.rec(key),
        store.rec(key).recovery is Some,
        (store.rec(key).recovery->0).identity.transition_id == prepared.proof_dependency->0,
{
}

/// Whether a record of some key keeps a session beyond its publication.
pub open spec fn kept_by_a_record(store: StoreModel, id: SessionId) -> bool {
    exists|key: SessionKeyModel| #[trigger] keeps_session(store.records[key], id)
}

/// Whether a record is about a session that it does not publish: one that is about
/// to be made, one in doubt, one with a proof or one with a receipt.
pub open spec fn keeps_session(record: KeyRecord, id: SessionId) -> bool {
    ||| record.pending_create == Some(id)
    ||| (record.in_doubt matches Some(kept) && kept.body.session == id)
    ||| (record.recovery matches Some(proof) && proof.recovery.session == id)
    ||| (record.receipt matches Some(receipt) && receipt.session == id)
}

proof fn lemma_kept_is_pinned(store: StoreModel, id: SessionId)
    ensures
        store.pinned(id) == kept_by_a_record(store, id),
{
    if store.pinned(id) {
        let key = choose|key: SessionKeyModel| #[trigger] store.rec(key).pins(id);
        assert(keeps_session(store.records[key], id));
    }
    if kept_by_a_record(store, id) {
        let key = choose|key: SessionKeyModel| #[trigger] keeps_session(store.records[key], id);
        assert(store.rec(key).pins(id));
    }
}

/// An eviction ends what was idle for the whole time and nothing else: a valid
/// session that was used within the time stays published, one that was not does
/// not, unless it is in use or a record keeps it, and an invalid one never does.
pub proof fn lemma_eviction_ends_only_idle_sessions(
    store: StoreModel,
    in_use: Seq<SessionId>,
    idle_ms: u64,
    now_ms: u64,
    key: SessionKeyModel,
    entry: PeerSessionEntry,
)
    requires
        store.sound(),
        store.records[key].active == Some(entry),
    ensures
        ({
            let after = store.evicted(in_use, idle_ms, now_ms);
            let session = store.sessions[entry.session];
            let used = now_ms < entry.last_used_at + idle_ms || in_use.contains(entry.session)
                || kept_by_a_record(store, entry.session);
            let valid = !session.invalidated && !session.datagram.invalidated;
            &&& idle_ms > 0 && valid && used ==> after.records[key].active == Some(entry)
                && after.sessions.contains_key(entry.session) && after.sessions[entry.session]
                == session && after.published(key) == Some(entry.session)
            &&& !valid || !used ==> after.records[key].active is None && after.published(key) is None
        }),
{
    lemma_kept_is_pinned(store, entry.session);
    crate::session_store::lemma_sound_record(store, key);
    let idle = store.idle_withdrawn(Set::full(), in_use, idle_ms, now_ms);
    if idle.rec(key).active == Some(entry) {
        assert(idle.rec(key).names(entry.session));
        assert(idle.referenced(in_use, entry.session));
    }
}

/// An eviction touches nothing but publications and forgotten sessions: every
/// other record stays, and a session stays, as it is, exactly while it is in use
/// or some record is left that is about it.
pub proof fn lemma_eviction_forgets_only_the_unused(
    store: StoreModel,
    in_use: Seq<SessionId>,
    idle_ms: u64,
    now_ms: u64,
    key: SessionKeyModel,
    id: SessionId,
)
    ensures
        ({
            let after = store.evicted(in_use, idle_ms, now_ms);
            &&& after.records[key].pending_create == store.records[key].pending_create
            &&& after.records[key].in_doubt == store.records[key].in_doubt
            &&& after.records[key].recovery == store.records[key].recovery
            &&& after.records[key].receipt == store.records[key].receipt
            &&& after.next_session == store.next_session
            &&& after.sessions.contains_key(id) == (store.sessions.contains_key(id) && (
            in_use.contains(id) || kept_by_a_record(after, id) || exists|k: SessionKeyModel|
                (#[trigger] after.records[k]).active matches Some(entry) && entry.session == id))
            &&& after.sessions.contains_key(id) ==> after.sessions[id] == store.sessions[id]
        }),
{
    let idle = store.idle_withdrawn(Set::full(), in_use, idle_ms, now_ms);
    let after = store.evicted(in_use, idle_ms, now_ms);
    assert(after.records == idle.records);
    if idle.referenced(in_use, id) && !in_use.contains(id) {
        let k = choose|k: SessionKeyModel| #[trigger] idle.rec(k).names(id);
        if idle.rec(k).pins(id) {
            assert(keeps_session(after.records[k], id));
        } else {
            assert(after.records[k].active is Some);
        }
    }
    if kept_by_a_record(after, id) {
        let k = choose|k: SessionKeyModel| #[trigger] keeps_session(after.records[k], id);
        assert(idle.rec(k).names(id));
    }
    if exists|k: SessionKeyModel|
        (#[trigger] after.records[k]).active matches Some(entry) && entry.session == id {
        let k = choose|k: SessionKeyModel|
            (#[trigger] after.records[k]).active matches Some(entry) && entry.session == id;
        assert(idle.rec(k).names(id));
    }
}

/// Looking a session up uses it: a valid one is found, and stays for the whole
/// idle time from then on; an invalid one is not found, and not published any
/// more. Nothing else changes.
pub proof fn lemma_looking_up_uses_a_session(
    store: StoreModel,
    key: SessionKeyModel,
    now_ms: u64,
    other: SessionKeyModel,
    in_use: Seq<SessionId>,
    idle_ms: u64,
    later_ms: u64,
)
    requires
        store.sound(),
        store.records.contains_key(key),
        idle_ms > 0,
        later_ms < now_ms + idle_ms,
    ensures
        ({
            let after = store.after_get(key, now_ms);
            &&& after.sessions == store.sessions
            &&& after.published(key) == store.published(key)
            &&& store.published(key) matches Some(id) ==> store.records[key].active is Some && (
            store.records[key].active->0).session == id && !store.sessions[id].invalidated
                && !store.sessions[id].datagram.invalidated
            &&& store.records[key].active matches Some(entry) ==> (
            !store.sessions[entry.session].invalidated
                && !store.sessions[entry.session].datagram.invalidated ==> store.published(key)
                == Some(entry.session) && after.evicted(in_use, idle_ms, later_ms).published(key)
                == Some(entry.session))
            &&& store.published(key) is None ==> after.records[key].active is None
            &&& other != key ==> after.records[other] == store.records[other]
            &&& after.records[key].in_doubt == store.records[key].in_doubt
            &&& after.records[key].recovery == store.records[key].recovery
            &&& after.records[key].receipt == store.records[key].receipt
            &&& after.records[key].pending_create == store.records[key].pending_create
        }),
{
    broadcast use crate::session_store::group_sound;

    crate::session_store::lemma_sound_record(store, key);
    let after = store.after_get(key, now_ms);
    if let Some(entry) = after.records[key].active {
        lemma_eviction_ends_only_idle_sessions(after, in_use, idle_ms, later_ms, key, entry);
    }
}

/// The proof of a responder lives for its whole lifetime and no longer; the
/// session of one that has run out ends with it, and nothing else changes.
pub proof fn lemma_proofs_run_out(
    store: StoreModel,
    now_ms: u64,
    key: SessionKeyModel,
    id: SessionId,
)
    requires
        store.sound(),
    ensures
        ({
            let after = store.expired(now_ms);
            let ran_out = |k: SessionKeyModel|
                store.records[k].recovery matches Some(proof) && now_ms >= proof.created_at
                    + INITIATOR_RECOVERY_LIFETIME_MS;
            &&& after.records[key].recovery == (if ran_out(key) {
                None
            } else {
                store.records[key].recovery
            })
            &&& after.records[key].active == store.records[key].active
            &&& after.records[key].in_doubt == store.records[key].in_doubt
            &&& after.records[key].receipt == store.records[key].receipt
            &&& after.records[key].pending_create == store.records[key].pending_create
            &&& after.sessions.dom() == store.sessions.dom()
            &&& ran_out(key) && (store.records[key].recovery->0).recovery.session == id ==> !after.sess(
                id,
            ).valid()
            &&& store.has(id) && (forall|k: SessionKeyModel| #[trigger]
                ran_out(k) ==> (store.records[k].recovery->0).recovery.session != id) ==> after.sess(id)
                == store.sess(id)
        }),
{
    let after = store.expired(now_ms);
    crate::session_store::lemma_sound_record(store, key);
    assert(after.sessions.dom() =~= store.sessions.dom());
    let ran_out = |k: SessionKeyModel|
        store.records[k].recovery matches Some(proof) && now_ms >= proof.created_at
            + INITIATOR_RECOVERY_LIFETIME_MS;
    if ran_out(key) && (store.records[key].recovery->0).recovery.session == id {
        assert(Set::<SessionKeyModel>::full().contains(key));
        assert(store.proof_expired_of(Set::full(), now_ms, id));
        assert(store.has(id));
    }
    if store.proof_expired_of(Set::full(), now_ms, id) {
        let k = choose|k: SessionKeyModel| #[trigger]
            Set::<SessionKeyModel>::full().contains(k) && store.rec(k).proof_expired(now_ms) && (
            store.rec(k).recovery->0).recovery.session == id;
        assert(ran_out(k));
    }
}

/// What an initiator can start: a creation where the key has neither a session nor
/// a claim, a join or a synchronization of the session that it has. Nothing starts
/// while a transition of the key is in doubt or owes a proof.
pub proof fn lemma_initiator_starts_what_it_can(
    store: StoreModel,
    quotas: SessionQuotas,
    key: SessionKeyModel,
    ask: InitiatorAsk,
    metadata_id: u128,
    now_ms: u64,
)
    requires
        store.sound(),
        store.records[key].in_doubt is None,
        store.records[key].recovery is None,
        quotas.in_doubt < MAX_IN_DOUBT_RESERVATIONS,
        store.next_session < u64::MAX,
    ensures
        ({
            let (after, body) = store.initiator_prepared(quotas, key, ask, metadata_id, now_ms);
            let published = store.published(key);
            let session = store.sessions[published->0];
            let fits = {
                &&& session.datagram.send_cipher_algorithm == ask.send_algorithm@
                &&& session.datagram.recv_cipher_algorithm == ask.recv_algorithm@
                &&& session.datagram.session_generation == ask.session_generation
                &&& ask.peer_static_pubkey matches Some(key) ==> (session.peer_static_pubkey
                    is None || session.peer_static_pubkey == Some(key)) && (
                session.pending_peer_static_pubkey is None || session.pending_peer_static_pubkey
                    == Some(key))
            };
            &&& ask.action == PeerSessionAction::Create ==> body is Ok == (
            store.records[key].pending_create is None && published is None && ask.root_key is Some)
            &&& ask.action == PeerSessionAction::Join ==> body is Ok == (published is Some && fits)
            &&& ask.action == PeerSessionAction::Sync ==> body is Ok == (published is Some && fits
                && store.records[key].pending_create is None && ask.root_key is Some
                && session.sync_epoch(Some(ask.initial_epoch)) is Ok)
            &&& body matches Ok(body) ==> {
                &&& body.action == ask.action
                &&& body.session_generation == ask.session_generation
                &&& body.initial_epoch == ask.initial_epoch
                &&& body.transition_id == ask.transition_id
                &&& ask.action != PeerSessionAction::Create ==> body.session == published->0
                &&& ask.action != PeerSessionAction::Join ==> Some(body.root_key) == ask.root_key
                &&& ask.action == PeerSessionAction::Join ==> body.root_key
                    == session.datagram.root_key && after == store
                &&& after.has(body.session)
                &&& ask.action != PeerSessionAction::Join || ask.peer_static_pubkey is None
                    || session.pending_peer_static_pubkey is None ==> after.commit_check(key, body)
                    is Ok
            }
        }),
{
    crate::session_store::lemma_sound_record(store, key);
}

/// What a responder can offer: a synchronization of the session that the key has,
/// or a new session, of generation one and epoch zero, where it has none.
pub proof fn lemma_responder_offers_what_it_can(
    store: StoreModel,
    key: SessionKeyModel,
    send_algorithm: Seq<char>,
    recv_algorithm: Seq<char>,
    peer_static_pubkey: Option<Key32>,
    seeds: ResponderSeeds,
    now_ms: u64,
)
    requires
        store.sound(),
        store.records[key].in_doubt is None,
        store.records[key].recovery is None,
        store.next_session < u64::MAX,
    ensures
        ({
            let (after, plan) = store.responder_staged(
                key,
                send_algorithm,
                recv_algorithm,
                peer_static_pubkey,
                false,
                seeds,
                now_ms,
            );
            let published = store.published(key);
            let session = store.sessions[published->0];
            &&& published is None ==> plan is Ok == (store.records[key].pending_create is None)
            &&& published is Some ==> plan is Ok == ({
                &&& session.datagram.send_cipher_algorithm == send_algorithm
                &&& session.datagram.recv_cipher_algorithm == recv_algorithm
                &&& session.pending_epoch is None
                &&& peer_static_pubkey matches Some(key) ==> (session.peer_static_pubkey is None
                    || session.peer_static_pubkey == Some(key)) && (
                session.pending_peer_static_pubkey is None || session.pending_peer_static_pubkey
                    == Some(key))
            })
            &&& plan matches Ok(plan) ==> {
                &&& plan.transition_id == seeds.transition_id
                &&& published is None ==> {
                    &&& plan.action == PeerSessionAction::Create
                    &&& plan.session_generation == 1
                    &&& plan.initial_epoch == 0
                    &&& plan.root_key == Some(seeds.root_key)
                    &&& !store.has(plan.session)
                    &&& after.sess(plan.session).datagram.root_key == seeds.root_key
                    &&& after.published(key) is None
                }
                &&& published is Some ==> {
                    &&& plan.action == PeerSessionAction::Sync
                    &&& plan.session == published->0
                    &&& plan.session_generation == session.datagram.session_generation
                    &&& plan.root_key == Some(session.datagram.root_key)
                    &&& session.sync_epoch(None) == Ok::<u32, SessionError>(plan.initial_epoch)
                    &&& after.published(key) == published
                }
            }
        }),
{
    crate::session_store::lemma_sound_record(store, key);
}

/// The two sides of a creation agree: after an initiator has taken up what a
/// responder offers, and both have committed it, both have published a session of
/// the same root key, generation and epoch, with the algorithms of the one that
/// sends for the one that receives.
pub proof fn lemma_both_sides_make_one_session(
    responder: StoreModel,
    initiator: StoreModel,
    quotas: SessionQuotas,
    key_of_initiator: SessionKeyModel,
    key_of_responder: SessionKeyModel,
    send_algorithm: Seq<char>,
    recv_algorithm: Seq<char>,
    peer_static_pubkey: Option<Key32>,
    seeds: ResponderSeeds,
    ask: InitiatorAsk,
    metadata_id: u128,
    now_ms: u64,
    later_ms: u64,
)
    requires
        responder.sound(),
        initiator.sound(),
        responder.published(key_of_initiator) is None,
        responder.staged_plan(
            key_of_initiator,
            send_algorithm,
            recv_algorithm,
            peer_static_pubkey,
            seeds,
            now_ms,
        ) is Ok,
        ({
            let plan = responder.staged_plan(
                key_of_initiator,
                send_algorithm,
                recv_algorithm,
                peer_static_pubkey,
                seeds,
                now_ms,
            )->Ok_0;
            &&& ask.action == plan.action
            &&& ask.session_generation == plan.session_generation
            &&& ask.root_key == plan.root_key
            &&& ask.initial_epoch == plan.initial_epoch
            &&& ask.transition_id == plan.transition_id
            &&& ask.send_algorithm@ == recv_algorithm
            &&& ask.recv_algorithm@ == send_algorithm
        }),
        initiator.initiator_prepared(quotas, key_of_responder, ask, metadata_id, now_ms).1 is Ok,
    ensures
        ({
            let (offered, plan) = responder.responder_staged(
                key_of_initiator,
                send_algorithm,
                recv_algorithm,
                peer_static_pubkey,
                false,
                seeds,
                now_ms,
            );
            let (active, result) = offered.plan_activated(key_of_initiator, plan->Ok_0, later_ms);
            let (prepared, body) = initiator.initiator_prepared(
                quotas,
                key_of_responder,
                ask,
                metadata_id,
                now_ms,
            );
            let taken = prepared.reservation_committed(key_of_responder, body->Ok_0, later_ms);
            let here = active.sess((plan->Ok_0).session);
            let there = taken.sess((body->Ok_0).session);
            &&& result is Ok
            &&& active.published(key_of_initiator) == Some((plan->Ok_0).session)
            &&& prepared.commit_check(key_of_responder, body->Ok_0) is Ok
            &&& taken.published(key_of_responder) == Some((body->Ok_0).session)
            &&& here.datagram.root_key == there.datagram.root_key
            &&& here.datagram.session_generation == there.datagram.session_generation
            &&& here.datagram.send_epoch == there.datagram.send_epoch
            &&& here.datagram.send_cipher_algorithm == there.datagram.recv_cipher_algorithm
            &&& here.datagram.recv_cipher_algorithm == there.datagram.send_cipher_algorithm
            &&& here.committed_history.len() > 0 && there.committed_history.len() > 0
            &&& here.committed_history.last().transition_id
                == there.committed_history.last().transition_id
            &&& here.peer_static_pubkey == peer_static_pubkey
            &&& there.peer_static_pubkey == ask.peer_static_pubkey
        }),
{
    crate::session_store::lemma_sound_record(responder, key_of_initiator);
    crate::session_store::lemma_sound_record(initiator, key_of_responder);
}

/// The two sides of a synchronization agree: after an initiator has taken up the
/// one that a responder offers, and both have committed it, both send under the
/// same root key, in the same generation and epoch.
pub proof fn lemma_both_sides_synchronize(
    responder: StoreModel,
    initiator: StoreModel,
    quotas: SessionQuotas,
    key_of_initiator: SessionKeyModel,
    key_of_responder: SessionKeyModel,
    send_algorithm: Seq<char>,
    recv_algorithm: Seq<char>,
    peer_static_pubkey: Option<Key32>,
    seeds: ResponderSeeds,
    ask: InitiatorAsk,
    metadata_id: u128,
    now_ms: u64,
    later_ms: u64,
)
    requires
        responder.sound(),
        initiator.sound(),
        responder.published(key_of_initiator) is Some,
        responder.staged_plan(
            key_of_initiator,
            send_algorithm,
            recv_algorithm,
            peer_static_pubkey,
            seeds,
            now_ms,
        ) is Ok,
        ({
            let plan = responder.staged_plan(
                key_of_initiator,
                send_algorithm,
                recv_algorithm,
                peer_static_pubkey,
                seeds,
                now_ms,
            )->Ok_0;
            &&& ask.action == plan.action
            &&& ask.session_generation == plan.session_generation
            &&& ask.root_key == plan.root_key
            &&& ask.initial_epoch == plan.initial_epoch
            &&& ask.transition_id == plan.transition_id
        }),
        initiator.initiator_prepared(quotas, key_of_responder, ask, metadata_id, now_ms).1 is Ok,
    ensures
        ({
            let (offered, plan) = responder.responder_staged(
                key_of_initiator,
                send_algorithm,
                recv_algorithm,
                peer_static_pubkey,
                false,
                seeds,
                now_ms,
            );
            let (active, result) = offered.plan_activated(key_of_initiator, plan->Ok_0, later_ms);
            let (prepared, body) = initiator.initiator_prepared(
                quotas,
                key_of_responder,
                ask,
                metadata_id,
                now_ms,
            );
            let taken = prepared.reservation_committed(key_of_responder, body->Ok_0, later_ms);
            let here = active.sess((plan->Ok_0).session);
            let there = taken.sess((body->Ok_0).session);
            &&& result is Ok
            &&& active.published(key_of_initiator) == responder.published(key_of_initiator)
            &&& prepared.commit_check(key_of_responder, body->Ok_0) is Ok
            &&& taken.published(key_of_responder) == initiator.published(key_of_responder)
            &&& here.datagram.root_key == there.datagram.root_key
            &&& here.datagram.session_generation == there.datagram.session_generation
            &&& here.datagram.send_epoch == there.datagram.send_epoch
            &&& here.pending_epoch is None && there.pending_epoch is None
        }),
{
    reveal(DatagramModel::synchronized);
    crate::session_store::lemma_sound_record(responder, key_of_initiator);
    crate::session_store::lemma_sound_record(initiator, key_of_responder);
}

impl StoreModel {
    /// What a responder would offer.
    pub open spec fn staged_plan(
        self,
        key: SessionKeyModel,
        send_algorithm: Seq<char>,
        recv_algorithm: Seq<char>,
        peer_static_pubkey: Option<Key32>,
        seeds: ResponderSeeds,
        now_ms: u64,
    ) -> Result<ResponderPlan, SessionError> {
        self.responder_staged(
            key,
            send_algorithm,
            recv_algorithm,
            peer_static_pubkey,
            false,
            seeds,
            now_ms,
        ).1
    }
}

/// A reservation that was overtaken does not become active: whatever became of its
/// claim, of its session or of the revision that it was made with.
pub proof fn lemma_overtaken_reservations_are_refused(
    store: StoreModel,
    key: SessionKeyModel,
    body: ReservationBody,
)
    ensures
        body.action == PeerSessionAction::Create && (store.records[key].pending_create != Some(
            body.session,
        ) || store.published(key) is Some || !store.sess(body.session).valid() || store.sess(
            body.session,
        ).revision != body.transition_revision) ==> store.commit_check(key, body) is Err,
        body.action != PeerSessionAction::Create && !(store.records[key].active matches Some(entry)
            && entry.session == body.session) ==> store.commit_check(key, body) is Err,
        body.action != PeerSessionAction::Create && store.sess(body.session).revision
            != body.transition_revision ==> store.commit_check(key, body) is Err,
        body.action == PeerSessionAction::Sync && (store.sess(body.session).pending_epoch != Some(
            body.initial_epoch,
        ) || !store.sess(body.session).valid()) ==> store.commit_check(key, body) is Err,
{
}

/// Where the records of a key are cleared, nothing is left of them: the sessions
/// that it published or was about to make are over, and no other key is touched.
pub proof fn lemma_cleared_key_has_nothing(
    store: StoreModel,
    key: SessionKeyModel,
    other: SessionKeyModel,
)
    requires
        store.sound(),
        store.records.contains_key(key),
    ensures
        ({
            let after = store.cleared(key);
            &&& after.records[key].active is None
            &&& after.records[key].pending_create is None
            &&& after.records[key].in_doubt is None
            &&& after.records[key].recovery is None
            &&& after.records[key].receipt is None
            &&& after.published(key) is None
            &&& other != key ==> after.records[other] == store.records[other]
            &&& store.records[key].active matches Some(entry) ==> !after.sess(entry.session).valid()
            &&& store.records[key].pending_create matches Some(id) ==> !after.sess(id).valid()
        }),
{
    crate::session_store::lemma_sound_record(store, key);
}

/// A proof or a transition in doubt is found only by its own identity: the key and
/// every authenticated field have to agree, and the local revision does not matter.
pub proof fn lemma_identities_are_exact(a: IdentityModel, b: IdentityModel)
    ensures
        a.authenticated_as(b) == (a.key == b.key && a.fields.session_metadata_id
            == b.fields.session_metadata_id && a.fields.action == b.fields.action
            && a.fields.session_generation == b.fields.session_generation && a.fields.initial_epoch
            == b.fields.initial_epoch && a.fields.transition_id == b.fields.transition_id
            && a.fields.root_key_digest == b.fields.root_key_digest),
        a.fields.authenticated_as(b.fields) == b.fields.authenticated_as(a.fields),
{
}

/// Every slot that is taken can be given back, and giving one back frees one.
pub proof fn lemma_slots_come_back(quotas: SessionQuotas)
    requires
        within_bounds(quotas),
    ensures
        quotas.with_in_doubt().without_in_doubt() == quotas,
        quotas.with_recovery().without_recovery() == quotas,
        quotas.with_receipt().without_receipt() == quotas,
        quotas.with_in_doubt().in_doubt == quotas.in_doubt + 1,
        quotas.with_recovery().responder_recoveries == quotas.responder_recoveries + 1,
        quotas.with_receipt().initiator_receipts == quotas.initiator_receipts + 1,
        quotas.in_doubt > 0 ==> quotas.without_in_doubt().in_doubt == quotas.in_doubt - 1,
        quotas.responder_recoveries > 0 ==> quotas.without_recovery().responder_recoveries
            == quotas.responder_recoveries - 1,
        quotas.initiator_receipts > 0 ==> quotas.without_receipt().initiator_receipts
            == quotas.initiator_receipts - 1,
{
}

} // verus!
