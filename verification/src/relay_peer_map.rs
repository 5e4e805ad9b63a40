//! All relay peers of a node.

use vstd::prelude::*;
use crate::bytes::Key32;
use crate::code_table::CodeTable;
use crate::packet::{Packet, PacketModel, PeerId};
use crate::relay_auth::RelayAuthority;
use crate::relay_dial::HandshakeDispatch;
use crate::relay_peer::RelayPeer;
use crate::relay_queue::RelayBudget;
use crate::relay_wire::RelayError;
use crate::session_store::{PeerSessionStore, SessionId, SessionQuotas, StoreModel};
use crate::session_types::{SessionKey, SessionKeyModel};

verus! {

/// The relay peers of a node in one network.
pub struct RelayPeerMap {
    my_peer_id: PeerId,
    network_name: String,
    peers: CodeTable<RelayPeer>,
}

/// What relay peers share.
pub struct RelayTotals {
    pub store: StoreModel,
    pub quotas: SessionQuotas,
    pub budget: RelayBudget,
}

/// Whether the pending answer of a peer was waited for too long.
pub open spec fn is_late(peer: RelayPeer, now_ms: u64) -> bool {
    peer.responder is Some && peer.responder->0.deadline <= now_ms
}

/// Whether a peer was not active for long enough.
pub open spec fn is_idle(peer: RelayPeer, idle_ms: u64, now_ms: u64) -> bool {
    peer.state matches Some(state) && crate::clock::elapsed(
        state.last_active_at,
        now_ms,
    ) > idle_ms
}

/// What is shared after the pending answer of a peer was given up.
pub open spec fn answer_given_up(peer: RelayPeer, totals: RelayTotals) -> RelayTotals {
    RelayTotals {
        store: peer.canceled_store(totals.store, None),
        quotas: peer.canceled_quotas(totals.store, totals.quotas, None),
        budget: totals.budget,
    }
}

/// What is shared after a peer was removed.
pub open spec fn peer_given_up(peer: RelayPeer, totals: RelayTotals) -> RelayTotals {
    RelayTotals {
        budget: match peer.send {
            Some(state) => totals.budget.released(
                state.queued_bytes as int,
                state.packets@.len() + state.in_flight,
            ),
            None => totals.budget,
        },
        ..answer_given_up(peer, totals)
    }
}

/// What is left of a peer after its removal: a reset that it was asked for, and
/// a receipt where that is kept.
pub open spec fn removed_as(peer: RelayPeer, keep_receipt: bool, after: RelayPeer) -> bool {
    &&& after.reset_ack == peer.reset_ack
    &&& after.receipt == (if keep_receipt {
        peer.receipt
    } else {
        None
    })
    &&& RelayPeer { reset_ack: None, receipt: None, ..after }.is_blank()
}

/// The peers after what is known of one was put back. Nothing is kept of a peer
/// of which nothing is known.
pub open spec fn with_peer(peers: Map<u64, RelayPeer>, id: u64, peer: RelayPeer) -> Map<u64, RelayPeer> {
    if peer.is_blank() {
        peers.remove(id)
    } else {
        peers.insert(id, peer)
    }
}

/// What is kept under an identifier, if anything is.
pub open spec fn slot(peers: Map<u64, RelayPeer>, id: u64) -> Option<RelayPeer> {
    if peers.contains_key(id) {
        Some(peers[id])
    } else {
        None
    }
}

/// Whether this is all that is known of a peer.
pub open spec fn known_in(peers: Map<u64, RelayPeer>, id: u64, peer: RelayPeer) -> bool {
    match slot(peers, id) {
        Some(kept) => peer == kept,
        None => peer.is_blank(),
    }
}

/// Whether a session for data is at hand, and what looking for one changes.
pub open spec fn ensured(
    peers: Map<u64, RelayPeer>,
    store: StoreModel,
    authority: RelayAuthority,
    key: SessionKeyModel,
    session: Result<SessionId, RelayError>,
    peers_after: Map<u64, RelayPeer>,
) -> bool {
    exists|peer: RelayPeer|
        {
            let looked = crate::relay_dial::session_ensured(
                peer,
                store,
                authority,
                key,
                key.peer_id,
            );
            &&& #[trigger] known_in(peers, key.peer_id as u64, peer)
            &&& session == looked.0
            &&& peers_after == with_peer(peers, key.peer_id as u64, looked.1)
        }
}

/// Where a handshake packet goes, and what that changes for its sender.
pub open spec fn dispatched_in(
    peers: Map<u64, RelayPeer>,
    packet: PacketModel,
    dispatch: Result<HandshakeDispatch, RelayError>,
    peers_after: Map<u64, RelayPeer>,
) -> bool {
    match packet.header {
        None => dispatch == Err::<HandshakeDispatch, RelayError>(RelayError::NoHeader) && peers_after
            == peers,
        Some(header) => exists|peer: RelayPeer|
            {
                let sent = crate::relay_dial::dispatched(peer, packet);
                &&& #[trigger] known_in(peers, header.from_peer_id as u64, peer)
                &&& dispatch == sent.0
                &&& peers_after == with_peer(peers, header.from_peer_id as u64, sent.1)
            },
    }
}

/// What a sweep leaves of a peer.
pub open spec fn swept_as(peer: RelayPeer, idle_ms: u64, now_ms: u64, left: Option<RelayPeer>) -> bool {
    if is_idle(peer, idle_ms, now_ms) {
        match left {
            Some(after) => {
                &&& peer.reset_ack is Some || peer.receipt is Some
                &&& removed_as(peer, true, after)
            },
            None => peer.reset_ack is None && peer.receipt is None,
        }
    } else {
        left == Some(peer)
    }
}

/// A peer after a late answer was given up.
pub open spec fn without_late_answer(peer: RelayPeer, now_ms: u64) -> RelayPeer {
    if is_late(peer, now_ms) {
        RelayPeer { responder_reset: None, ..peer.canceled_peer(None) }
    } else {
        peer
    }
}

/// What is shared after the late answers of the first `n` peers were given up.
pub open spec fn late_answers_given_up(
    order: Seq<u64>,
    peers: Map<u64, RelayPeer>,
    n: int,
    totals: RelayTotals,
    now_ms: u64,
) -> RelayTotals
    decreases n,
{
    if n <= 0 {
        totals
    } else {
        let before = late_answers_given_up(order, peers, n - 1, totals, now_ms);
        let peer = peers[order[n - 1]];
        if is_late(peer, now_ms) {
            answer_given_up(peer, before)
        } else {
            before
        }
    }
}

/// What is shared after the idle ones of the first `n` peers were removed.
pub open spec fn idle_peers_given_up(
    order: Seq<u64>,
    peers: Map<u64, RelayPeer>,
    n: int,
    totals: RelayTotals,
    idle_ms: u64,
    now_ms: u64,
) -> RelayTotals
    decreases n,
{
    if n <= 0 {
        totals
    } else {
        let before = idle_peers_given_up(order, peers, n - 1, totals, idle_ms, now_ms);
        let peer = peers[order[n - 1]];
        if is_idle(peer, idle_ms, now_ms) {
            peer_given_up(peer, before)
        } else {
            before
        }
    }
}

/// A peer goes on agreeing with a store that keeps its sessions.
pub proof fn lemma_peer_wf_kept(peer: RelayPeer, before: StoreModel, after: StoreModel)
    requires
        peer.wf(before),
        crate::relay_peer::keeps_sessions(before, after),
    ensures
        peer.wf(after),
{
}

impl View for RelayPeerMap {
    type V = Map<u64, RelayPeer>;

    closed spec fn view(&self) -> Map<u64, RelayPeer> {
        self.peers@
    }
}

impl RelayPeerMap {
    pub closed spec fn table_wf(self) -> bool {
        self.peers.wf()
    }

    pub closed spec fn network(self) -> Seq<char> {
        self.network_name@
    }

    pub closed spec fn me(self) -> PeerId {
        self.my_peer_id
    }

    /// The peers in the order in which they are walked.
    pub closed spec fn order(self) -> Seq<u64> {
        self.peers.codes()
    }

    /// Every peer agrees with the session store.
    pub open spec fn wf(self, store: StoreModel) -> bool {
        &&& self.table_wf()
        &&& forall|id: u64| #[trigger] self@.contains_key(id) ==> self@[id].wf(store)
    }

    /// What is kept for a peer, if anything is.
    pub open spec fn peer(self, peer_id: PeerId) -> Option<RelayPeer> {
        slot(self@, peer_id as u64)
    }


    pub fn new(my_peer_id: PeerId, network_name: String) -> (map: Self)
        ensures
            forall|store: StoreModel| #[trigger] map.wf(store),
            map@ == Map::<u64, RelayPeer>::empty(),
            map.me() == my_peer_id,
            map.network() == network_name@,
    {
        RelayPeerMap { my_peer_id, network_name, peers: CodeTable::new() }
    }

    pub fn my_peer_id(&self) -> (id: PeerId)
        ensures
            id == self.me(),
    {
        self.my_peer_id
    }

    /// The key of the sessions with a peer.
    pub fn session_key(&self, peer_id: PeerId) -> (key: SessionKey)
        ensures
            key@ == (SessionKeyModel { network_name: self.network(), peer_id }),
    {
        SessionKey::new(self.network_name.clone(), peer_id)
    }

    /// Hands out what is kept for a peer. It has to be put back.
    pub fn take_peer(&mut self, peer_id: PeerId) -> (peer: RelayPeer)
        requires
            old(self).table_wf(),
        ensures
            final(self).table_wf(),
            final(self).me() == old(self).me(),
            final(self).network() == old(self).network(),
            final(self)@ == old(self)@.remove(peer_id as u64),
            known_in(old(self)@, peer_id as u64, peer),
            old(self).peer(peer_id) is None ==> forall|store: StoreModel| #[trigger] peer.wf(store),
    {
        match self.peers.remove(peer_id as u64) {
            Some(peer) => peer,
            None => RelayPeer::new(),
        }
    }

    /// Puts back what is kept for a peer. Nothing is kept of a blank one.
    pub fn put_peer(&mut self, peer_id: PeerId, peer: RelayPeer)
        requires
            old(self).table_wf(),
        ensures
            final(self).table_wf(),
            final(self).me() == old(self).me(),
            final(self).network() == old(self).network(),
            final(self)@ == with_peer(old(self)@, peer_id as u64, peer),
    {
        self.keep(peer_id as u64, peer);
    }

    fn keep(&mut self, id: u64, peer: RelayPeer)
        requires
            old(self).table_wf(),
        ensures
            final(self).table_wf(),
            final(self).me() == old(self).me(),
            final(self).network() == old(self).network(),
            final(self)@ == with_peer(old(self)@, id, peer),
    {
        if peer.blank() {
            let _ = self.peers.remove(id);
        } else {
            let _ = self.peers.insert(id, peer);
        }
    }

    pub fn has_state(&self, peer_id: PeerId) -> (has: bool)
        requires
            self.table_wf(),
        ensures
            has == (self.peer(peer_id) matches Some(peer) && peer.state is Some),
    {
        match self.peers.get(peer_id as u64) {
            Some(peer) => peer.state.is_some(),
            None => false,
        }
    }

    pub fn failure_count(&self, peer_id: PeerId) -> (count: Option<u32>)
        requires
            self.table_wf(),
        ensures
            count == (match self.peer(peer_id) {
                Some(peer) => match peer.state {
                    Some(state) => Some(state.failure_count),
                    None => None,
                },
                None => None,
            }),
    {
        match self.peers.get(peer_id as u64) {
            Some(peer) => match peer.state {
                Some(state) => Some(state.failure_count),
                None => None,
            },
            None => None,
        }
    }

    pub fn is_backoff_active(&self, peer_id: PeerId, now_ms: u64) -> (active: bool)
        requires
            self.table_wf(),
        ensures
            active == (self.peer(peer_id) matches Some(peer) && peer.backoff_active(now_ms)),
    {
        match self.peers.get(peer_id as u64) {
            Some(peer) => peer.is_backoff_active(now_ms),
            None => false,
        }
    }

    /// Whether there is a session with a peer. It counts as used now.
    pub fn has_session(&self, store: &mut PeerSessionStore, peer_id: PeerId, now_ms: u64) -> (has:
        bool)
        requires
            old(store).wf(),
        ensures
            final(store).wf(),
            ({
                let key = SessionKeyModel { network_name: self.network(), peer_id };
                &&& has == (old(store)@.published(key) is Some)
                &&& final(store)@ == old(store)@.after_get(key, now_ms)
            }),
    {
        let key = self.session_key(peer_id);
        store.get(&key, now_ms).is_some()
    }

    /// The session for data to a peer. Where there is none, a handshake has to be
    /// started, unless an answer of this node waits to be confirmed.
    pub fn ensure_session(
        &mut self,
        store: &mut PeerSessionStore,
        authority: &RelayAuthority,
        peer_id: PeerId,
        now_ms: u64,
    ) -> (session: Result<SessionId, RelayError>)
        requires
            old(store).wf(),
            old(self).wf(old(store)@),
        ensures
            final(store).wf(),
            final(self).wf(final(store)@),
            final(self).me() == old(self).me(),
            final(self).network() == old(self).network(),
            session matches Ok(id) ==> final(store)@.has(id),
            ({
                let key = SessionKeyModel { network_name: old(self).network(), peer_id };
                &&& final(store)@ == old(store)@.after_get(key, now_ms)
                &&& ensured(
                    old(self)@,
                    old(store)@,
                    *authority,
                    key,
                    session,
                    final(self)@,
                )
            }),
    {
        let key = self.session_key(peer_id);
        let mut peer = self.take_peer(peer_id);
        let ghost known = peer;
        let session = peer.ensure_session(store, authority, &key, peer_id, now_ms);
        let ghost after = peer;
        self.put_peer(peer_id, peer);
        proof {
            let looked = crate::relay_dial::session_ensured(
                known,
                old(store)@,
                *authority,
                key@,
                key@.peer_id,
            );
            assert((session, after) == looked);
            assert(self@ =~= with_peer(old(self)@, peer_id as u64, looked.1));
            assert(known_in(old(self)@, key@.peer_id as u64, known));
            assert forall|id: u64| #[trigger] self@.contains_key(id) implies self@[id].wf(
                store@,
            ) by {
                if id != peer_id as u64 {
                    assert(old(self)@.contains_key(id));
                    lemma_peer_wf_kept(old(self)@[id], old(store)@, store@);
                }
            }
        }
        session
    }

    /// Decides where a handshake packet goes.
    pub fn handle_handshake_packet(&mut self, packet: &Packet) -> (dispatch: Result<
        HandshakeDispatch,
        RelayError,
    >)
        requires
            old(self).table_wf(),
        ensures
            final(self).table_wf(),
            final(self).me() == old(self).me(),
            final(self).network() == old(self).network(),
            forall|store: StoreModel| #[trigger] old(self).wf(store) ==> final(self).wf(store),
            dispatched_in(old(self)@, packet@, dispatch, final(self)@),
    {
        let from: PeerId = match packet.header {
            Some(header) => header.from_peer_id,
            None => {
                return Err(RelayError::NoHeader);
            },
        };
        let mut peer = self.take_peer(from);
        let ghost known = peer;
        let dispatch = peer.handle_handshake_packet(packet);
        let ghost after = peer;
        self.put_peer(from, peer);
        proof {
            assert(self@ =~= with_peer(old(self)@, from as u64, after));
            assert(known_in(old(self)@, from as u64, known));
            assert forall|store: StoreModel| #[trigger] old(self).wf(store) implies self.wf(
                store,
            ) by {
                assert forall|id: u64| #[trigger] self@.contains_key(id) implies self@[id].wf(
                    store,
                ) by {
                    if old(self)@.contains_key(id) {
                        assert(old(self)@[id].wf(store));
                    }
                }
            }
        }
        dispatch
    }

    /// Clears the durable session records of a peer after its verified removal.
    ///
    /// The static key must come from the authenticated record of the peer. With
    /// another key the records stay.
    pub fn clear_peer_session_records_if_static_key_matches(
        &self,
        store: &mut PeerSessionStore,
        quotas: &mut SessionQuotas,
        peer_id: PeerId,
        peer_static_pubkey: Key32,
    ) -> (cleared: bool)
        requires
            old(store).wf(),
        ensures
            final(store).wf(),
            ({
                let key = SessionKeyModel { network_name: self.network(), peer_id };
                &&& cleared == (old(store)@.has_records(key) && old(store)@.records_owned_by(
                    key,
                    peer_static_pubkey,
                ))
                &&& cleared ==> final(store)@ == old(store)@.cleared(key) && *final(quotas)
                    == crate::initiator_records::record_released(
                    *old(quotas),
                    old(store)@.rec(key),
                )
                &&& !cleared ==> final(store)@ == old(store)@ && *final(quotas) == *old(quotas)
            }),
    {
        let key = self.session_key(peer_id);
        store.clear_peer_records_if_static_key_matches(quotas, &key, peer_static_pubkey)
    }

    /// Removes a peer from the table and gives back what it holds.
    fn retire(
        peer: RelayPeer,
        store: &mut PeerSessionStore,
        quotas: &mut SessionQuotas,
        budget: &mut RelayBudget,
        keep_receipt: bool,
    ) -> (left: RelayPeer)
        requires
            old(store).wf(),
            peer.wf(old(store)@),
        ensures
            final(store).wf(),
            crate::relay_peer::keeps_sessions(old(store)@, final(store)@),
            left.wf(final(store)@),
            removed_as(peer, keep_receipt, left),
            (RelayTotals { store: final(store)@, quotas: *final(quotas), budget: *final(budget) })
                == peer_given_up(
                peer,
                RelayTotals { store: old(store)@, quotas: *old(quotas), budget: *old(budget) },
            ),
    {
        let mut peer = peer;
        peer.cancel_pending_responder_handshake(store, quotas, None);
        match peer.send.take() {
            Some(mut state) => {
                state.close(budget);
            },
            None => {},
        }
        let mut left = RelayPeer::new();
        left.reset_ack = peer.reset_ack;
        if keep_receipt {
            left.receipt = peer.receipt;
        }
        left
    }

    /// Removes the relay state of a peer. A session stays in the session store:
    /// its lifetime does not depend on the kind of connection.
    ///
    /// Whoever drives a confirmation or sends a receipt of the peer has to be
    /// told that it is gone.
    pub fn remove_peer(
        &mut self,
        store: &mut PeerSessionStore,
        quotas: &mut SessionQuotas,
        budget: &mut RelayBudget,
        peer_id: PeerId,
    )
        requires
            old(store).wf(),
            old(self).wf(old(store)@),
        ensures
            final(store).wf(),
            final(self).wf(final(store)@),
            final(self).me() == old(self).me(),
            final(self).network() == old(self).network(),
            crate::relay_peer::keeps_sessions(old(store)@, final(store)@),
            match old(self).peer(peer_id) {
                Some(peer) => {
                    &&& if peer.reset_ack is Some {
                        &&& removed_as(peer, false, final(self)@[peer_id as u64])
                        &&& final(self)@ == old(self)@.insert(
                            peer_id as u64,
                            final(self)@[peer_id as u64],
                        )
                    } else {
                        final(self)@ == old(self)@.remove(peer_id as u64)
                    }
                    &&& (RelayTotals {
                        store: final(store)@,
                        quotas: *final(quotas),
                        budget: *final(budget),
                    }) == peer_given_up(
                        peer,
                        RelayTotals {
                            store: old(store)@,
                            quotas: *old(quotas),
                            budget: *old(budget),
                        },
                    )
                },
                None => {
                    &&& final(self)@ == old(self)@
                    &&& final(store)@ == old(store)@
                    &&& *final(quotas) == *old(quotas)
                    &&& *final(budget) == *old(budget)
                },
            },
    {
        match self.peers.remove(peer_id as u64) {
            None => {
                assert(self@ =~= old(self)@);
            },
            Some(peer) => {
                let left = RelayPeerMap::retire(peer, store, quotas, budget, false);
                let ghost rest = left;
                self.keep(peer_id as u64, left);
                proof {
                    if peer.reset_ack is Some {
                        assert(self@ =~= old(self)@.insert(peer_id as u64, rest));
                    } else {
                        assert(self@ =~= old(self)@.remove(peer_id as u64));
                    }
                    assert forall|id: u64| #[trigger] self@.contains_key(id) implies self@[id].wf(
                        store@,
                    ) by {
                        if id != peer_id as u64 {
                            assert(old(self)@.contains_key(id));
                            lemma_peer_wf_kept(old(self)@[id], old(store)@, store@);
                        }
                    }
                }
            },
        }
    }

    fn ids(&self) -> (ids: Vec<u64>)
        requires
            self.table_wf(),
        ensures
            ids@ == self.order(),
            forall|id: u64| #[trigger] self@.contains_key(id) <==> ids@.contains(id),
            ids@.no_duplicates(),
    {
        let mut ids: Vec<u64> = Vec::new();
        let mut i: usize = 0;
        while i < self.peers.len()
            invariant
                i <= self.peers.codes().len(),
                ids@ == self.peers.codes().take(i as int),
            decreases self.peers.codes().len() - i,
        {
            ids.push(self.peers.code_at(i));
            i = i + 1;
            assert(ids@ =~= self.peers.codes().take(i as int));
        }
        assert(ids@ =~= self.peers.codes());
        proof {
            self.peers.lemma_codes();
        }
        ids
    }

    fn give_up_late_answers(
        &mut self,
        store: &mut PeerSessionStore,
        quotas: &mut SessionQuotas,
        ids: &Vec<u64>,
        now_ms: u64,
    )
        requires
            old(store).wf(),
            old(self).wf(old(store)@),
            forall|id: u64| #[trigger] old(self)@.contains_key(id) <==> ids@.contains(id),
            ids@.no_duplicates(),
        ensures
            final(store).wf(),
            final(self).wf(final(store)@),
            final(self).me() == old(self).me(),
            final(self).network() == old(self).network(),
            crate::relay_peer::keeps_sessions(old(store)@, final(store)@),
            final(self)@ == old(self)@.map_values(
                |peer: RelayPeer| without_late_answer(peer, now_ms),
            ),
            forall|budget: RelayBudget|
                (RelayTotals { store: final(store)@, quotas: *final(quotas), budget })
                    == #[trigger] late_answers_given_up(
                    ids@,
                    old(self)@,
                    ids@.len() as int,
                    RelayTotals { store: old(store)@, quotas: *old(quotas), budget },
                    now_ms,
                ),
    {
        let ghost before = self@;
        let ghost start = store@;
        let ghost start_quotas = *quotas;
        let mut i: usize = 0;
        while i < ids.len()
            invariant
                store.wf(),
                self.table_wf(),
                self.me() == old(self).me(),
                self.network() == old(self).network(),
                before == old(self)@,
                i <= ids@.len(),
                ids@.no_duplicates(),
                forall|id: u64| #[trigger] before.contains_key(id) <==> ids@.contains(id),
                self@.dom() == before.dom(),
                crate::relay_peer::keeps_sessions(start, store@),
                forall|id: u64| #[trigger] self@.contains_key(id) ==> self@[id].wf(store@),
                forall|k: int|
                    0 <= k < i ==> self@[#[trigger] ids@[k]] == without_late_answer(
                        before[ids@[k]],
                        now_ms,
                    ),
                forall|k: int| i <= k < ids@.len() ==> self@[#[trigger] ids@[k]] == before[ids@[k]],
                forall|budget: RelayBudget|
                    (RelayTotals { store: store@, quotas: *quotas, budget })
                        == #[trigger] late_answers_given_up(
                        ids@,
                        before,
                        i as int,
                        RelayTotals { store: start, quotas: start_quotas, budget },
                        now_ms,
                    ),
            decreases ids@.len() - i,
        {
            let id: u64 = ids[i];
            let ghost held = self@;
            let ghost held_store = store@;
            let ghost held_quotas = *quotas;
            assert(ids@.contains(id));
            assert(held.contains_key(id));
            let mut peer = self.peers.remove(id).unwrap();
            let late = match &peer.responder {
                Some(pending) => pending.deadline <= now_ms,
                None => false,
            };
            if late {
                peer.cancel_pending_responder_handshake(store, quotas, None);
                peer.cancel_pending_responder_reset(None);
            }
            let ghost changed = peer;
            let _ = self.peers.insert(id, peer);
            proof {
                assert(self@ =~= held.insert(id, changed));
                assert(self@.dom() =~= before.dom());
                assert forall|other: u64| #[trigger] self@.contains_key(other) implies self@[other].wf(
                    store@,
                ) by {
                    if other != id {
                        assert(held.contains_key(other));
                        lemma_peer_wf_kept(held[other], held_store, store@);
                    }
                }
                assert forall|k: int| i + 1 <= k < ids@.len() implies self@[#[trigger] ids@[k]]
                    == before[ids@[k]] by {
                    assert(ids@[k] != ids@[i as int]);
                }
                assert forall|k: int| 0 <= k < i + 1 implies self@[#[trigger] ids@[k]]
                    == without_late_answer(before[ids@[k]], now_ms) by {
                    if k < i {
                        assert(ids@[k] != ids@[i as int]);
                    }
                }
                assert forall|budget: RelayBudget|
                    (RelayTotals { store: store@, quotas: *quotas, budget })
                        == #[trigger] late_answers_given_up(
                        ids@,
                        before,
                        i + 1,
                        RelayTotals { store: start, quotas: start_quotas, budget },
                        now_ms,
                    ) by {
                    assert((RelayTotals { store: held_store, quotas: held_quotas, budget })
                        == late_answers_given_up(
                        ids@,
                        before,
                        i as int,
                        RelayTotals { store: start, quotas: start_quotas, budget },
                        now_ms,
                    ));
                }
            }
            i = i + 1;
        }
        proof {
            assert forall|id: u64| #[trigger] self@.contains_key(id) implies self@[id]
                == without_late_answer(before[id], now_ms) by {
                assert(before.contains_key(id));
                let k = ids@.index_of(id);
                assert(ids@[k] == id);
            }
            assert(self@ =~= before.map_values(
                |peer: RelayPeer| without_late_answer(peer, now_ms),
            ));
        }
    }

    fn remove_idle(
        &mut self,
        store: &mut PeerSessionStore,
        quotas: &mut SessionQuotas,
        budget: &mut RelayBudget,
        ids: &Vec<u64>,
        idle_ms: u64,
        now_ms: u64,
    )
        requires
            old(store).wf(),
            old(self).wf(old(store)@),
            forall|id: u64| #[trigger] old(self)@.contains_key(id) <==> ids@.contains(id),
            ids@.no_duplicates(),
        ensures
            final(store).wf(),
            final(self).wf(final(store)@),
            final(self).me() == old(self).me(),
            final(self).network() == old(self).network(),
            crate::relay_peer::keeps_sessions(old(store)@, final(store)@),
            forall|id: u64| #[trigger]
                final(self)@.contains_key(id) ==> old(self)@.contains_key(id),
            forall|id: u64| #[trigger]
                old(self)@.contains_key(id) ==> swept_as(
                    old(self)@[id],
                    idle_ms,
                    now_ms,
                    slot(final(self)@, id),
                ),
            (RelayTotals { store: final(store)@, quotas: *final(quotas), budget: *final(budget) })
                == idle_peers_given_up(
                ids@,
                old(self)@,
                ids@.len() as int,
                RelayTotals { store: old(store)@, quotas: *old(quotas), budget: *old(budget) },
                idle_ms,
                now_ms,
            ),
    {
        let ghost before = self@;
        let ghost start = RelayTotals { store: store@, quotas: *quotas, budget: *budget };
        let mut i: usize = 0;
        while i < ids.len()
            invariant
                store.wf(),
                self.table_wf(),
                self.me() == old(self).me(),
                self.network() == old(self).network(),
                before == old(self)@,
                i <= ids@.len(),
                ids@.no_duplicates(),
                forall|id: u64| #[trigger] before.contains_key(id) <==> ids@.contains(id),
                forall|id: u64| #[trigger] self@.contains_key(id) ==> before.contains_key(id),
                crate::relay_peer::keeps_sessions(start.store, store@),
                forall|id: u64| #[trigger] self@.contains_key(id) ==> self@[id].wf(store@),
                forall|k: int|
                    0 <= k < i ==> swept_as(
                        before[#[trigger] ids@[k]],
                        idle_ms,
                        now_ms,
                        slot(self@, ids@[k]),
                    ),
                forall|k: int|
                    i <= k < ids@.len() ==> slot(self@, #[trigger] ids@[k]) == Some(before[ids@[k]]),
                (RelayTotals { store: store@, quotas: *quotas, budget: *budget })
                    == idle_peers_given_up(ids@, before, i as int, start, idle_ms, now_ms),
            decreases ids@.len() - i,
        {
            let id: u64 = ids[i];
            let ghost held = self@;
            let ghost held_store = store@;
            assert(ids@.contains(id));
            assert(slot(held, ids@[i as int]) == Some(before[id]));
            let peer = self.peers.remove(id).unwrap();
            let idle = match peer.state {
                Some(state) => crate::clock::time_since(state.last_active_at, now_ms) > idle_ms,
                None => false,
            };
            if idle {
                let left = RelayPeerMap::retire(peer, store, quotas, budget, true);
                self.keep(id, left);
            } else {
                let _ = self.peers.insert(id, peer);
            }
            proof {
                assert(forall|other: u64|
                    other != id ==> #[trigger] self@.contains_key(other) == held.contains_key(other)
                        && slot(self@, other) == slot(held, other));
                assert(swept_as(before[id], idle_ms, now_ms, slot(self@, id)));
                assert forall|other: u64| #[trigger] self@.contains_key(other) implies self@[other].wf(
                    store@,
                ) by {
                    if other != id {
                        assert(held.contains_key(other));
                        lemma_peer_wf_kept(held[other], held_store, store@);
                    }
                }
                assert forall|k: int| i + 1 <= k < ids@.len() implies slot(
                    self@,
                    #[trigger] ids@[k],
                ) == Some(before[ids@[k]]) by {
                    assert(ids@[k] != ids@[i as int]);
                    assert(slot(self@, ids@[k]) == slot(held, ids@[k]));
                }
                assert forall|k: int| 0 <= k < i + 1 implies swept_as(
                    before[#[trigger] ids@[k]],
                    idle_ms,
                    now_ms,
                    slot(self@, ids@[k]),
                ) by {
                    if k < i {
                        assert(ids@[k] != ids@[i as int]);
                        assert(slot(self@, ids@[k]) == slot(held, ids@[k]));
                    }
                }
            }
            i = i + 1;
        }
        proof {
            assert forall|id: u64| #[trigger] before.contains_key(id) implies swept_as(
                before[id],
                idle_ms,
                now_ms,
                slot(self@, id),
            ) by {
                let k = ids@.index_of(id);
                assert(ids@[k] == id);
            }
        }
    }

    /// Gives up answers that were waited for too long, and removes the peers
    /// that were idle for longer than `idle_ms`.
    pub fn evict_idle_sessions(
        &mut self,
        store: &mut PeerSessionStore,
        quotas: &mut SessionQuotas,
        budget: &mut RelayBudget,
        idle_ms: u64,
        now_ms: u64,
    )
        requires
            old(store).wf(),
            old(self).wf(old(store)@),
        ensures
            final(store).wf(),
            final(self).wf(final(store)@),
            final(self).me() == old(self).me(),
            final(self).network() == old(self).network(),
            crate::relay_peer::keeps_sessions(old(store)@, final(store)@),
            forall|id: u64| #[trigger]
                final(self)@.contains_key(id) ==> old(self)@.contains_key(id),
            forall|id: u64| #[trigger]
                old(self)@.contains_key(id) ==> swept_as(
                    without_late_answer(old(self)@[id], now_ms),
                    idle_ms,
                    now_ms,
                    slot(final(self)@, id),
                ),
            (RelayTotals { store: final(store)@, quotas: *final(quotas), budget: *final(budget) })
                == idle_peers_given_up(
                old(self).order(),
                old(self)@.map_values(|peer: RelayPeer| without_late_answer(peer, now_ms)),
                old(self).order().len() as int,
                late_answers_given_up(
                    old(self).order(),
                    old(self)@,
                    old(self).order().len() as int,
                    RelayTotals { store: old(store)@, quotas: *old(quotas), budget: *old(budget) },
                    now_ms,
                ),
                idle_ms,
                now_ms,
            ),
    {
        let ids = self.ids();
        self.give_up_late_answers(store, quotas, &ids, now_ms);
        let ghost in_time = self@;
        let ghost between = RelayTotals { store: store@, quotas: *quotas, budget: *budget };
        proof {
            assert(between == late_answers_given_up(
                ids@,
                old(self)@,
                ids@.len() as int,
                RelayTotals { store: old(store)@, quotas: *old(quotas), budget: *old(budget) },
                now_ms,
            ));
            assert forall|id: u64| #[trigger] self@.contains_key(id) <==> ids@.contains(id) by {
                assert(old(self)@.contains_key(id) <==> self@.contains_key(id));
            }
        }
        self.remove_idle(store, quotas, budget, &ids, idle_ms, now_ms);
        proof {
            assert forall|id: u64| #[trigger] old(self)@.contains_key(id) implies swept_as(
                without_late_answer(old(self)@[id], now_ms),
                idle_ms,
                now_ms,
                slot(self@, id),
            ) by {
                assert(in_time.contains_key(id));
            }
            assert forall|id: u64| #[trigger] self@.contains_key(id) implies old(
                self,
            )@.contains_key(id) by {
                assert(in_time.contains_key(id));
            }
        }
    }
}

/// A handshake packet of an unknown peer leaves nothing behind, whatever it is.
pub proof fn lemma_unknown_sender_leaves_nothing(
    peers: Map<u64, RelayPeer>,
    packet: PacketModel,
    dispatch: Result<HandshakeDispatch, RelayError>,
    peers_after: Map<u64, RelayPeer>,
)
    requires
        dispatched_in(peers, packet, dispatch, peers_after),
        packet.header matches Some(header) ==> !peers.contains_key(header.from_peer_id as u64),
    ensures
        peers_after == peers,
{
    if let Some(header) = packet.header {
        assert(peers.remove(header.from_peer_id as u64) =~= peers);
    }
}

/// Removing a peer leaves the published sessions of all keys alone: a session
/// outlives the relay state of its peer.
pub proof fn lemma_removal_keeps_sessions(peer: RelayPeer, totals: RelayTotals, key: SessionKeyModel)
    requires
        peer.wf(totals.store),
    ensures
        peer_given_up(peer, totals).store.rec(key).active == totals.store.rec(key).active,
        peer_given_up(peer, totals).store.published(key) == totals.store.published(key),
        peer_given_up(peer, totals).store.rec(key).in_doubt == totals.store.rec(key).in_doubt,
        peer_given_up(peer, totals).store.rec(key).receipt == totals.store.rec(key).receipt,
{
}

} // verus!
