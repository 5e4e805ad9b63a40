//! Opening packets that arrive over relay sessions.

use vstd::prelude::*;
use crate::packet::{
    Packet, PacketModel, PeerId, SecureAuthLevel, VerifiedOrigin, PACKET_ETHERNET,
    PACKET_RELAY_HANDSHAKE_CONFIRM, PACKET_RELAY_HANDSHAKE_CONFIRM_ACK,
    PACKET_RELAY_HANDSHAKE_READY, PACKET_RELAY_HANDSHAKE_READY_ACK,
};
use crate::peer_session::PeerSessionModel;
use crate::relay_auth::{relayed_auth_level, RelayAuthority, RelaySessionAuthBinding};
use crate::relay_peer::RelayPeer;
use crate::relay_queue::RelaySendPhase;
use crate::relay_wire::{
    decode_confirmation, is_handshake_confirmation_packet_type, is_handshake_packet_type,
    verify_and_remove_relay_origin_proof, RelayConfirmationIdentity, RelayError,
};
use crate::session_store::{PeerSessionStore, SessionId, StoreModel};
use crate::session_types::{SessionKey, SessionKeyModel};

verus! {

/// The session that opens a packet.
#[derive(Clone, Copy, Debug, PartialEq, Eq, Structural)]
pub enum OpenChoice {
    /// None: ordinary data cannot start a session.
    Refused,
    /// None yet: a handshake may bring one.
    NeedsSession,
    /// The session of an answer that the peer has to confirm.
    Answered { session: SessionId },
    /// The staged session of a transition that the peer has to acknowledge.
    Staged { session: SessionId, identity: RelayConfirmationIdentity },
    /// The published session.
    Active { session: SessionId },
}

/// Which session opens a packet of a type.
pub open spec fn session_choice(
    peer: RelayPeer,
    store: StoreModel,
    key: SessionKeyModel,
    packet_type: u8,
    now_ms: u64,
) -> OpenChoice {
    let staged = if packet_type == PACKET_RELAY_HANDSHAKE_CONFIRM_ACK || packet_type
        == PACKET_RELAY_HANDSHAKE_READY_ACK {
        peer.live_confirmation(now_ms)
    } else {
        None
    };
    if (packet_type == PACKET_RELAY_HANDSHAKE_CONFIRM || packet_type
        == PACKET_RELAY_HANDSHAKE_READY) && peer.responder is Some {
        OpenChoice::Answered { session: peer.responder->0.prepared.session }
    } else if staged is Some {
        OpenChoice::Staged { session: staged->0.session, identity: staged->0.identity }
    } else {
        match store.published(key) {
            Some(session) => OpenChoice::Active { session },
            None => if crate::relay_wire::is_confirmation_type(packet_type)
                || crate::relay_wire::is_handshake_type(packet_type) {
                OpenChoice::NeedsSession
            } else {
                OpenChoice::Refused
            },
        }
    }
}

impl RelayPeer {
    /// Chooses the session that opens a packet. A staged confirmation that was
    /// waited for too long is removed.
    pub fn choose_session(
        &mut self,
        store: &PeerSessionStore,
        key: &SessionKey,
        packet: &Packet,
        now_ms: u64,
    ) -> (choice: Result<OpenChoice, RelayError>)
        requires
            store.wf(),
            old(self).wf(store@),
        ensures
            final(self).wf(store@),
            match packet.header {
                None => choice == Err::<OpenChoice, RelayError>(RelayError::NoHeader)
                    && *final(self) == *old(self),
                Some(header) => {
                    &&& choice == Ok::<OpenChoice, RelayError>(
                        session_choice(*old(self), store@, key@, header.packet_type, now_ms),
                    )
                    &&& *final(self) == (if header.packet_type
                        == PACKET_RELAY_HANDSHAKE_CONFIRM_ACK || header.packet_type
                        == PACKET_RELAY_HANDSHAKE_READY_ACK {
                        RelayPeer {
                            confirmation: old(self).live_confirmation(now_ms),
                            ..*old(self)
                        }
                    } else {
                        *old(self)
                    })
                },
            },
    {
        let packet_type: u8 = match packet.header {
            Some(header) => header.packet_type,
            None => {
                return Err(RelayError::NoHeader);
            },
        };
        let active = store.peek(key);
        let staged = if packet_type == PACKET_RELAY_HANDSHAKE_CONFIRM_ACK || packet_type
            == PACKET_RELAY_HANDSHAKE_READY_ACK {
            self.get_live_staged_confirmation(now_ms)
        } else {
            None
        };
        if packet_type == PACKET_RELAY_HANDSHAKE_CONFIRM || packet_type
            == PACKET_RELAY_HANDSHAKE_READY {
            if let Some(pending) = &self.responder {
                return Ok(OpenChoice::Answered { session: pending.prepared.session });
            }
        }
        if let Some(pending) = staged {
            return Ok(
                OpenChoice::Staged { session: pending.session, identity: pending.identity },
            );
        }
        match active {
            Some(session) => Ok(OpenChoice::Active { session }),
            None => {
                if is_handshake_confirmation_packet_type(packet_type) || is_handshake_packet_type(
                    packet_type,
                ) {
                    Ok(OpenChoice::NeedsSession)
                } else {
                    Ok(OpenChoice::Refused)
                }
            },
        }
    }
}

pub open spec fn chosen(choice: OpenChoice) -> Option<SessionId> {
    match choice {
        OpenChoice::Answered { session } => Some(session),
        OpenChoice::Staged { session, identity } => Some(session),
        OpenChoice::Active { session } => Some(session),
        _ => None,
    }
}

/// Whether an opened packet is what its session may carry: a staged session only
/// carries the confirmation of its own transition.
pub open spec fn opened_check(packet: PacketModel, choice: OpenChoice, session: PeerSessionModel) -> Result<
    (),
    RelayError,
> {
    match crate::relay_wire::origin_proof_check(packet) {
        Err(e) => Err(e),
        Ok(_) => match choice {
            OpenChoice::Staged { session: staged, identity } => {
                if session.metadata_session_id != identity.session_id {
                    Err(RelayError::StagedSessionMismatch)
                } else {
                    match crate::relay_wire::confirmation_of_bytes(
                        packet.payload.take(packet.payload.len() - 16),
                    ) {
                        None => Err(RelayError::InvalidConfirmationPayload),
                        Some((handshake_id, transition_id)) => if handshake_id
                            != identity.handshake_id || transition_id != identity.transition_id {
                            Err(RelayError::StagedTransitionMismatch)
                        } else {
                            Ok(())
                        },
                    }
                }
            },
            _ => Ok(()),
        },
    }
}

/// Whether a packet needs the grant to send complete Ethernet.
pub open spec fn needs_grant(packet: PacketModel) -> bool {
    packet.header matches Some(header) && header.packet_type == PACKET_ETHERNET && !header.hybrid()
}

/// The store after the session of a peer was found to speak for nobody.
pub open spec fn session_revoked(store: StoreModel, key: SessionKeyModel, id: SessionId) -> StoreModel {
    crate::relay_initiator::withdrawn_if_same(
        store.with_sess(id, store.sess(id).invalid_now()),
        key,
        id,
    )
}

/// The store after the session of a key was used.
pub open spec fn session_touched(store: StoreModel, key: SessionKeyModel, id: SessionId, now_ms: u64) -> StoreModel {
    if store.rec(key).active is Some && (store.rec(key).active->0).session == id {
        store.with_active(
            key,
            Some(crate::session_store::PeerSessionEntry { session: id, last_used_at: now_ms }),
        )
    } else {
        store
    }
}

/// What a packet that a session has opened gives and changes.
pub open spec fn opened(
    peer: RelayPeer,
    store: StoreModel,
    authority: RelayAuthority,
    key: SessionKeyModel,
    peer_id: PeerId,
    choice: OpenChoice,
    packet: PacketModel,
    now_ms: u64,
    result: Result<(), RelayError>,
    peer_after: RelayPeer,
    store_after: StoreModel,
    packet_after: PacketModel,
) -> bool {
    let id = chosen(choice)->0;
    let session = store.sess(id);
    let unchanged = peer_after == peer && store_after == store;
    let bare = PacketModel {
        payload: packet.payload.take(packet.payload.len() - 16),
        ..packet
    };
    match opened_check(packet, choice, session) {
        Err(e) => {
            &&& result == Err::<(), RelayError>(e)
            &&& unchanged
            &&& packet_after == (if crate::relay_wire::origin_proof_check(packet) is Ok {
                bare
            } else {
                packet
            })
        },
        Ok(_) => {
            let (bound, bound_peer) = if choice is Active {
                crate::relay_dial::bound_if_missing(peer, store, authority, peer_id, id)
            } else {
                (Ok(()), peer)
            };
            match bound {
                Err(e) => {
                    &&& result == Err::<(), RelayError>(e)
                    &&& unchanged
                    &&& packet_after == bare
                },
                Ok(_) => {
                    let checked = if choice is Active {
                        authority.binding_check(
                            peer_id,
                            session,
                            needs_grant(packet),
                            bound_peer.auth,
                        )
                    } else {
                        authority.identity_check(session, needs_grant(packet))
                    };
                    match checked {
                        Err(e) => {
                            &&& result == Err::<(), RelayError>(e)
                            &&& packet_after == bare
                            &&& store_after == session_revoked(store, key, id)
                            &&& peer_after == (RelayPeer {
                                send: RelayPeer::send_in_phase(
                                    bound_peer.send,
                                    RelaySendPhase::AwaitingSession,
                                ),
                                ..bound_peer
                            })
                        },
                        Ok(_) => {
                            let origin = VerifiedOrigin {
                                peer_id,
                                identity_type: authority.generic->0.identity_type,
                                secure_auth_level: crate::relay_auth::relayed_level(
                                    authority.validated(),
                                ),
                                session_id: session.metadata_session_id,
                            };
                            if packet.verified_origin is Some && packet.verified_origin != Some(
                                origin,
                            ) {
                                &&& result == Err::<(), RelayError>(RelayError::OriginConflict)
                                &&& packet_after == bare
                                &&& peer_after == bound_peer
                                &&& store_after == store
                            } else {
                                &&& result == Ok::<(), RelayError>(())
                                &&& packet_after == (PacketModel {
                                    verified_origin: Some(origin),
                                    ..bare
                                })
                                &&& store_after == session_touched(store, key, id, now_ms)
                                &&& peer_after == crate::relay_send::active_with(
                                    bound_peer,
                                    bound_peer.send,
                                    now_ms,
                                )
                            }
                        },
                    }
                },
            }
        },
    }
}

impl RelayPeer {
    fn check_opened(
        store: &PeerSessionStore,
        choice: OpenChoice,
        session: SessionId,
        packet: &mut Packet,
    ) -> (checked: Result<(), RelayError>)
        requires
            store.wf(),
            store@.has(session),
        ensures
            checked == opened_check(old(packet)@, choice, store@.sess(session)),
            final(packet)@ == (if crate::relay_wire::origin_proof_check(old(packet)@) is Ok {
                PacketModel {
                    payload: old(packet)@.payload.take(old(packet)@.payload.len() - 16),
                    ..old(packet)@
                }
            } else {
                old(packet)@
            }),
    {
        if let Err(e) = verify_and_remove_relay_origin_proof(packet) {
            return Err(e);
        }
        match choice {
            OpenChoice::Staged { session: _, identity } => {
                let metadata = match store.session(session) {
                    Some(held) => Some(held.metadata_session_id()),
                    None => None,
                };
                if metadata != Some(identity.session_id) {
                    return Err(RelayError::StagedSessionMismatch);
                }
                match decode_confirmation(packet.payload.as_slice()) {
                    None => Err(RelayError::InvalidConfirmationPayload),
                    Some((handshake_id, transition_id)) => {
                        if handshake_id != identity.handshake_id || transition_id
                            != identity.transition_id {
                            return Err(RelayError::StagedTransitionMismatch);
                        }
                        Ok(())
                    },
                }
            },
            _ => Ok(()),
        }
    }

    fn revoke_session(&mut self, store: &mut PeerSessionStore, key: &SessionKey, session: SessionId)
        requires
            old(store).wf(),
            old(self).wf(old(store)@),
            old(store)@.has(session),
        ensures
            final(store).wf(),
            final(self).wf(final(store)@),
            crate::relay_peer::keeps_sessions(old(store)@, final(store)@),
            final(store)@ == session_revoked(old(store)@, key@, session),
            *final(self) == (RelayPeer {
                send: RelayPeer::send_in_phase(
                    old(self).send,
                    RelaySendPhase::AwaitingSession,
                ),
                ..*old(self)
            }),
    {
        store.invalidate_session(session);
        store.remove_if_same(key, session);
        self.set_existing_phase(RelaySendPhase::AwaitingSession);
    }

    /// Goes on with a packet that the chosen session has opened: its origin is
    /// checked against the authority of the peer.
    pub fn finish_decrypt(
        &mut self,
        store: &mut PeerSessionStore,
        authority: &RelayAuthority,
        key: &SessionKey,
        peer_id: PeerId,
        choice: OpenChoice,
        session: SessionId,
        packet: &mut Packet,
        now_ms: u64,
    ) -> (result: Result<(), RelayError>)
        requires
            old(store).wf(),
            old(self).wf(old(store)@),
            chosen(choice) == Some(session),
            old(store)@.has(session),
        ensures
            final(store).wf(),
            final(self).wf(final(store)@),
            crate::relay_peer::keeps_sessions(old(store)@, final(store)@),
            opened(
                *old(self),
                old(store)@,
                *authority,
                key@,
                peer_id,
                choice,
                old(packet)@,
                now_ms,
                result,
                *final(self),
                final(store)@,
                final(packet)@,
            ),
    {
        if let Err(e) = RelayPeer::check_opened(store, choice, session, packet) {
            return Err(e);
        }
        let requires_grant = match packet.header {
            Some(header) => header.packet_type == PACKET_ETHERNET
                && !header.is_hybrid_ip_ethernet(),
            None => false,
        };
        let active = match choice {
            OpenChoice::Active { session: _ } => true,
            _ => false,
        };
        if active {
            if let Err(e) = self.bind_existing_relay_session_auth_if_missing(
                store,
                authority,
                peer_id,
                session,
            ) {
                return Err(e);
            }
        }
        let validated = match store.session(session) {
            Some(held) => {
                if active {
                    authority.validate_relay_session_auth(
                        peer_id,
                        held,
                        requires_grant,
                        self.auth,
                    )
                } else {
                    authority.validate_relay_session_identity(held, requires_grant)
                }
            },
            None => Err(RelayError::SessionWithoutPeerKey),
        };
        let metadata: u128 = match store.session(session) {
            Some(held) => held.metadata_session_id(),
            None => 0,
        };
        match validated {
            Err(e) => {
                self.revoke_session(store, key, session);
                Err(e)
            },
            Ok(validated) => {
                let origin = VerifiedOrigin {
                    peer_id,
                    identity_type: validated.generic.identity_type,
                    secure_auth_level: relayed_auth_level(&validated),
                    session_id: metadata,
                };
                if !packet.set_verified_origin(origin) {
                    return Err(RelayError::OriginConflict);
                }
                store.touch_if_same(key, session, now_ms);
                self.touch(now_ms);
                Ok(())
            },
        }
    }
}

/// What becomes of a packet of a batch.
#[derive(Clone, Copy, Debug, PartialEq, Eq, Structural)]
pub enum RelayBatchDecryptOutcome {
    NotAttempted,
    Decrypted,
    Failed,
}

/// How a packet of a batch is opened.
#[derive(Clone, Copy, Debug, PartialEq, Eq, Structural)]
pub enum BatchChoice {
    /// It is not sealed, or belongs to a handshake, which is opened one by one.
    NotAttempted,
    /// Its sender has no session.
    Failed,
    Open { peer_id: PeerId, session: SessionId, requires_grant: bool },
}

pub open spec fn batch_choice(packet: PacketModel, store: StoreModel, network_name: Seq<char>) -> BatchChoice {
    match packet.header {
        None => BatchChoice::NotAttempted,
        Some(header) => if !header.encrypted() || crate::relay_wire::is_handshake_type(
            header.packet_type,
        ) || crate::relay_wire::is_confirmation_type(header.packet_type) {
            BatchChoice::NotAttempted
        } else {
            match store.published(SessionKeyModel { network_name, peer_id: header.from_peer_id }) {
                None => BatchChoice::Failed,
                Some(session) => BatchChoice::Open {
                    peer_id: header.from_peer_id,
                    session,
                    requires_grant: needs_grant(packet),
                },
            }
        },
    }
}

/// Chooses the sessions that open the packets of a batch.
pub fn choose_batch(packets: &Vec<Packet>, store: &PeerSessionStore, network_name: &String) -> (choices:
    Vec<BatchChoice>)
    requires
        store.wf(),
    ensures
        choices@.len() == packets@.len(),
        forall|i: int|
            0 <= i < packets@.len() ==> #[trigger] choices@[i] == batch_choice(
                packets@[i]@,
                store@,
                network_name@,
            ),
{
    let mut choices: Vec<BatchChoice> = Vec::new();
    let mut i: usize = 0;
    while i < packets.len()
        invariant
            store.wf(),
            i <= packets@.len(),
            choices@.len() == i,
            forall|k: int|
                0 <= k < i ==> #[trigger] choices@[k] == batch_choice(
                    packets@[k]@,
                    store@,
                    network_name@,
                ),
        decreases packets@.len() - i,
    {
        let choice = match packets[i].header {
            None => BatchChoice::NotAttempted,
            Some(header) => {
                if !header.is_encrypted() || is_handshake_packet_type(header.packet_type)
                    || is_handshake_confirmation_packet_type(header.packet_type) {
                    BatchChoice::NotAttempted
                } else {
                    let key = SessionKey::new(network_name.clone(), header.from_peer_id);
                    match store.peek(&key) {
                        None => BatchChoice::Failed,
                        Some(session) => BatchChoice::Open {
                            peer_id: header.from_peer_id,
                            session,
                            requires_grant: header.packet_type == PACKET_ETHERNET
                                && !header.is_hybrid_ip_ethernet(),
                        },
                    }
                }
            },
        };
        choices.push(choice);
        i = i + 1;
    }
    choices
}

/// What is known of a packet before its group is opened.
pub open spec fn outcome_before(choice: BatchChoice) -> RelayBatchDecryptOutcome {
    if choice is NotAttempted {
        RelayBatchDecryptOutcome::NotAttempted
    } else {
        RelayBatchDecryptOutcome::Failed
    }
}

/// The outcomes of a batch before its groups are opened: a packet that is not
/// opened under the authority of its group has failed.
pub fn outcomes_before(choices: &Vec<BatchChoice>) -> (outcomes: Vec<RelayBatchDecryptOutcome>)
    ensures
        outcomes@ == choices@.map_values(|choice: BatchChoice| outcome_before(choice)),
{
    let mut outcomes: Vec<RelayBatchDecryptOutcome> = Vec::new();
    let mut i: usize = 0;
    while i < choices.len()
        invariant
            i <= choices@.len(),
            outcomes@.len() == i,
            forall|k: int| 0 <= k < i ==> #[trigger] outcomes@[k] == outcome_before(choices@[k]),
        decreases choices@.len() - i,
    {
        outcomes.push(
            match choices[i] {
                BatchChoice::NotAttempted => RelayBatchDecryptOutcome::NotAttempted,
                _ => RelayBatchDecryptOutcome::Failed,
            },
        );
        i = i + 1;
    }
    assert(outcomes@ =~= choices@.map_values(|choice: BatchChoice| outcome_before(choice)));
    outcomes
}

/// Whether a packet belongs to the group of a peer.
pub open spec fn in_group(choice: BatchChoice, peer_id: PeerId) -> bool {
    choice matches BatchChoice::Open { peer_id: from, session, requires_grant } && from == peer_id
}

/// The packets of one peer in a batch. They are opened under one session.
pub struct BatchGroup {
    pub peer_id: PeerId,
    pub session: SessionId,
    /// Where the packets stand in the batch, in order.
    pub members: Vec<usize>,
}

/// Whether these are the places of all packets of a peer, in order.
pub open spec fn members_of(choices: Seq<BatchChoice>, peer_id: PeerId, members: Seq<usize>) -> bool {
    &&& forall|a: int, b: int|
        0 <= a < b < members.len() ==> #[trigger] members[a] < #[trigger] members[b]
    &&& forall|a: int|
        0 <= a < members.len() ==> (#[trigger] members[a]) < choices.len() && in_group(
            choices[members[a] as int],
            peer_id,
        )
    &&& forall|k: int|
        0 <= k < choices.len() && in_group(#[trigger] choices[k], peer_id) ==> members.contains(
            k as usize,
        )
}

/// Whether there is a group for a peer.
pub open spec fn has_group_of(groups: Seq<BatchGroup>, peer_id: PeerId) -> bool {
    exists|g: int| 0 <= g < groups.len() && (#[trigger] groups[g]).peer_id == peer_id
}

/// Whether a group holds all packets of its peer, under the session of the first.
pub open spec fn is_group(choices: Seq<BatchChoice>, group: BatchGroup) -> bool {
    &&& group.members@.len() > 0
    &&& members_of(choices, group.peer_id, group.members@)
    &&& choices[group.members@[0] as int]->session == group.session
}

fn members_from(choices: &Vec<BatchChoice>, peer_id: PeerId) -> (members: Vec<usize>)
    ensures
        members_of(choices@, peer_id, members@),
{
    let mut members: Vec<usize> = Vec::new();
    let mut i: usize = 0;
    while i < choices.len()
        invariant
            i <= choices@.len(),
            members_of(choices@.take(i as int), peer_id, members@),
        decreases choices@.len() - i,
    {
        let ghost before = members@;
        let ghost seen = choices@.take(i as int);
        let ghost next = choices@.take(i + 1);
        let mine = match choices[i] {
            BatchChoice::Open { peer_id: from, session: _, requires_grant: _ } => from == peer_id,
            _ => false,
        };
        assert(mine == in_group(choices@[i as int], peer_id));
        if mine {
            members.push(i);
        }
        proof {
            assert forall|a: int| 0 <= a < members@.len() implies (#[trigger] members@[a])
                < next.len() && in_group(next[members@[a] as int], peer_id) by {
                if a < before.len() {
                    assert(members@[a] == before[a]);
                    assert(in_group(seen[before[a] as int], peer_id));
                }
            }
            assert forall|a: int, b: int| 0 <= a < b < members@.len() implies #[trigger] members@[a]
                < #[trigger] members@[b] by {
                assert(members@[a] == before[a]);
                if b < before.len() {
                    assert(members@[b] == before[b]);
                }
            }
            assert forall|k: int|
                0 <= k < next.len() && in_group(#[trigger] next[k], peer_id) implies members@.contains(
                k as usize,
            ) by {
                if k < i {
                    assert(in_group(seen[k], peer_id));
                    let at = before.index_of(k as usize);
                    assert(members@[at] == before[at]);
                } else {
                    assert(members@[before.len() as int] == i);
                }
            }
        }
        i = i + 1;
    }
    assert(choices@.take(i as int) =~= choices@);
    members
}

fn has_group(groups: &Vec<BatchGroup>, peer_id: PeerId) -> (has: bool)
    ensures
        has == has_group_of(groups@, peer_id),
{
    let mut g: usize = 0;
    while g < groups.len()
        invariant
            g <= groups@.len(),
            forall|h: int| 0 <= h < g ==> (#[trigger] groups@[h]).peer_id != peer_id,
        decreases groups@.len() - g,
    {
        if groups[g].peer_id == peer_id {
            return true;
        }
        g = g + 1;
    }
    false
}

/// Sorts the packets of a batch that can be opened by their peers.
pub fn batch_groups(choices: &Vec<BatchChoice>) -> (groups: Vec<BatchGroup>)
    ensures
        forall|g: int| 0 <= g < groups@.len() ==> is_group(choices@, #[trigger] groups@[g]),
        forall|g: int, h: int|
            0 <= g < h < groups@.len() ==> (#[trigger] groups@[g]).peer_id != (
            #[trigger] groups@[h]).peer_id,
        forall|k: int|
            0 <= k < choices@.len() && (#[trigger] choices@[k]) is Open ==> has_group_of(
                groups@,
                choices@[k]->peer_id,
            ),
{
    let mut groups: Vec<BatchGroup> = Vec::new();
    let mut i: usize = 0;
    while i < choices.len()
        invariant
            i <= choices@.len(),
            forall|g: int| 0 <= g < groups@.len() ==> is_group(choices@, #[trigger] groups@[g]),
            forall|g: int, h: int|
                0 <= g < h < groups@.len() ==> (#[trigger] groups@[g]).peer_id != (
                #[trigger] groups@[h]).peer_id,
            forall|k: int|
                0 <= k < i && (#[trigger] choices@[k]) is Open ==> has_group_of(
                    groups@,
                    choices@[k]->peer_id,
                ),
        decreases choices@.len() - i,
    {
        if let BatchChoice::Open { peer_id, session: _, requires_grant: _ } = choices[i] {
            assert(in_group(choices@[i as int], peer_id));
            if !has_group(&groups, peer_id) {
                let members = members_from(choices, peer_id);
                assert(members@.contains(i));
                let ghost before = groups@;
                if let BatchChoice::Open { peer_id: _, session, requires_grant: _ } = choices[members[0]] {
                    groups.push(BatchGroup { peer_id, session, members });
                    proof {
                        assert(groups@[before.len() as int].peer_id == peer_id);
                        assert forall|p: PeerId| #[trigger] has_group_of(before, p) implies has_group_of(
                            groups@,
                            p,
                        ) by {
                            let g = choose|g: int|
                                0 <= g < before.len() && (#[trigger] before[g]).peer_id == p;
                            assert(groups@[g] == before[g]);
                        }
                        assert(has_group_of(groups@, peer_id));
                    }
                }
            }
        }
        i = i + 1;
    }
    groups
}

/// Whether some packet of a peer's group needs the grant to send complete
/// Ethernet.
pub open spec fn group_needs_grant(choices: Seq<BatchChoice>, peer_id: PeerId) -> bool {
    exists|i: int|
        0 <= i < choices.len() && in_group(#[trigger] choices[i], peer_id)
            && choices[i]->requires_grant
}

/// What a group of packets of one peer is opened under.
pub struct GroupAuthority {
    pub identity: crate::packet::PeerIdentityType,
    pub session_id: u128,
    pub bridge_valid: bool,
}

/// Checks the session of a group against the authority of its peer.
pub fn group_authority(
    choices: &Vec<BatchChoice>,
    peer_id: PeerId,
    store: &PeerSessionStore,
    session: SessionId,
    binding: Option<RelaySessionAuthBinding>,
    authority: &RelayAuthority,
) -> (group: Result<GroupAuthority, RelayError>)
    requires
        store.wf(),
        store@.has(session),
    ensures
        match authority.binding_check(
            peer_id,
            store@.sess(session),
            group_needs_grant(choices@, peer_id),
            binding,
        ) {
            Err(e) => group is Err && group->Err_0 == e,
            Ok(_) => {
                &&& group matches Ok(g)
                &&& g.identity == authority.generic->0.identity_type
                &&& g.session_id == store@.sess(session).metadata_session_id
                &&& g.bridge_valid == authority.bridge_valid(
                    authority.generic->0.noise_static_pubkey,
                    binding,
                )
            },
        },
{
    let mut needs = false;
    let mut i: usize = 0;
    while i < choices.len()
        invariant
            i <= choices@.len(),
            needs == exists|k: int|
                0 <= k < i && in_group(#[trigger] choices@[k], peer_id)
                    && choices@[k]->requires_grant,
        decreases choices@.len() - i,
    {
        let ghost before = needs;
        let one = match choices[i] {
            BatchChoice::Open { peer_id: from, session: _, requires_grant } => from == peer_id
                && requires_grant,
            _ => false,
        };
        assert(one == (in_group(choices@[i as int], peer_id)
            && choices@[i as int]->requires_grant));
        if one {
            needs = true;
        }
        proof {
            if before {
                let k = choose|k: int|
                    0 <= k < i && in_group(#[trigger] choices@[k], peer_id)
                        && choices@[k]->requires_grant;
                assert(0 <= k < i + 1);
            }
        }
        i = i + 1;
    }
    let held = store.session(session).unwrap();
    match authority.validate_relay_session_auth(peer_id, held, needs, binding) {
        Err(e) => Err(e),
        Ok(validated) => {
            let bridge_valid = authority.bridge_grant_valid(
                validated.generic.noise_static_pubkey,
                binding,
            );
            Ok(
                GroupAuthority {
                    identity: validated.generic.identity_type,
                    session_id: held.metadata_session_id(),
                    bridge_valid,
                },
            )
        },
    }
}

/// What a packet of a batch gives once its session has opened it.
pub open spec fn batch_opened(
    packet: PacketModel,
    was_opened: bool,
    peer_id: PeerId,
    group: GroupAuthority,
    outcome: RelayBatchDecryptOutcome,
    packet_after: PacketModel,
) -> bool {
    let bare = PacketModel {
        payload: packet.payload.take(packet.payload.len() - 16),
        ..packet
    };
    let origin = VerifiedOrigin {
        peer_id,
        identity_type: group.identity,
        secure_auth_level: SecureAuthLevel::PeerVerified,
        session_id: group.session_id,
    };
    if !was_opened || crate::relay_wire::origin_proof_check(packet) is Err {
        outcome == RelayBatchDecryptOutcome::Failed && packet_after == packet
    } else if packet.has_type(PACKET_ETHERNET) && !group.bridge_valid {
        outcome == RelayBatchDecryptOutcome::Failed && packet_after == bare
    } else if packet.verified_origin is Some && packet.verified_origin != Some(origin) {
        outcome == RelayBatchDecryptOutcome::Failed && packet_after == bare
    } else {
        &&& outcome == RelayBatchDecryptOutcome::Decrypted
        &&& packet_after == (PacketModel { verified_origin: Some(origin), ..bare })
    }
}

/// Goes on with a packet of a batch. A forged packet does not touch the session
/// that the others share.
pub fn finish_batch_packet(
    packet: &mut Packet,
    was_opened: bool,
    peer_id: PeerId,
    group: &GroupAuthority,
) -> (outcome: RelayBatchDecryptOutcome)
    ensures
        batch_opened(old(packet)@, was_opened, peer_id, *group, outcome, final(packet)@),
{
    if !was_opened {
        return RelayBatchDecryptOutcome::Failed;
    }
    if verify_and_remove_relay_origin_proof(packet).is_err() {
        return RelayBatchDecryptOutcome::Failed;
    }
    let ethernet = match packet.header {
        Some(header) => header.packet_type == PACKET_ETHERNET,
        None => false,
    };
    if ethernet && !group.bridge_valid {
        return RelayBatchDecryptOutcome::Failed;
    }
    let origin = VerifiedOrigin {
        peer_id,
        identity_type: group.identity,
        secure_auth_level: SecureAuthLevel::PeerVerified,
        session_id: group.session_id,
    };
    if !packet.set_verified_origin(origin) {
        return RelayBatchDecryptOutcome::Failed;
    }
    RelayBatchDecryptOutcome::Decrypted
}

/// An opened packet carries the identity of its sender, and never more than the
/// assurance of a verified peer: authority on another hop does not transfer.
pub proof fn lemma_relayed_origin_is_local_evidence(
    peer: RelayPeer,
    store: StoreModel,
    authority: RelayAuthority,
    key: SessionKeyModel,
    peer_id: PeerId,
    choice: OpenChoice,
    packet: PacketModel,
    now_ms: u64,
    peer_after: RelayPeer,
    store_after: StoreModel,
    packet_after: PacketModel,
)
    requires
        opened(
            peer,
            store,
            authority,
            key,
            peer_id,
            choice,
            packet,
            now_ms,
            Ok(()),
            peer_after,
            store_after,
            packet_after,
        ),
    ensures
        packet_after.verified_origin matches Some(origin) && origin.peer_id == peer_id
            && origin.secure_auth_level != SecureAuthLevel::NetworkSecretConfirmed,
        Some(authority.generic->0.noise_static_pubkey) == store.sess(
            chosen(choice)->0,
        ).peer_static_pubkey,
{
}

/// A session that does not speak for its peer any more is invalid, and no longer
/// published, once a packet has shown it.
pub proof fn lemma_revoked_session_is_gone(store: StoreModel, key: SessionKeyModel, id: SessionId)
    requires
        store.rec(key).active is Some,
        (store.rec(key).active->0).session == id,
    ensures
        session_revoked(store, key, id).published(key) is None,
        !session_revoked(store, key, id).sess(id).valid(),
{
}

} // verus!
