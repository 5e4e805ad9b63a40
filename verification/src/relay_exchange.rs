//! The two messages of a relay handshake, taken as a whole: what a side does on
//! the message of the other.

use vstd::prelude::*;
use crate::bytes::Key32;
use crate::initiator_store::{InitiatorAsk, InitiatorSessionReservation};
use crate::packet::{Packet, PacketModel, PeerId};
use crate::relay_dial::{Msg1Draft, Msg2Verdict};
use crate::relay_handshake::{
    answer_message, reset_message, Msg1Admission, Msg1Plan, RelayNoiseMsg1, RelayNoiseMsg2,
};
use crate::relay_initiator::ConfirmationDriver;
use crate::relay_peer::{DeferredHandshake, RelayPeer};
use crate::relay_wire::RelayError;
use crate::responder_store::UpsertResponderSessionReturn;
use crate::route_trait::NextHopPolicy;
use crate::session_store::{PeerSessionStore, SessionQuotas, StoreModel};
use crate::session_types::{
    InitiatorTransitionIdentity, SessionKey, SessionKeyModel, TransitionFields,
};

verus! {

/// What to do on a first message.
pub enum Msg1Step {
    /// The handshake was completed before.
    Nothing,
    /// The answer to the same handshake is sent again.
    Resend { response: Vec<u8> },
    /// This side goes on with its own first message, which it sends again.
    Defer { payload: Vec<u8>, handshake_id: u128, policy: NextHopPolicy },
    /// The peer recovers a transition that this side does not know.
    OfferReset { identity: InitiatorTransitionIdentity, msg2: RelayNoiseMsg2 },
    /// A transition is staged and offered.
    Answer { prepared: UpsertResponderSessionReturn, recovery_active: bool, msg2: RelayNoiseMsg2 },
}

/// What a staged transition is answered with.
pub open spec fn planned(
    plan: Result<Msg1Plan, RelayError>,
    store: StoreModel,
    msg1: RelayNoiseMsg1,
    algorithm: Seq<char>,
    b_conn_id: u128,
    step: Result<Msg1Step, RelayError>,
) -> bool {
    match plan {
        Err(e) => step is Err && step->Err_0 == e,
        Ok(Msg1Plan::Reset { identity }) => {
            &&& step matches Ok(Msg1Step::OfferReset { identity: named, msg2 })
            &&& named == identity
            &&& crate::relay_handshake::offers_reset(msg2, identity, msg1, algorithm, b_conn_id)
        },
        Ok(Msg1Plan::Respond { prepared, recovery_active, acknowledged }) => {
            &&& step matches Ok(Msg1Step::Answer {
                prepared: staged,
                recovery_active: recovering,
                msg2,
            })
            &&& staged == prepared
            &&& recovering == recovery_active
            &&& crate::relay_handshake::answers(
                msg2,
                prepared,
                store.sess(prepared.session).metadata_session_id,
                msg1,
                algorithm,
                b_conn_id,
                recovery_active,
                acknowledged,
            )
        },
    }
}

/// What a first message leads to, and what it changes.
pub open spec fn msg1_handled(
    peer: RelayPeer,
    store: StoreModel,
    quotas: SessionQuotas,
    key: SessionKeyModel,
    my_peer_id: PeerId,
    handshake_id: u128,
    expected_key: Option<Key32>,
    remote_static: Seq<u8>,
    algorithm: Seq<char>,
    msg1: RelayNoiseMsg1,
    packet: PacketModel,
    b_conn_id: u128,
    now_ms: u64,
    step: Result<Msg1Step, RelayError>,
    peer_after: RelayPeer,
    store_after: StoreModel,
    quotas_after: SessionQuotas,
) -> bool {
    exists|admission: Result<Msg1Admission, RelayError>, between: StoreModel, slots: SessionQuotas|
        {
            &&& #[trigger] crate::relay_handshake::msg1_admitted(
                peer,
                store,
                quotas,
                my_peer_id,
                key.peer_id,
                handshake_id,
                expected_key,
                remote_static,
                msg1,
                packet,
                now_ms,
                admission,
                peer_after,
                between,
                slots,
            )
            &&& if admission matches Ok(Msg1Admission::Proceed) {
                exists|plan: Result<Msg1Plan, RelayError>|
                    {
                        &&& #[trigger] crate::relay_handshake::msg1_staged(
                            between,
                            slots,
                            key,
                            algorithm,
                            msg1,
                            expected_key,
                            now_ms,
                            plan,
                            store_after,
                            quotas_after,
                        )
                        &&& planned(plan, store_after, msg1, algorithm, b_conn_id, step)
                    }
            } else {
                &&& store_after == between
                &&& quotas_after == slots
                &&& match admission {
                    Err(e) => step is Err && step->Err_0 == e,
                    Ok(Msg1Admission::Resend { response }) => step matches Ok(
                        Msg1Step::Resend { response: again },
                    ) && again@ == response@,
                    Ok(Msg1Admission::Deferred { payload, handshake_id: own, policy }) => {
                        &&& step matches Ok(Msg1Step::Defer {
                            payload: again,
                            handshake_id: mine,
                            policy: by,
                        })
                        &&& again@ == payload@
                        &&& mine == own
                        &&& by == policy
                    },
                    Ok(_) => step matches Ok(Msg1Step::Nothing),
                }
            }
        }
}

/// What to do on the answer to a first message.
pub enum Msg2Step {
    /// The peer cannot answer yet. A handshake of its own that was put aside is
    /// taken up instead.
    NotReady { deferred: Option<DeferredHandshake> },
    /// The peer does not know the transition in doubt, which is to be given up.
    Reset { identity: TransitionFields },
    /// The transition is staged and has to be confirmed.
    Confirm { driver: ConfirmationDriver },
}

/// Whether this is what an accepted answer asks the initiator to stage.
pub open spec fn asked_by(
    ask: InitiatorAsk,
    verdict: Msg2Verdict,
    algorithm: Seq<char>,
    server_algorithm: Seq<char>,
    remote_key: Key32,
) -> bool {
    &&& verdict matches Msg2Verdict::Proceed {
        action,
        session_generation,
        root_key,
        initial_epoch,
        transition_id,
        responder_metadata_id,
    }
    &&& ask.action == action
    &&& ask.session_generation == session_generation
    &&& ask.root_key == root_key
    &&& ask.initial_epoch == initial_epoch
    &&& ask.transition_id == transition_id
    &&& ask.send_algorithm@ == algorithm
    &&& ask.recv_algorithm@ == server_algorithm
    &&& ask.peer_static_pubkey == Some(remote_key)
}

/// The peer once an answer was looked at. A handshake of the peer that was put
/// aside is dropped if the peer has accepted this one.
pub open spec fn answer_seen(peer: RelayPeer, draft: Msg1Draft, msg2: RelayNoiseMsg2) -> RelayPeer {
    if crate::relay_dial::msg2_accepted(draft, msg2) == Ok::<bool, RelayError>(true) {
        RelayPeer { deferred: None, ..peer }
    } else {
        peer
    }
}

/// What an answer leads to, and what it changes.
pub open spec fn msg2_handled(
    peer: RelayPeer,
    store: StoreModel,
    quotas: SessionQuotas,
    key: SessionKeyModel,
    draft: Msg1Draft,
    msg2: RelayNoiseMsg2,
    algorithm: Seq<char>,
    remote_key: Key32,
    now_ms: u64,
    step: Result<Msg2Step, RelayError>,
    peer_after: RelayPeer,
    store_after: StoreModel,
    quotas_after: SessionQuotas,
) -> bool {
    let seen = answer_seen(peer, draft, msg2);
    let unchanged = store_after == store && quotas_after == quotas;
    match crate::relay_dial::msg2_verdict(draft, msg2) {
        Err(e) => {
            &&& step is Err
            &&& step->Err_0 == e
            &&& peer_after == seen
            &&& unchanged
        },
        Ok(Msg2Verdict::NotReady) => {
            &&& step matches Ok(Msg2Step::NotReady { deferred })
            &&& deferred == peer.deferred
            &&& peer_after == (RelayPeer { deferred: None, ..peer })
            &&& unchanged
        },
        Ok(Msg2Verdict::Reset) => {
            &&& step matches Ok(Msg2Step::Reset { identity })
            &&& draft.recovery == Some(identity)
            &&& peer_after == seen
            &&& unchanged
        },
        Ok(verdict) => exists|
            ask: InitiatorAsk,
            reservation: Result<InitiatorSessionReservation, RelayError>,
            staged: RelayPeer,
        |
            {
                &&& asked_by(
                    ask,
                    verdict,
                    algorithm,
                    msg2.server_encryption_algorithm@,
                    remote_key,
                )
                &&& #[trigger] crate::relay_dial::initiator_staged(
                    seen,
                    store,
                    quotas,
                    key,
                    draft.recovery,
                    ask,
                    now_ms,
                    reservation,
                    staged,
                    store_after,
                    quotas_after,
                )
                &&& match reservation {
                    Err(e) => step is Err && step->Err_0 == e && peer_after == staged,
                    Ok(r) => {
                        &&& step matches Ok(Msg2Step::Confirm { driver })
                        &&& driver.stage == crate::relay_initiator::ConfirmationStage::Confirming
                        &&& driver.sends == 0
                        &&& driver.reservation == Some(r)
                        &&& driver.pending == crate::relay_initiator::confirmation_pending(
                            r,
                            store_after.sess(r.body.session).metadata_session_id,
                            draft.conn_id,
                            verdict->responder_metadata_id,
                            draft.previous_receipt,
                            now_ms,
                        )
                        &&& peer_after.send_confirming(staged.send, driver.pending.identity)
                        &&& peer_after == (RelayPeer {
                            send: peer_after.send,
                            confirmation: Some(driver.pending),
                            ..staged
                        })
                    },
                }
            },
    }
}

impl RelayPeer {
    /// Takes a first message of the peer, as it was read out of a packet. An
    /// answer or an offer has still to be encoded, and then written by
    /// `send_answer` or `send_reset_offer`.
    pub fn handle_relay_msg1(
        &mut self,
        store: &mut PeerSessionStore,
        quotas: &mut SessionQuotas,
        key: &SessionKey,
        my_peer_id: PeerId,
        handshake_id: u128,
        expected_key: Option<Key32>,
        remote_static: &Vec<u8>,
        algorithm: &String,
        msg1: &RelayNoiseMsg1,
        packet: &Packet,
        b_conn_id: u128,
        now_ms: u64,
    ) -> (step: Result<Msg1Step, RelayError>)
        requires
            old(store).wf(),
            old(self).wf(old(store)@),
        ensures
            final(store).wf(),
            final(self).wf(final(store)@),
            crate::relay_peer::keeps_sessions(old(store)@, final(store)@),
            step matches Ok(Msg1Step::Answer { prepared, recovery_active, msg2 }) ==> (
            prepared.held_in(final(store)@) && (recovery_active ==> prepared.proof_dependency is None)),
            msg1_handled(
                *old(self),
                old(store)@,
                *old(quotas),
                key@,
                my_peer_id,
                handshake_id,
                expected_key,
                remote_static@,
                algorithm@,
                *msg1,
                packet@,
                b_conn_id,
                now_ms,
                step,
                *final(self),
                final(store)@,
                *final(quotas),
            ),
    {
        let admission = self.admit_msg1(
            store,
            quotas,
            my_peer_id,
            key.peer_id,
            handshake_id,
            expected_key,
            remote_static,
            msg1,
            packet,
            now_ms,
        );
        let ghost admitted = admission;
        let ghost between = store@;
        let ghost slots = *quotas;
        assert(crate::relay_handshake::msg1_admitted(
            *old(self),
            old(store)@,
            *old(quotas),
            my_peer_id,
            key@.peer_id,
            handshake_id,
            expected_key,
            remote_static@,
            *msg1,
            packet@,
            now_ms,
            admitted,
            *self,
            between,
            slots,
        ));
        match admission {
            Err(e) => {
                return Err(e);
            },
            Ok(Msg1Admission::AlreadyCompleted) => {
                return Ok(Msg1Step::Nothing);
            },
            Ok(Msg1Admission::Resend { response }) => {
                return Ok(Msg1Step::Resend { response });
            },
            Ok(Msg1Admission::Deferred { payload, handshake_id: own, policy }) => {
                return Ok(Msg1Step::Defer { payload, handshake_id: own, policy });
            },
            Ok(Msg1Admission::Proceed) => {},
        }
        let plan = RelayPeer::stage_msg1(store, quotas, key, algorithm, msg1, expected_key, now_ms);
        let ghost staged = plan;
        let step = match plan {
            Err(e) => Err(e),
            Ok(Msg1Plan::Reset { identity }) => {
                let msg2 = reset_message(&identity, msg1, algorithm, b_conn_id);
                Ok(Msg1Step::OfferReset { identity, msg2 })
            },
            Ok(Msg1Plan::Respond { prepared, recovery_active, acknowledged }) => {
                let msg2 = answer_message(
                    store,
                    &prepared,
                    msg1,
                    algorithm,
                    b_conn_id,
                    recovery_active,
                    acknowledged,
                );
                Ok(Msg1Step::Answer { prepared, recovery_active, msg2 })
            },
        };
        proof {
            assert(planned(staged, store@, *msg1, algorithm@, b_conn_id, step));
        }
        step
    }

    /// Takes the answer of the peer to a first message, as it was read out of a
    /// packet.
    pub fn handle_relay_msg2(
        &mut self,
        store: &mut PeerSessionStore,
        quotas: &mut SessionQuotas,
        key: &SessionKey,
        draft: &Msg1Draft,
        msg2: &RelayNoiseMsg2,
        algorithm: &String,
        remote_key: Key32,
        now_ms: u64,
    ) -> (step: Result<Msg2Step, RelayError>)
        requires
            old(store).wf(),
            old(self).wf(old(store)@),
        ensures
            final(store).wf(),
            final(self).wf(final(store)@),
            crate::relay_peer::keeps_sessions(old(store)@, final(store)@),
            step matches Ok(Msg2Step::Confirm { driver }) ==> driver.wf(final(store)@),
            msg2_handled(
                *old(self),
                old(store)@,
                *old(quotas),
                key@,
                *draft,
                *msg2,
                algorithm@,
                remote_key,
                now_ms,
                step,
                *final(self),
                final(store)@,
                *final(quotas),
            ),
    {
        let verdict = match self.accept_msg2(draft, msg2, key) {
            Ok(verdict) => verdict,
            Err(e) => {
                return Err(e);
            },
        };
        match verdict {
            Msg2Verdict::NotReady => {
                let deferred = self.take_deferred();
                Ok(Msg2Step::NotReady { deferred })
            },
            Msg2Verdict::Reset => match draft.recovery {
                Some(identity) => Ok(Msg2Step::Reset { identity }),
                None => Err(RelayError::ResetWithoutLocalIdentity),
            },
            Msg2Verdict::Proceed {
                action,
                session_generation,
                root_key,
                initial_epoch,
                transition_id,
                responder_metadata_id,
            } => {
                let ask = InitiatorAsk {
                    action,
                    session_generation,
                    root_key,
                    initial_epoch,
                    send_algorithm: algorithm.clone(),
                    recv_algorithm: msg2.server_encryption_algorithm.clone(),
                    peer_static_pubkey: Some(remote_key),
                    transition_id,
                };
                let ghost asked = ask;
                let reservation = self.stage_initiator(
                    store,
                    quotas,
                    key,
                    draft.recovery,
                    ask,
                    now_ms,
                );
                let ghost staged = *self;
                let ghost made = reservation;
                proof {
                    assert(asked_by(
                        asked,
                        verdict,
                        algorithm@,
                        msg2.server_encryption_algorithm@,
                        remote_key,
                    ));
                    assert(crate::relay_dial::initiator_staged(
                        answer_seen(*old(self), *draft, *msg2),
                        old(store)@,
                        *old(quotas),
                        key@,
                        draft.recovery,
                        asked,
                        now_ms,
                        made,
                        staged,
                        store@,
                        *quotas,
                    ));
                }
                match reservation {
                    Err(e) => Err(e),
                    Ok(reservation) => {
                        let driver = self.begin_confirmation(
                            store,
                            reservation,
                            draft.conn_id,
                            responder_metadata_id,
                            draft.previous_receipt,
                            now_ms,
                        );
                        Ok(Msg2Step::Confirm { driver })
                    },
                }
            },
        }
    }
}

} // verus!
