//! Datagram sessions: traffic keys, nonces, and the replay rules around the
//! cipher.
//!
//! The session decides which key, nonce and authenticated data a packet is
//! sealed or opened with, and what an opened packet changes. The cipher itself
//! runs outside: a call hands out a [`CipherRequest`], and a second call takes
//! the cipher's answer.

use vstd::prelude::*;
use crate::bytes::{push_be, push_zeros, Key32};
use crate::datagram_replay::{
    max_u32, DomainModel, DomainView, ReplayContext, ReplayDomain, SecureDatagramDirection,
};
use crate::outside::{hmac_sha256_of, random_u128};
use crate::packet::{Packet, PacketModel};

verus! {

/// The two key spaces of a session.
#[derive(Clone, Copy, Debug, PartialEq, Eq, Structural)]
pub enum KeyDomain {
    Standard,
    Fec,
}

/// Why a datagram was not sealed or not accepted.
#[derive(Clone, Copy, Debug, PartialEq, Eq, Structural)]
pub enum DatagramError {
    SessionInvalidated,
    NonceSequenceExhausted,
    NoPeerHeader,
    NotEncrypted,
    NoTail,
    DuplicateNonce,
    ReplayRejected,
    DecryptFailed,
    AlgorithmMismatch,
}

/// What the cipher needs for one packet.
///
/// The key of a cipher with a 128-bit key is the first half of `key`. The nonce
/// is the epoch in four bytes and the sequence number in eight, big-endian.
pub struct CipherRequest {
    pub algorithm: String,
    pub key: Key32,
    pub epoch: u32,
    pub seq: u64,
    pub aad: Vec<u8>,
}

/// The value of a cipher request.
#[verifier::ext_equal]
pub struct RequestModel {
    pub algorithm: Seq<char>,
    pub key: Seq<u8>,
    pub epoch: u32,
    pub seq: u64,
    pub aad: Seq<u8>,
}

impl View for CipherRequest {
    type V = RequestModel;

    open spec fn view(&self) -> RequestModel {
        RequestModel {
            algorithm: self.algorithm@,
            key: self.key.bytes(),
            epoch: self.epoch,
            seq: self.seq,
            aad: self.aad@,
        }
    }
}

impl CipherRequest {
    /// The nonce as the twelve bytes that the cipher takes.
    pub fn nonce(&self) -> (nonce: Vec<u8>)
        ensures
            nonce@ == crate::bytes::be_bytes(self.epoch as nat, 4) + crate::bytes::be_bytes(
                self.seq as nat,
                8,
            ),
            nonce@.len() == 12,
    {
        let mut nonce: Vec<u8> = Vec::new();
        push_be(&mut nonce, self.epoch as u128, 4);
        push_be(&mut nonce, self.seq as u128, 8);
        proof {
            broadcast use crate::bytes::lemma_be_bytes_len;

        }
        nonce
    }
}

/// The label that separates the keys of the two domains.
pub open spec fn domain_label(domain: KeyDomain) -> Seq<u8> {
    match domain {
        // "et-traffic"
        KeyDomain::Standard => seq![101u8, 116, 45, 116, 114, 97, 102, 102, 105, 99],
        // "et-fec-traffic"
        KeyDomain::Fec => seq![
            101u8,
            116,
            45,
            102,
            101,
            99,
            45,
            116,
            114,
            97,
            102,
            102,
            105,
            99,
        ],
    }
}

pub open spec fn direction_index(dir: SecureDatagramDirection) -> u8 {
    match dir {
        SecureDatagramDirection::AToB => 0,
        SecureDatagramDirection::BToA => 1,
    }
}

/// The traffic key of an epoch: an HKDF with an all-zero salt over the root
/// key, expanded with the domain label, the epoch and the direction.
#[verifier::opaque]
pub open spec fn traffic_key_bytes(
    root_key: Key32,
    domain: KeyDomain,
    epoch: u32,
    dir: SecureDatagramDirection,
) -> Seq<u8> {
    let salt = Seq::new(32, |i: int| 0u8);
    let info = domain_label(domain) + crate::bytes::be_bytes(epoch as nat, 4)
        + seq![direction_index(dir), 1u8];
    crate::outside::hmac_sha256(crate::outside::hmac_sha256(salt, root_key.bytes()), info)
}

/// A remembered traffic key.
#[derive(Clone, Copy)]
pub struct EpochKeySlot {
    pub epoch: u32,
    pub generation: u32,
    pub valid: bool,
    pub key: Key32,
}

/// The key of two draws of sixteen random bytes.
pub open spec fn drawn_key(hi: u128, lo: u128) -> Key32 {
    Key32 { hi, lo }
}

/// Whether a key is the one of some two draws.
pub open spec fn is_drawn_key(key: Key32) -> bool {
    exists|hi: u128, lo: u128| key == #[trigger] drawn_key(hi, lo)
}

/// A root key, if both of its draws have given something.
pub fn root_key_of_draws(hi: Option<u128>, lo: Option<u128>) -> (key: Option<Key32>)
    ensures
        key == (if hi is Some && lo is Some {
            Some(drawn_key(hi->0, lo->0))
        } else {
            None
        }),
{
    match (hi, lo) {
        (Some(hi), Some(lo)) => Some(Key32 { hi, lo }),
        _ => None,
    }
}

/// Whether a session uses an epoch in a direction: it sends in it, has received
/// in it, or can still receive in it from before a synchronization.
pub open spec fn epoch_used(
    replay: DomainModel,
    grace: bool,
    send_epoch: u32,
    dir: SecureDatagramDirection,
    epoch: u32,
) -> bool {
    epoch == send_epoch || replay.rx.pair(dir).holds(epoch) || (grace && replay.grace.slots.pair(
        dir,
    ).holds(epoch))
}

impl EpochKeySlot {
    /// The slot, emptied unless its key is used.
    pub open spec fn kept_if(self, used: bool) -> EpochKeySlot {
        EpochKeySlot { valid: self.valid && used, ..self }
    }

    fn empty() -> (slot: Self)
        ensures
            !slot.valid,
    {
        EpochKeySlot { epoch: 0, generation: 0, valid: false, key: Key32 { hi: 0, lo: 0 } }
    }
}

/// Remembered traffic keys of one direction.
#[derive(Clone, Copy)]
pub struct EpochKeys {
    pub first: EpochKeySlot,
    pub second: EpochKeySlot,
}

impl EpochKeys {
    /// Every remembered key is the key that the root key gives.
    pub open spec fn coherent(
        self,
        root_key: Key32,
        domain: KeyDomain,
        dir: SecureDatagramDirection,
    ) -> bool {
        &&& self.first.valid ==> self.first.key.bytes() == traffic_key_bytes(
            root_key,
            domain,
            self.first.epoch,
            dir,
        )
        &&& self.second.valid ==> self.second.key.bytes() == traffic_key_bytes(
            root_key,
            domain,
            self.second.epoch,
            dir,
        )
    }

    /// The keys without those of epochs that the session no longer uses.
    pub open spec fn pruned(
        self,
        replay: DomainModel,
        grace: bool,
        send_epoch: u32,
        dir: SecureDatagramDirection,
    ) -> EpochKeys {
        EpochKeys {
            first: self.first.kept_if(
                epoch_used(replay, grace, send_epoch, dir, self.first.epoch),
            ),
            second: self.second.kept_if(
                epoch_used(replay, grace, send_epoch, dir, self.second.epoch),
            ),
        }
    }

    fn empty() -> (keys: Self)
        ensures
            !keys.first.valid,
            !keys.second.valid,
    {
        EpochKeys { first: EpochKeySlot::empty(), second: EpochKeySlot::empty() }
    }
}

/// Remembered traffic keys of one domain.
#[derive(Clone, Copy)]
pub struct KeyCache {
    pub a_to_b: EpochKeys,
    pub b_to_a: EpochKeys,
}

impl KeyCache {
    #[verifier::opaque]
    pub open spec fn coherent(self, root_key: Key32, domain: KeyDomain) -> bool {
        &&& self.a_to_b.coherent(root_key, domain, SecureDatagramDirection::AToB)
        &&& self.b_to_a.coherent(root_key, domain, SecureDatagramDirection::BToA)
    }

    fn empty() -> (cache: Self)
        ensures
            forall|root_key: Key32, domain: KeyDomain| #[trigger]
                cache.coherent(root_key, domain),
    {
        proof {
            reveal(KeyCache::coherent);
        }
        KeyCache { a_to_b: EpochKeys::empty(), b_to_a: EpochKeys::empty() }
    }

    fn keys(&self, dir: SecureDatagramDirection) -> (keys: EpochKeys)
        ensures
            keys == (match dir {
                SecureDatagramDirection::AToB => self.a_to_b,
                SecureDatagramDirection::BToA => self.b_to_a,
            }),
    {
        match dir {
            SecureDatagramDirection::AToB => self.a_to_b,
            SecureDatagramDirection::BToA => self.b_to_a,
        }
    }

    fn set_keys(&mut self, dir: SecureDatagramDirection, keys: EpochKeys)
        ensures
            *final(self) == (match dir {
                SecureDatagramDirection::AToB => KeyCache { a_to_b: keys, ..*old(self) },
                SecureDatagramDirection::BToA => KeyCache { b_to_a: keys, ..*old(self) },
            }),
    {
        match dir {
            SecureDatagramDirection::AToB => {
                self.a_to_b = keys;
            },
            SecureDatagramDirection::BToA => {
                self.b_to_a = keys;
            },
        }
    }

    /// The cache without the keys of epochs that the session no longer uses.
    pub open spec fn without_unused(self, replay: DomainModel, grace: bool, send_epoch: u32) -> KeyCache {
        KeyCache {
            a_to_b: self.a_to_b.pruned(replay, grace, send_epoch, SecureDatagramDirection::AToB),
            b_to_a: self.b_to_a.pruned(replay, grace, send_epoch, SecureDatagramDirection::BToA),
        }
    }

    /// Forgets the keys of epochs that the session no longer uses.
    fn prune(&mut self, replay: &ReplayDomain, grace: bool, send_epoch: u32)
        ensures
            *final(self) == old(self).without_unused(replay@.model(), grace, send_epoch),
            forall|root_key: Key32, domain: KeyDomain| #[trigger]
                old(self).coherent(root_key, domain) ==> final(self).coherent(root_key, domain),
    {
        proof {
            reveal(KeyCache::coherent);
        }
        self.a_to_b = Self::pruned(self.a_to_b, replay, grace, send_epoch, SecureDatagramDirection::AToB);
        self.b_to_a = Self::pruned(self.b_to_a, replay, grace, send_epoch, SecureDatagramDirection::BToA);
    }

    fn pruned(
        keys: EpochKeys,
        replay: &ReplayDomain,
        grace: bool,
        send_epoch: u32,
        dir: SecureDatagramDirection,
    ) -> (kept: EpochKeys)
        ensures
            kept == keys.pruned(replay@.model(), grace, send_epoch, dir),
    {
        let mut kept = keys;
        if kept.first.valid && !replay.epoch_in_use(grace, send_epoch, dir, kept.first.epoch) {
            kept.first.valid = false;
        }
        if kept.second.valid && !replay.epoch_in_use(grace, send_epoch, dir, kept.second.epoch) {
            kept.second.valid = false;
        }
        kept
    }
}

/// One sequence counter per direction.
#[derive(Clone, Copy, PartialEq, Eq, Structural)]
pub struct SendSequences {
    pub a_to_b: u64,
    pub b_to_a: u64,
}

impl SendSequences {
    pub open spec fn next(self, dir: SecureDatagramDirection) -> u64 {
        match dir {
            SecureDatagramDirection::AToB => self.a_to_b,
            SecureDatagramDirection::BToA => self.b_to_a,
        }
    }

    pub open spec fn with_next(self, dir: SecureDatagramDirection, next: u64) -> SendSequences {
        match dir {
            SecureDatagramDirection::AToB => SendSequences { a_to_b: next, ..self },
            SecureDatagramDirection::BToA => SendSequences { b_to_a: next, ..self },
        }
    }

    fn get(&self, dir: SecureDatagramDirection) -> (next: u64)
        ensures
            next == self.next(dir),
    {
        match dir {
            SecureDatagramDirection::AToB => self.a_to_b,
            SecureDatagramDirection::BToA => self.b_to_a,
        }
    }

    fn set(&mut self, dir: SecureDatagramDirection, next: u64)
        ensures
            *final(self) == old(self).with_next(dir, next),
    {
        match dir {
            SecureDatagramDirection::AToB => {
                self.a_to_b = next;
            },
            SecureDatagramDirection::BToA => {
                self.b_to_a = next;
            },
        }
    }
}

/// One end of an encrypted datagram session.
pub struct SecureDatagramSession {
    root_key: Key32,
    session_generation: u32,
    send_epoch: u32,
    send_seq: SendSequences,
    /// FEC packets have a nonce sequence of their own in a key space of their
    /// own. The epoch is shared.
    fec_send_seq: SendSequences,
    send_epoch_started_ms: u64,
    /// Counts standard and FEC packets together.
    send_packets_since_epoch: u64,
    standard: ReplayDomain,
    fec: ReplayDomain,
    key_cache: [KeyCache; 1],
    fec_key_cache: [KeyCache; 1],
    send_cipher_algorithm: String,
    recv_cipher_algorithm: String,
    invalidated: bool,
    decrypt_fail_count: u32,
    fec_decrypt_fail_count: u32,
}

/// The value of a datagram session.
pub struct DatagramModel {
    pub root_key: Key32,
    pub session_generation: u32,
    pub send_epoch: u32,
    pub send_seq: SendSequences,
    pub fec_send_seq: SendSequences,
    pub send_epoch_started_ms: u64,
    pub send_packets_since_epoch: u64,
    pub standard: DomainView,
    pub fec: DomainView,
    pub send_cipher_algorithm: Seq<char>,
    pub recv_cipher_algorithm: Seq<char>,
    pub invalidated: bool,
    pub decrypt_fail_count: u32,
    pub fec_decrypt_fail_count: u32,
}

impl View for SecureDatagramSession {
    type V = DatagramModel;

    closed spec fn view(&self) -> DatagramModel {
        DatagramModel {
            root_key: self.root_key,
            session_generation: self.session_generation,
            send_epoch: self.send_epoch,
            send_seq: self.send_seq,
            fec_send_seq: self.fec_send_seq,
            send_epoch_started_ms: self.send_epoch_started_ms,
            send_packets_since_epoch: self.send_packets_since_epoch,
            standard: self.standard@,
            fec: self.fec@,
            send_cipher_algorithm: self.send_cipher_algorithm@,
            recv_cipher_algorithm: self.recv_cipher_algorithm@,
            invalidated: self.invalidated,
            decrypt_fail_count: self.decrypt_fail_count,
            fec_decrypt_fail_count: self.fec_decrypt_fail_count,
        }
    }
}

/// Epochs before a synchronization stay acceptable for this long.
pub const SYNC_RX_GRACE_AFTER_MS: u64 = 5_000;

pub const ROTATE_AFTER_PACKETS: u64 = 1_000_000;

pub const ROTATE_AFTER_MS: u64 = 600_000;

pub const DECRYPT_FAIL_THRESHOLD: u32 = 10;

pub const FEC_DECRYPT_FAIL_THRESHOLD: u32 = 10;

/// The epoch after `epoch`; the last one is followed by zero.
pub open spec fn next_epoch(epoch: u32) -> u32 {
    if epoch == u32::MAX {
        0
    } else {
        (epoch + 1) as u32
    }
}

impl DatagramModel {
    /// A session that has sent and received nothing.
    pub open spec fn fresh(
        root_key: Key32,
        session_generation: u32,
        initial_epoch: u32,
        send_cipher_algorithm: Seq<char>,
        recv_cipher_algorithm: Seq<char>,
        now_ms: u64,
    ) -> DatagramModel {
        DatagramModel {
            root_key,
            session_generation,
            send_epoch: initial_epoch,
            send_seq: SendSequences { a_to_b: 0, b_to_a: 0 },
            fec_send_seq: SendSequences { a_to_b: 0, b_to_a: 0 },
            send_epoch_started_ms: now_ms,
            send_packets_since_epoch: 0,
            standard: DomainView::empty(),
            fec: DomainView::empty(),
            send_cipher_algorithm,
            recv_cipher_algorithm,
            invalidated: false,
            decrypt_fail_count: 0,
            fec_decrypt_fail_count: 0,
        }
    }

    /// The highest epoch that the session sends in or has received in.
    pub open spec fn highest_epoch(self) -> u32 {
        let a = self.send_epoch;
        let b = self.standard.rx_max_epoch();
        let c = self.fec.rx_max_epoch();
        if a >= b && a >= c {
            a
        } else if b >= c {
            b
        } else {
            c
        }
    }

    /// The epoch that the next synchronization starts at the earliest.
    pub open spec fn next_sync_epoch(self) -> u32 {
        next_epoch(self.highest_epoch())
    }

    /// The session after a synchronization. Earlier epochs stay acceptable for
    /// the grace period only when that is asked for and the root key is kept.
    #[verifier::opaque]
    pub open spec fn synchronized(
        self,
        root_key: Key32,
        session_generation: u32,
        initial_epoch: u32,
        preserve_rx_grace: bool,
        now_ms: u64,
    ) -> DatagramModel {
        let preserve = preserve_rx_grace && self.root_key == root_key;
        let expires_at_ms = if now_ms + SYNC_RX_GRACE_AFTER_MS > u64::MAX {
            u64::MAX
        } else {
            (now_ms + SYNC_RX_GRACE_AFTER_MS) as u64
        };
        DatagramModel {
            root_key,
            session_generation,
            send_epoch: initial_epoch,
            send_seq: SendSequences { a_to_b: 0, b_to_a: 0 },
            fec_send_seq: SendSequences { a_to_b: 0, b_to_a: 0 },
            send_epoch_started_ms: now_ms,
            send_packets_since_epoch: 0,
            standard: self.standard.synchronized(preserve, initial_epoch, expires_at_ms),
            fec: self.fec.synchronized(preserve, initial_epoch, expires_at_ms),
            decrypt_fail_count: 0,
            fec_decrypt_fail_count: 0,
            ..self
        }
    }

    /// The session after `count` more packets were counted: the send epoch
    /// advances when it has carried enough packets or lasted long enough.
    #[verifier::opaque]
    pub open spec fn counted(self, count: u64, now_ms: u64) -> DatagramModel {
        let packets = if self.send_packets_since_epoch + count > u64::MAX {
            u64::MAX as int
        } else {
            self.send_packets_since_epoch + count
        };
        if packets < ROTATE_AFTER_PACKETS && now_ms - self.send_epoch_started_ms
            < ROTATE_AFTER_MS {
            DatagramModel { send_packets_since_epoch: packets as u64, ..self }
        } else {
            DatagramModel {
                send_epoch: next_epoch(self.send_epoch),
                send_epoch_started_ms: now_ms,
                send_packets_since_epoch: 0,
                ..self
            }
        }
    }

    pub open spec fn sequences(self, domain: KeyDomain) -> SendSequences {
        match domain {
            KeyDomain::Standard => self.send_seq,
            KeyDomain::Fec => self.fec_send_seq,
        }
    }

    pub open spec fn with_sequences(self, domain: KeyDomain, seqs: SendSequences) -> DatagramModel {
        match domain {
            KeyDomain::Standard => DatagramModel { send_seq: seqs, ..self },
            KeyDomain::Fec => DatagramModel { fec_send_seq: seqs, ..self },
        }
    }

    /// Whether `count` nonces are left in the sequence.
    pub open spec fn has_nonces(self, domain: KeyDomain, dir: SecureDatagramDirection, count: u64) -> bool {
        self.sequences(domain).next(dir) + count <= u64::MAX
    }

    /// The session after a range of `count` nonces was asked for.
    pub open spec fn reserved(
        self,
        domain: KeyDomain,
        dir: SecureDatagramDirection,
        count: u64,
        now_ms: u64,
    ) -> DatagramModel {
        if count == 0 {
            self
        } else if self.has_nonces(domain, dir, count) {
            let seqs = self.sequences(domain);
            self.counted(count, now_ms).with_sequences(
                domain,
                seqs.with_next(dir, (seqs.next(dir) + count) as u64),
            )
        } else {
            self.counted(count, now_ms)
        }
    }

    /// What a packet is sealed with under the nonce `(epoch, seq)`.
    pub open spec fn seal_request(
        self,
        domain: KeyDomain,
        dir: SecureDatagramDirection,
        epoch: u32,
        seq: u64,
        packet: PacketModel,
    ) -> RequestModel {
        RequestModel {
            algorithm: self.send_cipher_algorithm,
            key: traffic_key_bytes(self.root_key, domain, epoch, dir),
            epoch,
            seq,
            aad: packet.header->0.stable_bytes(),
        }
    }

    /// What a sealed packet is opened with.
    pub open spec fn open_request(
        self,
        domain: KeyDomain,
        dir: SecureDatagramDirection,
        packet: PacketModel,
    ) -> RequestModel {
        let nonce = packet.tail_nonce()->0;
        RequestModel {
            algorithm: self.recv_cipher_algorithm,
            key: traffic_key_bytes(self.root_key, domain, nonce.0, dir),
            epoch: nonce.0,
            seq: nonce.1,
            aad: packet.header->0.stable_bytes(),
        }
    }

    /// Where a packet of the domain is checked for replay.
    pub open spec fn replay_context(
        self,
        domain: KeyDomain,
        dir: SecureDatagramDirection,
        now_ms: u64,
    ) -> ReplayContext {
        ReplayContext {
            dir,
            send_epoch: self.send_epoch,
            cross_domain_epoch: match domain {
                KeyDomain::Standard => self.fec.authenticated_epoch(
                    self.fec.grace_by_expiry(now_ms),
                ),
                KeyDomain::Fec => self.standard.authenticated_epoch(
                    self.standard.grace_in_snapshot(now_ms),
                ),
            },
        }
    }

    /// Whether a packet could be accepted.
    #[verifier::opaque]
    pub open spec fn acceptable(
        self,
        domain: KeyDomain,
        dir: SecureDatagramDirection,
        epoch: u32,
        seq: u64,
        now_ms: u64,
    ) -> bool {
        let ctx = self.replay_context(domain, dir, now_ms);
        match domain {
            KeyDomain::Standard => self.standard.acceptable(
                self.standard.grace_by_expiry(now_ms),
                ctx,
                epoch,
                seq,
            ),
            KeyDomain::Fec => self.fec.acceptable(
                self.fec.grace_by_expiry(now_ms),
                ctx,
                epoch,
                seq,
            ),
        }
    }

    /// The session after a packet was checked.
    #[verifier::opaque]
    pub open spec fn checked(self, domain: KeyDomain, now_ms: u64) -> DatagramModel {
        match domain {
            KeyDomain::Standard => DatagramModel {
                fec: self.fec.after_expiry_look(now_ms),
                standard: self.standard.after_expiry_check(now_ms),
                ..self
            },
            KeyDomain::Fec => DatagramModel {
                standard: self.standard.after_snapshot(now_ms),
                fec: self.fec.after_expiry_look(now_ms),
                ..self
            },
        }
    }

    /// Whether the grace state counts when an opened packet is recorded.
    pub open spec fn commit_grace(self, domain: KeyDomain, now_ms: u64) -> bool {
        match domain {
            KeyDomain::Standard => self.standard.grace_by_expiry(now_ms),
            KeyDomain::Fec => self.fec.grace_in_snapshot(now_ms),
        }
    }

    /// Whether an opened packet is new.
    #[verifier::opaque]
    pub open spec fn commits(
        self,
        domain: KeyDomain,
        dir: SecureDatagramDirection,
        epoch: u32,
        seq: u64,
        now_ms: u64,
    ) -> bool {
        let ctx = self.replay_context(domain, dir, now_ms);
        let grace = self.commit_grace(domain, now_ms);
        match domain {
            KeyDomain::Standard => self.standard.acceptable(grace, ctx, epoch, seq),
            KeyDomain::Fec => self.fec.acceptable(grace, ctx, epoch, seq),
        }
    }

    /// The session after an opened packet was offered to the replay state.
    #[verifier::opaque]
    pub open spec fn committed(
        self,
        domain: KeyDomain,
        dir: SecureDatagramDirection,
        epoch: u32,
        seq: u64,
        now_ms: u64,
    ) -> DatagramModel {
        let ctx = self.replay_context(domain, dir, now_ms);
        let grace = self.commit_grace(domain, now_ms);
        match domain {
            KeyDomain::Standard => DatagramModel {
                fec: self.fec.after_expiry_look(now_ms),
                standard: self.standard.after_expiry_check(now_ms).committed(
                    grace,
                    ctx,
                    epoch,
                    seq,
                    now_ms,
                ),
                ..self
            },
            KeyDomain::Fec => DatagramModel {
                standard: self.standard.after_snapshot(now_ms),
                fec: self.fec.after_expiry(now_ms).committed(grace, ctx, epoch, seq, now_ms),
                ..self
            },
        }
    }

    /// One more failure in the streak, up to the threshold.
    pub open spec fn with_failure(self, domain: KeyDomain) -> DatagramModel {
        match domain {
            KeyDomain::Standard => DatagramModel {
                decrypt_fail_count: if self.decrypt_fail_count < DECRYPT_FAIL_THRESHOLD {
                    (self.decrypt_fail_count + 1) as u32
                } else {
                    DECRYPT_FAIL_THRESHOLD
                },
                ..self
            },
            KeyDomain::Fec => DatagramModel {
                fec_decrypt_fail_count: if self.fec_decrypt_fail_count
                    < FEC_DECRYPT_FAIL_THRESHOLD {
                    (self.fec_decrypt_fail_count + 1) as u32
                } else {
                    FEC_DECRYPT_FAIL_THRESHOLD
                },
                ..self
            },
        }
    }

    /// An empty failure streak.
    pub open spec fn with_success(self, domain: KeyDomain) -> DatagramModel {
        match domain {
            KeyDomain::Standard => DatagramModel { decrypt_fail_count: 0, ..self },
            KeyDomain::Fec => DatagramModel { fec_decrypt_fail_count: 0, ..self },
        }
    }
}

/// Counting packets and checking replay state keep keys and algorithms.
pub proof fn lemma_keys_kept(session: DatagramModel, domain: KeyDomain, count: u64, now_ms: u64)
    ensures
        ({
            let c = session.counted(count, now_ms);
            &&& c.root_key == session.root_key
            &&& c.send_cipher_algorithm == session.send_cipher_algorithm
            &&& c.recv_cipher_algorithm == session.recv_cipher_algorithm
            &&& c.send_seq == session.send_seq
            &&& c.fec_send_seq == session.fec_send_seq
            &&& c.invalidated == session.invalidated
        }),
        ({
            let c = session.checked(domain, now_ms);
            &&& c.root_key == session.root_key
            &&& c.send_cipher_algorithm == session.send_cipher_algorithm
            &&& c.recv_cipher_algorithm == session.recv_cipher_algorithm
            &&& c.invalidated == session.invalidated
        }),
{
    reveal(DatagramModel::counted);
    reveal(DatagramModel::checked);
}

impl SecureDatagramSession {
    /// How long old epochs stay readable after a synchronization, in milliseconds.
    pub const SYNC_RX_GRACE_AFTER_MS: u64 = SYNC_RX_GRACE_AFTER_MS;

    /// Remembered keys are the keys that the root key gives, and the replay
    /// windows are well formed.
    pub closed spec fn wf(self) -> bool {
        &&& self.standard.wf()
        &&& self.fec.wf()
        &&& self.key_cache@[0].coherent(self.root_key, KeyDomain::Standard)
        &&& self.fec_key_cache@[0].coherent(self.root_key, KeyDomain::Fec)
    }

    /// The replay state of a session is sound at all times.
    pub proof fn lemma_sound(self)
        requires
            self.wf(),
        ensures
            self@.standard.model().sound(),
            self@.fec.model().sound(),
    {
        self.standard.lemma_sound();
        self.fec.lemma_sound();
    }

    pub fn new(
        root_key: Key32,
        session_generation: u32,
        initial_epoch: u32,
        send_cipher_algorithm: String,
        recv_cipher_algorithm: String,
        now_ms: u64,
    ) -> (session: Self)
        ensures
            session.wf(),
            session@ == DatagramModel::fresh(
                root_key,
                session_generation,
                initial_epoch,
                send_cipher_algorithm@,
                recv_cipher_algorithm@,
                now_ms,
            ),
    {
        SecureDatagramSession {
            root_key,
            session_generation,
            send_epoch: initial_epoch,
            send_seq: SendSequences { a_to_b: 0, b_to_a: 0 },
            fec_send_seq: SendSequences { a_to_b: 0, b_to_a: 0 },
            send_epoch_started_ms: now_ms,
            send_packets_since_epoch: 0,
            standard: ReplayDomain::empty(),
            fec: ReplayDomain::empty(),
            key_cache: [KeyCache::empty()],
            fec_key_cache: [KeyCache::empty()],
            send_cipher_algorithm,
            recv_cipher_algorithm,
            invalidated: false,
            decrypt_fail_count: 0,
            fec_decrypt_fail_count: 0,
        }
    }

    pub fn invalidate(&mut self)
        requires
            old(self).wf(),
        ensures
            final(self).wf(),
            final(self)@ == (DatagramModel { invalidated: true, ..old(self)@ }),
    {
        self.invalidated = true;
    }

    /// Takes in whether the cipher sealed what it was asked to seal, in either
    /// domain. A session whose cipher cannot seal is over.
    pub fn finish_encrypt_payload(&mut self, sealed: bool)
        requires
            old(self).wf(),
        ensures
            final(self).wf(),
            final(self)@ == (if sealed {
                old(self)@
            } else {
                DatagramModel { invalidated: true, ..old(self)@ }
            }),
    {
        if !sealed {
            self.invalidate();
        }
    }

    pub fn is_valid(&self) -> (valid: bool)
        ensures
            valid == !self@.invalidated,
    {
        !self.invalidated
    }

    /// Records one failed decryption without changing authenticated state.
    fn record_failure(&mut self, domain: KeyDomain)
        requires
            old(self).wf(),
        ensures
            final(self).wf(),
            final(self)@ == old(self)@.with_failure(domain),
    {
        match domain {
            KeyDomain::Standard => {
                self.decrypt_fail_count = if self.decrypt_fail_count < DECRYPT_FAIL_THRESHOLD {
                    self.decrypt_fail_count + 1
                } else {
                    DECRYPT_FAIL_THRESHOLD
                };
            },
            KeyDomain::Fec => {
                self.fec_decrypt_fail_count = if self.fec_decrypt_fail_count
                    < FEC_DECRYPT_FAIL_THRESHOLD {
                    self.fec_decrypt_fail_count + 1
                } else {
                    FEC_DECRYPT_FAIL_THRESHOLD
                };
            },
        }
    }

    /// Clears the failure streak after an authenticated packet was accepted.
    fn record_success(&mut self, domain: KeyDomain)
        requires
            old(self).wf(),
        ensures
            final(self).wf(),
            final(self)@ == old(self)@.with_success(domain),
    {
        match domain {
            KeyDomain::Standard => {
                self.decrypt_fail_count = 0;
            },
            KeyDomain::Fec => {
                self.fec_decrypt_fail_count = 0;
            },
        }
    }

    pub fn decrypt_fail_count(&self) -> (count: u32)
        ensures
            count == self@.decrypt_fail_count,
    {
        self.decrypt_fail_count
    }

    pub fn fec_decrypt_fail_count(&self) -> (count: u32)
        ensures
            count == self@.fec_decrypt_fail_count,
    {
        self.fec_decrypt_fail_count
    }

    pub fn send_epoch(&self) -> (epoch: u32)
        ensures
            epoch == self@.send_epoch,
    {
        self.send_epoch
    }

    pub fn session_generation(&self) -> (generation: u32)
        ensures
            generation == self@.session_generation,
    {
        self.session_generation
    }

    pub fn root_key(&self) -> (key: Key32)
        ensures
            key == self@.root_key,
    {
        self.root_key
    }

    /// A root key of random bytes, or none when the system has none to give.
    /// Each half is a draw of its own, put together by `root_key_of_draws`.
    pub fn new_root_key() -> (key: Option<Key32>)
        ensures
            key matches Some(k) ==> is_drawn_key(k),
    {
        let hi = random_u128();
        let lo = random_u128();
        let key = root_key_of_draws(hi, lo);
        proof {
            if let Some(k) = key {
                assert(k == drawn_key(hi->0, lo->0));
            }
        }
        key
    }

    pub fn next_sync_epoch(&self) -> (epoch: u32)
        ensures
            epoch == self@.next_sync_epoch(),
    {
        let received: u32 = max_u32(self.standard.rx_max_epoch(), self.fec.rx_max_epoch());
        max_u32(self.send_epoch, received).wrapping_add(1)
    }

    pub fn check_encrypt_algo_same(
        &self,
        send_algorithm: &String,
        recv_algorithm: &String,
    ) -> (checked: Result<(), DatagramError>)
        ensures
            checked == (if self@.send_cipher_algorithm == send_algorithm@
                && self@.recv_cipher_algorithm == recv_algorithm@ {
                Ok::<(), DatagramError>(())
            } else {
                Err(DatagramError::AlgorithmMismatch)
            }),
    {
        if self.send_cipher_algorithm != *send_algorithm || self.recv_cipher_algorithm
            != *recv_algorithm {
            return Err(DatagramError::AlgorithmMismatch);
        }
        Ok(())
    }

    /// Starts a new epoch under a root key that both ends agreed on.
    pub fn sync_root_key(
        &mut self,
        root_key: Key32,
        session_generation: u32,
        initial_epoch: u32,
        preserve_rx_grace: bool,
        now_ms: u64,
    )
        requires
            old(self).wf(),
        ensures
            final(self).wf(),
            final(self)@ == old(self)@.synchronized(
                root_key,
                session_generation,
                initial_epoch,
                preserve_rx_grace,
                now_ms,
            ),
    {
        proof {
            reveal(DatagramModel::synchronized);
        }
        let preserve = preserve_rx_grace && self.root_key == root_key;
        let expires_at_ms: u64 = now_ms.saturating_add(SYNC_RX_GRACE_AFTER_MS);
        self.root_key = root_key;
        self.session_generation = session_generation;
        self.send_epoch = initial_epoch;
        self.send_seq = SendSequences { a_to_b: 0, b_to_a: 0 };
        self.fec_send_seq = SendSequences { a_to_b: 0, b_to_a: 0 };
        self.send_epoch_started_ms = now_ms;
        self.send_packets_since_epoch = 0;
        self.standard.synchronize(preserve, initial_epoch, expires_at_ms);
        self.fec.synchronize(preserve, initial_epoch, expires_at_ms);
        self.key_cache = [KeyCache::empty()];
        self.fec_key_cache = [KeyCache::empty()];
        self.decrypt_fail_count = 0;
        self.fec_decrypt_fail_count = 0;
    }

    fn label(domain: KeyDomain) -> (label: Vec<u8>)
        ensures
            label@ == domain_label(domain),
    {
        let mut label: Vec<u8> = Vec::new();
        label.push(101);
        label.push(116);
        label.push(45);
        match domain {
            KeyDomain::Standard => {},
            KeyDomain::Fec => {
                label.push(102);
                label.push(101);
                label.push(99);
                label.push(45);
            },
        }
        label.push(116);
        label.push(114);
        label.push(97);
        label.push(102);
        label.push(102);
        label.push(105);
        label.push(99);
        assert(label@ =~= domain_label(domain));
        label
    }

    fn hkdf_traffic_key(
        &self,
        domain: KeyDomain,
        epoch: u32,
        dir: SecureDatagramDirection,
    ) -> (key: Key32)
        ensures
            key.bytes() == traffic_key_bytes(self@.root_key, domain, epoch, dir),
    {
        proof {
            reveal(traffic_key_bytes);
        }
        let mut salt: Vec<u8> = Vec::new();
        push_zeros(&mut salt, 32);
        assert(salt@ =~= Seq::new(32, |i: int| 0u8));
        let root = self.root_key.to_bytes();
        let prk = hmac_sha256_of(salt.as_slice(), root.as_slice());
        let mut info = Self::label(domain);
        push_be(&mut info, epoch as u128, 4);
        info.push(
            match dir {
                SecureDatagramDirection::AToB => 0u8,
                SecureDatagramDirection::BToA => 1u8,
            },
        );
        info.push(1);
        assert(info@ =~= domain_label(domain) + crate::bytes::be_bytes(epoch as nat, 4)
            + seq![direction_index(dir), 1u8]);
        let okm = hmac_sha256_of(prk.as_slice(), info.as_slice());
        Key32::from_bytes(okm.as_slice())
    }

    /// The traffic key of an epoch, from memory where it is remembered.
    fn get_or_create_key(
        &mut self,
        domain: KeyDomain,
        epoch: u32,
        dir: SecureDatagramDirection,
    ) -> (key: Key32)
        requires
            old(self).wf(),
        ensures
            final(self).wf(),
            final(self)@ == old(self)@,
            key.bytes() == traffic_key_bytes(old(self)@.root_key, domain, epoch, dir),
    {
        proof {
            reveal(KeyCache::coherent);
        }
        let generation: u32 = self.session_generation;
        let mut keys = match domain {
            KeyDomain::Standard => self.key_cache[0].keys(dir),
            KeyDomain::Fec => self.fec_key_cache[0].keys(dir),
        };
        if keys.first.valid && keys.first.epoch == epoch && keys.first.generation == generation {
            return keys.first.key;
        }
        if keys.second.valid && keys.second.epoch == epoch && keys.second.generation
            == generation {
            return keys.second.key;
        }
        let key = self.hkdf_traffic_key(domain, epoch, dir);
        let slot = EpochKeySlot { epoch, generation, valid: true, key };
        if !keys.first.valid || keys.first.epoch == epoch {
            keys.first = slot;
        } else {
            keys.second = slot;
        }
        match domain {
            KeyDomain::Standard => {
                let mut cache = self.key_cache[0];
                cache.set_keys(dir, keys);
                self.key_cache = [cache];
            },
            KeyDomain::Fec => {
                let mut cache = self.fec_key_cache[0];
                cache.set_keys(dir, keys);
                self.fec_key_cache = [cache];
            },
        }
        key
    }

    fn maybe_rotate_epoch(&mut self, now_ms: u64, packet_count: u64)
        requires
            old(self).wf(),
        ensures
            final(self).wf(),
            final(self)@ == old(self)@.counted(packet_count, now_ms),
    {
        proof {
            reveal(DatagramModel::counted);
        }
        let packets: u64 = self.send_packets_since_epoch.saturating_add(packet_count);
        self.send_packets_since_epoch = packets;
        if packets < ROTATE_AFTER_PACKETS && now_ms.saturating_sub(self.send_epoch_started_ms)
            < ROTATE_AFTER_MS {
            return ;
        }
        self.send_epoch = self.send_epoch.wrapping_add(1);
        self.send_epoch_started_ms = now_ms;
        self.send_packets_since_epoch = 0;
    }

    /// Takes `packet_count` consecutive nonces out of the send sequence.
    pub fn reserve_nonce_range(
        &mut self,
        domain: KeyDomain,
        dir: SecureDatagramDirection,
        packet_count: u64,
        now_ms: u64,
    ) -> (range: Result<(u32, u64), DatagramError>)
        requires
            old(self).wf(),
        ensures
            final(self).wf(),
            final(self)@ == old(self)@.reserved(domain, dir, packet_count, now_ms),
            range == (if packet_count == 0 {
                Ok::<(u32, u64), DatagramError>((old(self)@.send_epoch, 0u64))
            } else if old(self)@.has_nonces(domain, dir, packet_count) {
                Ok((final(self)@.send_epoch, old(self)@.sequences(domain).next(dir)))
            } else {
                Err(DatagramError::NonceSequenceExhausted)
            }),
    {
        proof {
            reveal(DatagramModel::counted);
        }
        if packet_count == 0 {
            return Ok((self.send_epoch, 0));
        }
        self.maybe_rotate_epoch(now_ms, packet_count);
        let epoch: u32 = self.send_epoch;
        let current: u64 = match domain {
            KeyDomain::Standard => self.send_seq.get(dir),
            KeyDomain::Fec => self.fec_send_seq.get(dir),
        };
        if current > u64::MAX - packet_count {
            return Err(DatagramError::NonceSequenceExhausted);
        }
        match domain {
            KeyDomain::Standard => {
                self.send_seq.set(dir, current + packet_count);
            },
            KeyDomain::Fec => {
                self.fec_send_seq.set(dir, current + packet_count);
            },
        }
        Ok((epoch, current))
    }
}

/// What a batch check decided about one packet.
pub enum BatchItem {
    /// The packet is refused before the cipher runs.
    Reject(DatagramError),
    /// The cipher is to open the packet.
    Open(CipherRequest),
}

/// A batch of packets whose replay state was checked.
pub struct DecryptBatch {
    pub items: Vec<BatchItem>,
    /// The highest epoch of the FEC domain when the batch was checked.
    pub cross_domain_epoch: u32,
    /// Whether the session looked at the packets at all.
    pub checked: bool,
}

/// The nonce of a packet that claims to be sealed.
pub open spec fn batch_nonce(packet: PacketModel) -> Option<(u32, u64)> {
    if packet.is_encrypted() {
        packet.tail_nonce()
    } else {
        None
    }
}

/// Whether another packet of the batch carries the same nonce.
pub open spec fn nonce_repeated(packets: Seq<Packet>, i: int) -> bool {
    exists|j: int|
        0 <= j < packets.len() && j != i && #[trigger] batch_nonce(packets[j]@) == batch_nonce(
            packets[i]@,
        )
}

impl DatagramModel {
    /// Why packet `i` of a batch is refused before the cipher runs, if it is.
    pub open spec fn batch_refusal(
        self,
        dir: SecureDatagramDirection,
        packets: Seq<Packet>,
        i: int,
        now_ms: u64,
    ) -> Option<DatagramError> {
        let packet = packets[i]@;
        if !packet.is_encrypted() {
            Some(DatagramError::NotEncrypted)
        } else if packet.tail_nonce() is None {
            Some(DatagramError::NoTail)
        } else if nonce_repeated(packets, i) {
            Some(DatagramError::DuplicateNonce)
        } else if !self.standard.acceptable(
            self.standard.grace_in_snapshot(now_ms),
            self.replay_context(KeyDomain::Standard, dir, now_ms),
            (packet.tail_nonce()->0).0,
            (packet.tail_nonce()->0).1,
        ) {
            Some(DatagramError::ReplayRejected)
        } else {
            None
        }
    }
}

/// The nonce of a packet that the cipher is to open.
pub open spec fn item_nonce(item: BatchItem) -> (u32, u64) {
    (item->Open_0.epoch, item->Open_0.seq)
}

/// Whether nonce `a` at index `i` is recorded before nonce `b` at index `j`.
pub open spec fn recorded_before(a: (u32, u64), i: int, b: (u32, u64), j: int) -> bool {
    a.0 < b.0 || (a.0 == b.0 && (a.1 < b.1 || (a.1 == b.1 && i < j)))
}

/// The opened packets of a batch in the order in which they are recorded: by
/// epoch, then by sequence number, then by position.
pub open spec fn is_commit_order(order: Seq<int>, items: Seq<BatchItem>, opened: Seq<bool>) -> bool {
    &&& forall|k: int|
        0 <= k < order.len() ==> 0 <= #[trigger] order[k] < items.len() && items[order[k]] is Open
            && opened[order[k]]
    &&& forall|i: int|
        0 <= i < items.len() && #[trigger] items[i] is Open && opened[i] ==> order.contains(i)
    &&& forall|a: int, b: int|
        0 <= a < b < order.len() ==> recorded_before(
            item_nonce(items[#[trigger] order[a]]),
            order[a],
            item_nonce(items[#[trigger] order[b]]),
            order[b],
        )
}

/// The replay state after the packets of `order` were recorded.
pub open spec fn committed_in_order(
    domain: DomainView,
    grace: bool,
    ctx: ReplayContext,
    items: Seq<BatchItem>,
    order: Seq<int>,
    now_ms: u64,
) -> DomainView
    decreases order.len(),
{
    if order.len() == 0 {
        domain
    } else {
        let nonce = item_nonce(items[order.last()]);
        committed_in_order(domain, grace, ctx, items, order.drop_last(), now_ms).committed(
            grace,
            ctx,
            nonce.0,
            nonce.1,
            now_ms,
        )
    }
}

/// Whether the packet at position `k` of the order is new when its turn comes.
pub open spec fn accepted_in_order(
    domain: DomainView,
    grace: bool,
    ctx: ReplayContext,
    items: Seq<BatchItem>,
    order: Seq<int>,
    k: int,
    now_ms: u64,
) -> bool {
    let nonce = item_nonce(items[order[k]]);
    committed_in_order(domain, grace, ctx, items, order.take(k), now_ms).acceptable(
        grace,
        ctx,
        nonce.0,
        nonce.1,
    )
}

/// The result for packet `i` of a batch.
pub open spec fn batch_outcome(
    domain: DomainView,
    grace: bool,
    ctx: ReplayContext,
    items: Seq<BatchItem>,
    opened: Seq<bool>,
    order: Seq<int>,
    i: int,
    now_ms: u64,
) -> Result<(), DatagramError> {
    match items[i] {
        BatchItem::Reject(error) => Err(error),
        BatchItem::Open(_) => if !opened[i] {
            Err(DatagramError::DecryptFailed)
        } else if accepted_in_order(domain, grace, ctx, items, order, order.index_of(i), now_ms) {
            Ok(())
        } else {
            Err(DatagramError::ReplayRejected)
        },
    }
}

/// Whether a packet can be sealed, or why not.
pub open spec fn seals(
    session: DatagramModel,
    domain: KeyDomain,
    dir: SecureDatagramDirection,
    packet: PacketModel,
) -> Result<(), DatagramError> {
    if session.invalidated {
        Err(DatagramError::SessionInvalidated)
    } else if !session.has_nonces(domain, dir, 1) {
        Err(DatagramError::NonceSequenceExhausted)
    } else if packet.header is None {
        Err(DatagramError::NoPeerHeader)
    } else {
        Ok(())
    }
}

/// Whether a batch can be sealed, or why not.
pub open spec fn sealable(
    session: DatagramModel,
    domain: KeyDomain,
    dir: SecureDatagramDirection,
    packets: Seq<Packet>,
) -> Result<(), DatagramError> {
    if session.invalidated {
        Err(DatagramError::SessionInvalidated)
    } else if !session.has_nonces(domain, dir, packets.len() as u64) {
        Err(DatagramError::NonceSequenceExhausted)
    } else if exists|i: int| 0 <= i < packets.len() && (#[trigger] packets[i])@.header is None {
        Err(DatagramError::NoPeerHeader)
    } else {
        Ok(())
    }
}

/// The requests of a sealed batch: one per packet, with consecutive nonces of
/// one epoch.
pub open spec fn sealed_with(
    before: DatagramModel,
    after: DatagramModel,
    domain: KeyDomain,
    dir: SecureDatagramDirection,
    packets: Seq<Packet>,
    requests: Seq<CipherRequest>,
) -> bool {
    &&& requests.len() == packets.len()
    &&& forall|i: int|
        0 <= i < packets.len() ==> (#[trigger] requests[i])@ == before.seal_request(
            domain,
            dir,
            after.send_epoch,
            (before.sequences(domain).next(dir) + i) as u64,
            packets[i]@,
        )
}

impl SecureDatagramSession {
    fn packet_aad(packet: &Packet) -> (aad: Option<Vec<u8>>)
        ensures
            aad is Some <==> packet@.header is Some,
            aad matches Some(data) ==> data@ == packet@.header->0.stable_bytes(),
    {
        match &packet.header {
            Some(header) => Some(header.stable_auth_data()),
            None => None,
        }
    }

    fn seal(
        &mut self,
        domain: KeyDomain,
        dir: SecureDatagramDirection,
        packet: &Packet,
        now_ms: u64,
    ) -> (request: Result<CipherRequest, DatagramError>)
        requires
            old(self).wf(),
        ensures
            final(self).wf(),
            final(self)@ == (if old(self)@.invalidated {
                old(self)@
            } else {
                old(self)@.reserved(domain, dir, 1, now_ms)
            }),
            request is Ok <==> seals(old(self)@, domain, dir, packet@) is Ok,
            request matches Ok(r) ==> r@ == old(self)@.seal_request(
                domain,
                dir,
                final(self)@.send_epoch,
                old(self)@.sequences(domain).next(dir),
                packet@,
            ),
            request matches Err(e) ==> seals(old(self)@, domain, dir, packet@) == Err::<
                (),
                DatagramError,
            >(e),
    {
        proof {
            lemma_keys_kept(self@, domain, 1, now_ms);
        }
        if !self.is_valid() {
            return Err(DatagramError::SessionInvalidated);
        }
        let (epoch, seq) = match self.reserve_nonce_range(domain, dir, 1, now_ms) {
            Ok(range) => range,
            Err(error) => {
                return Err(error);
            },
        };
        match Self::packet_aad(packet) {
            None => Err(DatagramError::NoPeerHeader),
            Some(aad) => {
                let key = self.get_or_create_key(domain, epoch, dir);
                let algorithm = self.send_cipher_algorithm.clone();
                Ok(CipherRequest { algorithm, key, epoch, seq, aad })
            },
        }
    }

    fn seal_batch(
        &mut self,
        domain: KeyDomain,
        dir: SecureDatagramDirection,
        packets: &Vec<Packet>,
        now_ms: u64,
    ) -> (requests: Result<Vec<CipherRequest>, DatagramError>)
        requires
            old(self).wf(),
        ensures
            final(self).wf(),
            final(self)@ == (if old(self)@.invalidated {
                old(self)@
            } else {
                old(self)@.reserved(domain, dir, packets@.len() as u64, now_ms)
            }),
            requests matches Ok(rs) ==> sealable(old(self)@, domain, dir, packets@) == Ok::<
                (),
                DatagramError,
            >(()) && sealed_with(old(self)@, final(self)@, domain, dir, packets@, rs@),
            requests matches Err(e) ==> sealable(old(self)@, domain, dir, packets@) == Err::<
                (),
                DatagramError,
            >(e),
    {
        proof {
            lemma_keys_kept(self@, domain, packets@.len() as u64, now_ms);
        }
        if !self.is_valid() {
            return Err(DatagramError::SessionInvalidated);
        }
        let count: usize = packets.len();
        if count == 0 {
            let none: Vec<CipherRequest> = Vec::new();
            return Ok(none);
        }
        let (epoch, start) = match self.reserve_nonce_range(domain, dir, count as u64, now_ms) {
            Ok(range) => range,
            Err(error) => {
                return Err(error);
            },
        };
        let key = self.get_or_create_key(domain, epoch, dir);
        let mut requests: Vec<CipherRequest> = Vec::new();
        let mut i: usize = 0;
        while i < count
            invariant
                self.wf(),
                count == packets@.len(),
                i <= count,
                requests@.len() == i,
                !old(self)@.invalidated,
                self@.send_cipher_algorithm == old(self)@.send_cipher_algorithm,
                old(self)@.has_nonces(domain, dir, count as u64),
                start == old(self)@.sequences(domain).next(dir),
                self@ == old(self)@.reserved(domain, dir, count as u64, now_ms),
                epoch == self@.send_epoch,
                key.bytes() == traffic_key_bytes(old(self)@.root_key, domain, epoch, dir),
                forall|k: int| 0 <= k < i ==> (#[trigger] packets@[k])@.header is Some,
                forall|k: int|
                    0 <= k < i ==> (#[trigger] requests@[k])@
                        == old(self)@.seal_request(
                        domain,
                        dir,
                        epoch,
                        (start + k) as u64,
                        packets@[k]@,
                    ),
            decreases count - i,
        {
            match Self::packet_aad(&packets[i]) {
                None => {
                    return Err(DatagramError::NoPeerHeader);
                },
                Some(aad) => {
                    let algorithm = self.send_cipher_algorithm.clone();
                    let seq: u64 = start + i as u64;
                    let request = CipherRequest { algorithm, key, epoch, seq, aad };
                    assert(request@ == old(self)@.seal_request(
                        domain,
                        dir,
                        epoch,
                        seq,
                        packets@[i as int]@,
                    ));
                    requests.push(request);
                },
            }
            i = i + 1;
        }
        Ok(requests)
    }

    /// Decides what a packet is sealed with. Each call uses up one nonce.
    pub fn encrypt_payload(
        &mut self,
        dir: SecureDatagramDirection,
        packet: &Packet,
        now_ms: u64,
    ) -> (request: Result<CipherRequest, DatagramError>)
        requires
            old(self).wf(),
        ensures
            final(self).wf(),
            final(self)@ == (if old(self)@.invalidated {
                old(self)@
            } else {
                old(self)@.reserved(KeyDomain::Standard, dir, 1, now_ms)
            }),
            request is Ok <==> seals(old(self)@, KeyDomain::Standard, dir, packet@) is Ok,
            request matches Ok(r) ==> r@ == old(self)@.seal_request(
                KeyDomain::Standard,
                dir,
                final(self)@.send_epoch,
                old(self)@.sequences(KeyDomain::Standard).next(dir),
                packet@,
            ),
            request matches Err(e) ==> seals(old(self)@, KeyDomain::Standard, dir, packet@) == Err::<
                (),
                DatagramError,
            >(e),
    {
        self.seal(KeyDomain::Standard, dir, packet, now_ms)
    }

    /// Decides what the packets of a batch are sealed with. The batch uses up
    /// one nonce per packet, all of one epoch.
    pub fn encrypt_payload_batch(
        &mut self,
        dir: SecureDatagramDirection,
        packets: &Vec<Packet>,
        now_ms: u64,
    ) -> (requests: Result<Vec<CipherRequest>, DatagramError>)
        requires
            old(self).wf(),
        ensures
            final(self).wf(),
            final(self)@ == (if old(self)@.invalidated {
                old(self)@
            } else {
                old(self)@.reserved(KeyDomain::Standard, dir, packets@.len() as u64, now_ms)
            }),
            requests matches Ok(rs) ==> sealable(old(self)@, KeyDomain::Standard, dir, packets@) == Ok::<
                (),
                DatagramError,
            >(()) && sealed_with(old(self)@, final(self)@, KeyDomain::Standard, dir, packets@, rs@),
            requests matches Err(e) ==> sealable(old(self)@, KeyDomain::Standard, dir, packets@) == Err::<
                (),
                DatagramError,
            >(e),
    {
        self.seal_batch(KeyDomain::Standard, dir, packets, now_ms)
    }

    /// Decides what a packet of the FEC domain is sealed with.
    ///
    /// FEC uses a key label and a nonce sequence of its own. The header is
    /// authenticated in the same way as in the standard domain.
    pub fn encrypt_fec_payload(
        &mut self,
        dir: SecureDatagramDirection,
        packet: &Packet,
        now_ms: u64,
    ) -> (request: Result<CipherRequest, DatagramError>)
        requires
            old(self).wf(),
        ensures
            final(self).wf(),
            final(self)@ == (if old(self)@.invalidated {
                old(self)@
            } else {
                old(self)@.reserved(KeyDomain::Fec, dir, 1, now_ms)
            }),
            request is Ok <==> seals(old(self)@, KeyDomain::Fec, dir, packet@) is Ok,
            request matches Ok(r) ==> r@ == old(self)@.seal_request(
                KeyDomain::Fec,
                dir,
                final(self)@.send_epoch,
                old(self)@.sequences(KeyDomain::Fec).next(dir),
                packet@,
            ),
            request matches Err(e) ==> seals(old(self)@, KeyDomain::Fec, dir, packet@) == Err::<
                (),
                DatagramError,
            >(e),
    {
        self.seal(KeyDomain::Fec, dir, packet, now_ms)
    }

    /// Decides what the packets of a FEC batch are sealed with.
    pub fn encrypt_fec_payload_batch(
        &mut self,
        dir: SecureDatagramDirection,
        packets: &Vec<Packet>,
        now_ms: u64,
    ) -> (requests: Result<Vec<CipherRequest>, DatagramError>)
        requires
            old(self).wf(),
        ensures
            final(self).wf(),
            final(self)@ == (if old(self)@.invalidated {
                old(self)@
            } else {
                old(self)@.reserved(KeyDomain::Fec, dir, packets@.len() as u64, now_ms)
            }),
            requests matches Ok(rs) ==> sealable(old(self)@, KeyDomain::Fec, dir, packets@) == Ok::<
                (),
                DatagramError,
            >(()) && sealed_with(old(self)@, final(self)@, KeyDomain::Fec, dir, packets@, rs@),
            requests matches Err(e) ==> sealable(old(self)@, KeyDomain::Fec, dir, packets@) == Err::<
                (),
                DatagramError,
            >(e),
    {
        self.seal_batch(KeyDomain::Fec, dir, packets, now_ms)
    }

    /// Whether a packet could be accepted.
    pub fn precheck_replay(
        &mut self,
        domain: KeyDomain,
        dir: SecureDatagramDirection,
        epoch: u32,
        seq: u64,
        now_ms: u64,
    ) -> (acceptable: bool)
        requires
            old(self).wf(),
        ensures
            final(self).wf(),
            acceptable == old(self)@.acceptable(domain, dir, epoch, seq, now_ms),
            final(self)@ == old(self)@.checked(domain, now_ms),
    {
        proof {
            reveal(DatagramModel::acceptable);
            reveal(DatagramModel::checked);
        }
        proof {
            crate::datagram_replay::lemma_looks_keep_verdicts(self.standard@, now_ms);
            crate::datagram_replay::lemma_looks_keep_verdicts(self.fec@, now_ms);
        }
        match domain {
            KeyDomain::Standard => {
                let cross_grace = self.fec.expiry_snapshot(now_ms);
                let cross_domain_epoch: u32 = self.fec.max_authenticated_epoch(cross_grace);
                let grace = self.standard.grace_active(now_ms);
                let ctx = ReplayContext { dir, send_epoch: self.send_epoch, cross_domain_epoch };
                self.standard.precheck_replay_state(grace, ctx, epoch, seq)
            },
            KeyDomain::Fec => {
                let cross_grace = self.standard.snapshot(now_ms);
                let cross_domain_epoch: u32 = self.standard.max_authenticated_epoch(cross_grace);
                let grace = self.fec.expiry_snapshot(now_ms);
                let ctx = ReplayContext { dir, send_epoch: self.send_epoch, cross_domain_epoch };
                self.fec.precheck_replay_state(grace, ctx, epoch, seq)
            },
        }
    }

    /// Records an opened packet. Only a packet that is new is accepted.
    pub fn commit_replay(
        &mut self,
        domain: KeyDomain,
        dir: SecureDatagramDirection,
        epoch: u32,
        seq: u64,
        now_ms: u64,
    ) -> (accepted: bool)
        requires
            old(self).wf(),
        ensures
            final(self).wf(),
            accepted == old(self)@.commits(domain, dir, epoch, seq, now_ms),
            final(self)@ == old(self)@.committed(domain, dir, epoch, seq, now_ms),
    {
        proof {
            reveal(DatagramModel::commits);
            reveal(DatagramModel::committed);
        }
        proof {
            crate::datagram_replay::lemma_looks_keep_verdicts(self.standard@, now_ms);
            crate::datagram_replay::lemma_looks_keep_verdicts(self.fec@, now_ms);
        }
        match domain {
            KeyDomain::Standard => {
                let cross_grace = self.fec.expiry_snapshot(now_ms);
                let cross_domain_epoch: u32 = self.fec.max_authenticated_epoch(cross_grace);
                let grace = self.standard.grace_active(now_ms);
                let ctx = ReplayContext { dir, send_epoch: self.send_epoch, cross_domain_epoch };
                let accepted = self.standard.commit_replay_state(grace, ctx, epoch, seq, now_ms);
                let mut cache = self.key_cache[0];
                cache.prune(&self.standard, grace, self.send_epoch);
                self.key_cache = [cache];
                accepted
            },
            KeyDomain::Fec => {
                let cross_grace = self.standard.snapshot(now_ms);
                let cross_domain_epoch: u32 = self.standard.max_authenticated_epoch(cross_grace);
                let grace = self.fec.expire_grace(now_ms);
                let ctx = ReplayContext { dir, send_epoch: self.send_epoch, cross_domain_epoch };
                let accepted = self.fec.commit_replay_state(grace, ctx, epoch, seq, now_ms);
                let mut cache = self.fec_key_cache[0];
                cache.prune(&self.fec, grace, self.send_epoch);
                self.fec_key_cache = [cache];
                accepted
            },
        }
    }

    /// Checks a packet and records it in one step.
    pub fn check_replay(
        &mut self,
        dir: SecureDatagramDirection,
        epoch: u32,
        seq: u64,
        now_ms: u64,
    ) -> (accepted: bool)
        requires
            old(self).wf(),
        ensures
            final(self).wf(),
            accepted == (old(self)@.acceptable(KeyDomain::Standard, dir, epoch, seq, now_ms)
                && old(self)@.checked(KeyDomain::Standard, now_ms).commits(
                KeyDomain::Standard,
                dir,
                epoch,
                seq,
                now_ms,
            )),
            final(self)@ == (if old(self)@.acceptable(KeyDomain::Standard, dir, epoch, seq, now_ms) {
                old(self)@.checked(KeyDomain::Standard, now_ms).committed(
                    KeyDomain::Standard,
                    dir,
                    epoch,
                    seq,
                    now_ms,
                )
            } else {
                old(self)@.checked(KeyDomain::Standard, now_ms)
            }),
    {
        if self.precheck_replay(KeyDomain::Standard, dir, epoch, seq, now_ms) {
            return self.commit_replay(KeyDomain::Standard, dir, epoch, seq, now_ms);
        }
        false
    }

    fn open(
        &mut self,
        domain: KeyDomain,
        dir: SecureDatagramDirection,
        packet: &Packet,
        now_ms: u64,
    ) -> (request: Result<CipherRequest, DatagramError>)
        requires
            old(self).wf(),
        ensures
            final(self).wf(),
            opens(old(self)@, domain, dir, packet@, now_ms) is Ok <==> request is Ok,
            request matches Ok(r) ==> r@ == old(self)@.open_request(domain, dir, packet@),
            request matches Err(e) ==> opens(old(self)@, domain, dir, packet@, now_ms)
                == Err::<(), DatagramError>(e),
            final(self)@ == (if old(self)@.invalidated || batch_nonce(packet@) is None {
                old(self)@
            } else {
                old(self)@.checked(domain, now_ms)
            }),
    {
        proof {
            lemma_keys_kept(self@, domain, 1, now_ms);
        }
        if !self.is_valid() {
            return Err(DatagramError::SessionInvalidated);
        }
        let aad = match &packet.header {
            Some(header) => {
                if !header.is_encrypted() {
                    return Err(DatagramError::NotEncrypted);
                }
                header.stable_auth_data()
            },
            None => {
                return Err(DatagramError::NotEncrypted);
            },
        };
        let (epoch, seq) = match packet.tail_nonce() {
            Some(nonce) => nonce,
            None => {
                return Err(DatagramError::NoTail);
            },
        };
        if !self.precheck_replay(domain, dir, epoch, seq, now_ms) {
            return Err(DatagramError::ReplayRejected);
        }
        let key = self.get_or_create_key(domain, epoch, dir);
        let algorithm = self.recv_cipher_algorithm.clone();
        Ok(CipherRequest { algorithm, key, epoch, seq, aad })
    }

    fn finish_open(
        &mut self,
        domain: KeyDomain,
        dir: SecureDatagramDirection,
        epoch: u32,
        seq: u64,
        opened: bool,
        now_ms: u64,
    ) -> (accepted: Result<(), DatagramError>)
        requires
            old(self).wf(),
        ensures
            final(self).wf(),
            accepted == (if !opened {
                Err::<(), DatagramError>(DatagramError::DecryptFailed)
            } else if !old(self)@.commits(domain, dir, epoch, seq, now_ms) {
                Err(DatagramError::ReplayRejected)
            } else {
                Ok(())
            }),
            final(self)@ == (if !opened {
                old(self)@.with_failure(domain)
            } else if !old(self)@.commits(domain, dir, epoch, seq, now_ms) {
                old(self)@.committed(domain, dir, epoch, seq, now_ms)
            } else {
                old(self)@.committed(domain, dir, epoch, seq, now_ms).with_success(domain)
            }),
    {
        if !opened {
            self.record_failure(domain);
            return Err(DatagramError::DecryptFailed);
        }
        if !self.commit_replay(domain, dir, epoch, seq, now_ms) {
            return Err(DatagramError::ReplayRejected);
        }
        self.record_success(domain);
        Ok(())
    }

    /// Decides what a sealed packet is opened with, or why it is refused.
    pub fn decrypt_payload(
        &mut self,
        dir: SecureDatagramDirection,
        packet: &Packet,
        now_ms: u64,
    ) -> (request: Result<CipherRequest, DatagramError>)
        requires
            old(self).wf(),
        ensures
            final(self).wf(),
            opens(old(self)@, KeyDomain::Standard, dir, packet@, now_ms) is Ok <==> request is Ok,
            request matches Ok(r) ==> r@ == old(self)@.open_request(KeyDomain::Standard, dir, packet@),
            request matches Err(e) ==> opens(old(self)@, KeyDomain::Standard, dir, packet@, now_ms)
                == Err::<(), DatagramError>(e),
            final(self)@ == (if old(self)@.invalidated || batch_nonce(packet@) is None {
                old(self)@
            } else {
                old(self)@.checked(KeyDomain::Standard, now_ms)
            }),
    {
        self.open(KeyDomain::Standard, dir, packet, now_ms)
    }

    /// Takes the cipher's answer for a packet: `opened` says whether it was
    /// authentic.
    pub fn finish_decrypt_payload(
        &mut self,
        dir: SecureDatagramDirection,
        epoch: u32,
        seq: u64,
        opened: bool,
        now_ms: u64,
    ) -> (accepted: Result<(), DatagramError>)
        requires
            old(self).wf(),
        ensures
            final(self).wf(),
            accepted == (if !opened {
                Err::<(), DatagramError>(DatagramError::DecryptFailed)
            } else if !old(self)@.commits(KeyDomain::Standard, dir, epoch, seq, now_ms) {
                Err(DatagramError::ReplayRejected)
            } else {
                Ok(())
            }),
            final(self)@ == (if !opened {
                old(self)@.with_failure(KeyDomain::Standard)
            } else if !old(self)@.commits(KeyDomain::Standard, dir, epoch, seq, now_ms) {
                old(self)@.committed(KeyDomain::Standard, dir, epoch, seq, now_ms)
            } else {
                old(self)@.committed(KeyDomain::Standard, dir, epoch, seq, now_ms).with_success(
                    KeyDomain::Standard,
                )
            }),
    {
        self.finish_open(KeyDomain::Standard, dir, epoch, seq, opened, now_ms)
    }

    /// Decides what a sealed packet of the FEC domain is opened with.
    pub fn decrypt_fec_payload(
        &mut self,
        dir: SecureDatagramDirection,
        packet: &Packet,
        now_ms: u64,
    ) -> (request: Result<CipherRequest, DatagramError>)
        requires
            old(self).wf(),
        ensures
            final(self).wf(),
            opens(old(self)@, KeyDomain::Fec, dir, packet@, now_ms) is Ok <==> request is Ok,
            request matches Ok(r) ==> r@ == old(self)@.open_request(KeyDomain::Fec, dir, packet@),
            request matches Err(e) ==> opens(old(self)@, KeyDomain::Fec, dir, packet@, now_ms)
                == Err::<(), DatagramError>(e),
            final(self)@ == (if old(self)@.invalidated || batch_nonce(packet@) is None {
                old(self)@
            } else {
                old(self)@.checked(KeyDomain::Fec, now_ms)
            }),
    {
        self.open(KeyDomain::Fec, dir, packet, now_ms)
    }

    /// Takes the cipher's answer for a packet of the FEC domain.
    pub fn finish_decrypt_fec_payload(
        &mut self,
        dir: SecureDatagramDirection,
        epoch: u32,
        seq: u64,
        opened: bool,
        now_ms: u64,
    ) -> (accepted: Result<(), DatagramError>)
        requires
            old(self).wf(),
        ensures
            final(self).wf(),
            accepted == (if !opened {
                Err::<(), DatagramError>(DatagramError::DecryptFailed)
            } else if !old(self)@.commits(KeyDomain::Fec, dir, epoch, seq, now_ms) {
                Err(DatagramError::ReplayRejected)
            } else {
                Ok(())
            }),
            final(self)@ == (if !opened {
                old(self)@.with_failure(KeyDomain::Fec)
            } else if !old(self)@.commits(KeyDomain::Fec, dir, epoch, seq, now_ms) {
                old(self)@.committed(KeyDomain::Fec, dir, epoch, seq, now_ms)
            } else {
                old(self)@.committed(KeyDomain::Fec, dir, epoch, seq, now_ms).with_success(
                    KeyDomain::Fec,
                )
            }),
    {
        self.finish_open(KeyDomain::Fec, dir, epoch, seq, opened, now_ms)
    }
}

/// Whether a sealed packet is handed to the cipher, or why it is refused.
pub open spec fn opens(
    session: DatagramModel,
    domain: KeyDomain,
    dir: SecureDatagramDirection,
    packet: PacketModel,
    now_ms: u64,
) -> Result<(), DatagramError> {
    if session.invalidated {
        Err(DatagramError::SessionInvalidated)
    } else if !packet.is_encrypted() {
        Err(DatagramError::NotEncrypted)
    } else if packet.tail_nonce() is None {
        Err(DatagramError::NoTail)
    } else if !session.acceptable(
        domain,
        dir,
        (packet.tail_nonce()->0).0,
        (packet.tail_nonce()->0).1,
        now_ms,
    ) {
        Err(DatagramError::ReplayRejected)
    } else {
        Ok(())
    }
}

impl SecureDatagramSession {
    /// Checks a batch of sealed packets against one view of the replay state.
    ///
    /// A malformed, repeated or replayed packet does not discard the others.
    pub fn decrypt_payload_batch(
        &mut self,
        dir: SecureDatagramDirection,
        packets: &Vec<Packet>,
        now_ms: u64,
    ) -> (batch: DecryptBatch)
        requires
            old(self).wf(),
        ensures
            final(self).wf(),
            final(self)@ == (if old(self)@.invalidated || packets@.len() == 0 {
                old(self)@
            } else {
                DatagramModel {
                    fec: old(self)@.fec.after_expiry_look(now_ms),
                    standard: old(self)@.standard.after_snapshot(now_ms),
                    ..old(self)@
                }
            }),
            batch.checked == (!old(self)@.invalidated && packets@.len() > 0),
            batch.checked ==> batch.cross_domain_epoch == old(self)@.replay_context(
                KeyDomain::Standard,
                dir,
                now_ms,
            ).cross_domain_epoch,
            batch.items@.len() == packets@.len(),
            forall|i: int|
                0 <= i < packets@.len() ==> item_follows(
                    old(self)@,
                    dir,
                    packets@,
                    i,
                    now_ms,
                    #[trigger] batch.items@[i],
                ),
    {
        let count: usize = packets.len();
        let mut items: Vec<BatchItem> = Vec::new();
        if !self.is_valid() || count == 0 {
            let mut k: usize = 0;
            while k < count
                invariant
                    k <= count,
                    count == packets@.len(),
                    items@.len() == k,
                    old(self)@.invalidated || count == 0,
                    forall|i: int|
                        0 <= i < k ==> #[trigger] items@[i] == BatchItem::Reject(
                            DatagramError::SessionInvalidated,
                        ),
                decreases count - k,
            {
                items.push(BatchItem::Reject(DatagramError::SessionInvalidated));
                k = k + 1;
            }
            return DecryptBatch { items, cross_domain_epoch: 0, checked: false };
        }
        let mut nonces: Vec<Option<(u32, u64)>> = Vec::new();
        let mut n: usize = 0;
        while n < count
            invariant
                n <= count,
                count == packets@.len(),
                nonces@.len() == n,
                forall|k: int| 0 <= k < n ==> #[trigger] nonces@[k] == batch_nonce(packets@[k]@),
            decreases count - n,
        {
            let nonce = match &packets[n].header {
                Some(header) => if header.is_encrypted() {
                    packets[n].tail_nonce()
                } else {
                    None
                },
                None => None,
            };
            nonces.push(nonce);
            n = n + 1;
        }
        proof {
            crate::datagram_replay::lemma_looks_keep_verdicts(self.standard@, now_ms);
            crate::datagram_replay::lemma_looks_keep_verdicts(self.fec@, now_ms);
        }
        let cross_grace = self.fec.expiry_snapshot(now_ms);
        let cross_domain_epoch: u32 = self.fec.max_authenticated_epoch(cross_grace);
        let grace = self.standard.snapshot(now_ms);
        let ctx = ReplayContext { dir, send_epoch: self.send_epoch, cross_domain_epoch };
        let ghost looked = self@;
        let mut i: usize = 0;
        while i < count
            invariant
                i <= count,
                count == packets@.len(),
                nonces@.len() == count,
                items@.len() == i,
                self.wf(),
                self@ == looked,
                !old(self)@.invalidated,
                looked == (DatagramModel {
                    fec: old(self)@.fec.after_expiry_look(now_ms),
                    standard: old(self)@.standard.after_snapshot(now_ms),
                    ..old(self)@
                }),
                ctx == old(self)@.replay_context(KeyDomain::Standard, dir, now_ms),
                grace == old(self)@.standard.grace_in_snapshot(now_ms),
                forall|e: u32, s: u64| #[trigger]
                    looked.standard.acceptable(grace, ctx, e, s) == old(self)@.standard.acceptable(
                        grace,
                        ctx,
                        e,
                        s,
                    ),
                forall|k: int| 0 <= k < count ==> #[trigger] nonces@[k] == batch_nonce(packets@[k]@),
                forall|k: int|
                    0 <= k < i ==> item_follows(
                        old(self)@,
                        dir,
                        packets@,
                        k,
                        now_ms,
                        #[trigger] items@[k],
                    ),
            decreases count - i,
        {
            let item = self.check_batch_packet(dir, packets, &nonces, i, grace, ctx);
            items.push(item);
            i = i + 1;
        }
        DecryptBatch { items, cross_domain_epoch, checked: true }
    }

    fn check_batch_packet(
        &mut self,
        dir: SecureDatagramDirection,
        packets: &Vec<Packet>,
        nonces: &Vec<Option<(u32, u64)>>,
        i: usize,
        grace: bool,
        ctx: ReplayContext,
    ) -> (item: BatchItem)
        requires
            old(self).wf(),
            i < packets@.len(),
            nonces@.len() == packets@.len(),
            forall|k: int|
                0 <= k < packets@.len() ==> #[trigger] nonces@[k] == batch_nonce(packets@[k]@),
        ensures
            final(self).wf(),
            final(self)@ == old(self)@,
            ({
                let packet = packets@[i as int]@;
                let nonce = packet.tail_nonce();
                if !packet.is_encrypted() {
                    item == BatchItem::Reject(DatagramError::NotEncrypted)
                } else if nonce is None {
                    item == BatchItem::Reject(DatagramError::NoTail)
                } else if nonce_repeated(packets@, i as int) {
                    item == BatchItem::Reject(DatagramError::DuplicateNonce)
                } else if !old(self)@.standard.acceptable(grace, ctx, (nonce->0).0, (nonce->0).1) {
                    item == BatchItem::Reject(DatagramError::ReplayRejected)
                } else {
                    item is Open && item->Open_0@ == old(self)@.open_request(
                        KeyDomain::Standard,
                        dir,
                        packet,
                    )
                }
            }),
    {
        let aad = match &packets[i].header {
            Some(header) => {
                if !header.is_encrypted() {
                    return BatchItem::Reject(DatagramError::NotEncrypted);
                }
                header.stable_auth_data()
            },
            None => {
                return BatchItem::Reject(DatagramError::NotEncrypted);
            },
        };
        let (epoch, seq) = match packets[i].tail_nonce() {
            Some(nonce) => nonce,
            None => {
                return BatchItem::Reject(DatagramError::NoTail);
            },
        };
        let mut repeated = false;
        let mut j: usize = 0;
        while j < nonces.len()
            invariant
                j <= nonces@.len(),
                i < packets@.len(),
                nonces@.len() == packets@.len(),
                forall|k: int|
                    0 <= k < packets@.len() ==> #[trigger] nonces@[k] == batch_nonce(packets@[k]@),
                batch_nonce(packets@[i as int]@) == Some((epoch, seq)),
                repeated == (exists|k: int|
                    0 <= k < j && k != i && #[trigger] batch_nonce(packets@[k]@) == Some(
                        (epoch, seq),
                    )),
            decreases nonces@.len() - j,
        {
            if j != i {
                match nonces[j] {
                    Some((other_epoch, other_seq)) => {
                        if other_epoch == epoch && other_seq == seq {
                            assert(batch_nonce(packets@[j as int]@) == Some((epoch, seq)));
                            repeated = true;
                        }
                    },
                    None => {},
                }
            }
            j = j + 1;
        }
        if repeated {
            return BatchItem::Reject(DatagramError::DuplicateNonce);
        }
        if !self.standard.precheck_replay_state(grace, ctx, epoch, seq) {
            return BatchItem::Reject(DatagramError::ReplayRejected);
        }
        let key = self.get_or_create_key(KeyDomain::Standard, epoch, dir);
        let algorithm = self.recv_cipher_algorithm.clone();
        BatchItem::Open(CipherRequest { algorithm, key, epoch, seq, aad })
    }

    /// The opened packets of a batch in the order in which they are recorded.
    fn commit_order(items: &Vec<BatchItem>, opened: &Vec<bool>) -> (order: Vec<usize>)
        requires
            items@.len() == opened@.len(),
        ensures
            is_commit_order(order@.map_values(|i: usize| i as int), items@, opened@),
    {
        let mut order: Vec<usize> = Vec::new();
        let mut i: usize = 0;
        while i < items.len()
            invariant
                i <= items@.len(),
                items@.len() == opened@.len(),
                orders_prefix(order@, items@, opened@, i as int),
            decreases items@.len() - i,
        {
            match &items[i] {
                BatchItem::Open(request) => {
                    if opened[i] {
                        Self::insert_in_order(&mut order, items, opened, i, request.epoch, request.seq);
                    }
                },
                BatchItem::Reject(_) => {},
            }
            i = i + 1;
        }
        proof {
            let ints = order@.map_values(|i: usize| i as int);
            assert forall|i: int|
                0 <= i < items@.len() && #[trigger] items@[i] is Open && opened@[i] implies ints.contains(i) by {
                assert(order@.contains(i as usize));
                let k = order@.index_of(i as usize);
                assert(ints[k] == i);
            }
        }
        order
    }

    fn insert_in_order(
        order: &mut Vec<usize>,
        items: &Vec<BatchItem>,
        opened: &Vec<bool>,
        i: usize,
        epoch: u32,
        seq: u64,
    )
        requires
            i < items@.len(),
            items@.len() == opened@.len(),
            items@[i as int] is Open,
            opened@[i as int],
            item_nonce(items@[i as int]) == (epoch, seq),
            orders_prefix(old(order)@, items@, opened@, i as int),
        ensures
            orders_prefix(final(order)@, items@, opened@, i + 1),
    {
        let ghost before = order@;
        let mut at: usize = order.len();
        while at > 0
            invariant
                at <= order@.len(),
                order@ == before,
                i < items@.len(),
                orders_prefix(before, items@, opened@, i as int),
                item_nonce(items@[i as int]) == (epoch, seq),
                forall|k: int|
                    at <= k < order@.len() ==> recorded_before(
                        (epoch, seq),
                        i as int,
                        item_nonce(items@[(#[trigger] order@[k]) as int]),
                        order@[k] as int,
                    ),
            ensures
                at == 0 || !recorded_before(
                    (epoch, seq),
                    i as int,
                    item_nonce(items@[order@[at - 1] as int]),
                    order@[at - 1] as int,
                ),
            decreases at,
        {
            let other: usize = order[at - 1];
            let after = match &items[other] {
                BatchItem::Open(request) => epoch < request.epoch || (epoch == request.epoch && seq
                    < request.seq),
                BatchItem::Reject(_) => false,
            };
            if !after {
                break ;
            }
            at = at - 1;
        }
        order.insert(at, i);
        proof {
            let now = order@;
            assert(now == before.insert(at as int, i));
            assert forall|k: int| 0 <= k < now.len() implies now[k] < i + 1 && items@[(
            #[trigger] now[k]) as int] is Open && opened@[now[k] as int] by {
                if k < at {
                    assert(now[k] == before[k]);
                } else if k > at {
                    assert(now[k] == before[k - 1]);
                }
            }
            assert forall|k: int|
                0 <= k < i + 1 && #[trigger] items@[k] is Open && opened@[k] implies now.contains(
                k as usize,
            ) by {
                if k < i {
                    let p = before.index_of(k as usize);
                    assert(before.contains(k as usize));
                    if p < at {
                        assert(now[p] == k as usize);
                    } else {
                        assert(now[p + 1] == k as usize);
                    }
                } else {
                    assert(now[at as int] == i);
                }
            }
            assert forall|a: int, b: int| 0 <= a < b < now.len() implies recorded_before(
                item_nonce(items@[(#[trigger] now[a]) as int]),
                now[a] as int,
                item_nonce(items@[(#[trigger] now[b]) as int]),
                now[b] as int,
            ) by {
                let pa = if a < at {
                    a
                } else {
                    a - 1
                };
                let pb = if b < at {
                    b
                } else {
                    b - 1
                };
                if a != at {
                    assert(now[a] == before[pa]);
                }
                if b != at {
                    assert(now[b] == before[pb]);
                }
                if b == at {
                    // The element before the insertion point does not come after.
                    assert(at > 0);
                    if pa < at - 1 {
                        assert(recorded_before(
                            item_nonce(items@[before[pa] as int]),
                            before[pa] as int,
                            item_nonce(items@[before[at - 1] as int]),
                            before[at - 1] as int,
                        ));
                    }
                }
            }
        }
    }
}

/// The item that a batch check gives for packet `i`.
pub open spec fn item_follows(
    session: DatagramModel,
    dir: SecureDatagramDirection,
    packets: Seq<Packet>,
    i: int,
    now_ms: u64,
    item: BatchItem,
) -> bool {
    if session.invalidated {
        item == BatchItem::Reject(DatagramError::SessionInvalidated)
    } else {
        match session.batch_refusal(dir, packets, i, now_ms) {
            Some(error) => item == BatchItem::Reject(error),
            None => item is Open && item->Open_0@ == session.open_request(
                KeyDomain::Standard,
                dir,
                packets[i]@,
            ),
        }
    }
}

/// The first `n` packets of a batch, as far as they were opened, in the order
/// in which they are recorded.
pub open spec fn orders_prefix(order: Seq<usize>, items: Seq<BatchItem>, opened: Seq<bool>, n: int) -> bool {
    &&& forall|k: int|
        0 <= k < order.len() ==> (#[trigger] order[k]) < n && order[k] < items.len()
            && items[order[k] as int] is Open && opened[order[k] as int]
    &&& forall|i: int|
        0 <= i < n && #[trigger] items[i] is Open && opened[i] ==> order.contains(i as usize)
    &&& forall|a: int, b: int|
        0 <= a < b < order.len() ==> recorded_before(
            item_nonce(items[(#[trigger] order[a]) as int]),
            order[a] as int,
            item_nonce(items[(#[trigger] order[b]) as int]),
            order[b] as int,
        )
}

/// Where the packets of a checked batch are recorded.
pub open spec fn batch_context(session: DatagramModel, dir: SecureDatagramDirection, batch: DecryptBatch) -> ReplayContext {
    ReplayContext {
        dir,
        send_epoch: session.send_epoch,
        cross_domain_epoch: batch.cross_domain_epoch,
    }
}

/// The session and the results after the opened packets of a batch were
/// recorded in the given order. One accepted packet clears the failure streak;
/// without any, a failed decryption counts once for the whole batch.
pub open spec fn batch_recorded(
    before: DatagramModel,
    after: DatagramModel,
    dir: SecureDatagramDirection,
    batch: DecryptBatch,
    opened: Seq<bool>,
    order: Seq<int>,
    results: Seq<Result<(), DatagramError>>,
    now_ms: u64,
) -> bool {
    let grace = before.standard.grace_in_snapshot(now_ms);
    let ctx = batch_context(before, dir, batch);
    let start = before.standard.after_expiry(now_ms);
    let items = batch.items@;
    let recorded = DatagramModel {
        standard: committed_in_order(start, grace, ctx, items, order, now_ms),
        ..before
    };
    &&& results.len() == items.len()
    &&& forall|i: int|
        0 <= i < items.len() ==> #[trigger] results[i] == batch_outcome(
            start,
            grace,
            ctx,
            items,
            opened,
            order,
            i,
            now_ms,
        )
    &&& after == (if exists|i: int| 0 <= i < results.len() && #[trigger] results[i] is Ok {
        recorded.with_success(KeyDomain::Standard)
    } else if exists|i: int| 0 <= i < items.len() && #[trigger] items[i] is Open && !opened[i] {
        recorded.with_failure(KeyDomain::Standard)
    } else {
        recorded
    })
}

impl SecureDatagramSession {
    /// The results of a batch before its opened packets are recorded, and
    /// whether any packet failed to open.
    fn results_before_record(batch: &DecryptBatch, opened: &Vec<bool>) -> (r: (
        Vec<Result<(), DatagramError>>,
        bool,
    ))
        requires
            opened@.len() == batch.items@.len(),
        ensures
            r.0@.len() == batch.items@.len(),
            r.1 == (exists|k: int|
                0 <= k < batch.items@.len() && #[trigger] batch.items@[k] is Open && !opened@[k]),
            forall|k: int|
                0 <= k < batch.items@.len() ==> #[trigger] r.0@[k] == result_before_record(
                    batch.items@[k],
                    opened@[k],
                ),
    {
        let count: usize = batch.items.len();
        let mut results: Vec<Result<(), DatagramError>> = Vec::new();
        let mut failed = false;
        let mut n: usize = 0;
        while n < count
            invariant
                n <= count,
                count == batch.items@.len(),
                opened@.len() == count,
                results@.len() == n,
                failed == (exists|k: int|
                    0 <= k < n && #[trigger] batch.items@[k] is Open && !opened@[k]),
                forall|k: int|
                    0 <= k < n ==> #[trigger] results@[k] == result_before_record(
                        batch.items@[k],
                        opened@[k],
                    ),
            decreases count - n,
        {
            let error = match &batch.items[n] {
                BatchItem::Reject(error) => *error,
                BatchItem::Open(_) => if opened[n] {
                    DatagramError::ReplayRejected
                } else {
                    failed = true;
                    DatagramError::DecryptFailed
                },
            };
            results.push(Err(error));
            n = n + 1;
        }
        (results, failed)
    }

    /// Records the opened packets of a batch in order.
    #[verifier::rlimit(60)]
    #[verifier::spinoff_prover]
    fn record_in_order(
        &mut self,
        grace: bool,
        ctx: ReplayContext,
        items: &Vec<BatchItem>,
        opened: &Vec<bool>,
        order: &Vec<usize>,
        results: &mut Vec<Result<(), DatagramError>>,
        now_ms: u64,
    ) -> (accepted_any: bool)
        requires
            old(self).wf(),
            opened@.len() == items@.len(),
            old(results)@.len() == items@.len(),
            is_commit_order(order@.map_values(|i: usize| i as int), items@, opened@),
            forall|k: int|
                0 <= k < items@.len() ==> #[trigger] old(results)@[k] == result_before_record(
                    items@[k],
                    opened@[k],
                ),
        ensures
            final(self).wf(),
            final(results)@.len() == items@.len(),
            ({
                let ints = order@.map_values(|i: usize| i as int);
                &&& final(self)@ == (DatagramModel {
                    standard: committed_in_order(
                        old(self)@.standard,
                        grace,
                        ctx,
                        items@,
                        ints,
                        now_ms,
                    ),
                    ..old(self)@
                })
                &&& forall|i: int|
                    0 <= i < items@.len() ==> #[trigger] final(results)@[i] == batch_outcome(
                        old(self)@.standard,
                        grace,
                        ctx,
                        items@,
                        opened@,
                        ints,
                        i,
                        now_ms,
                    )
            }),
            accepted_any == (exists|i: int|
                0 <= i < final(results)@.len() && #[trigger] final(results)@[i] is Ok),
    {
        let ghost ints = order@.map_values(|i: usize| i as int);
        let ghost start = self@.standard;
        let mut accepted_any = false;
        let mut k: usize = 0;
        assert(ints.take(0) =~= Seq::<int>::empty());
        while k < order.len()
            invariant
                k <= order@.len(),
                self.wf(),
                start == old(self)@.standard,
                opened@.len() == items@.len(),
                results@.len() == items@.len(),
                ints == order@.map_values(|i: usize| i as int),
                is_commit_order(ints, items@, opened@),
                self@ == (DatagramModel {
                    standard: committed_in_order(
                        start,
                        grace,
                        ctx,
                        items@,
                        ints.take(k as int),
                        now_ms,
                    ),
                    ..old(self)@
                }),
                accepted_any == (exists|p: int|
                    0 <= p < k && #[trigger] accepted_in_order(
                        start,
                        grace,
                        ctx,
                        items@,
                        ints,
                        p,
                        now_ms,
                    )),
                forall|p: int|
                    0 <= p < k ==> results@[#[trigger] ints[p]] == (if accepted_in_order(
                        start,
                        grace,
                        ctx,
                        items@,
                        ints,
                        p,
                        now_ms,
                    ) {
                        Ok::<(), DatagramError>(())
                    } else {
                        Err(DatagramError::ReplayRejected)
                    }),
                forall|p: int|
                    k <= p < ints.len() ==> results@[#[trigger] ints[p]] == Err::<(), DatagramError>(
                        DatagramError::ReplayRejected,
                    ),
                forall|i: int|
                    0 <= i < items@.len() && !(items@[i] is Open && opened@[i]) ==> #[trigger] results@[i]
                        == result_before_record(items@[i], opened@[i]),
            decreases order@.len() - k,
        {
            let index: usize = order[k];
            assert(ints[k as int] == index);
            assert(items@[index as int] is Open);
            let (epoch, seq) = match &items[index] {
                BatchItem::Open(request) => (request.epoch, request.seq),
                BatchItem::Reject(_) => (0u32, 0u64),
            };
            let accepted = self.standard.commit_replay_state(grace, ctx, epoch, seq, now_ms);
            proof {
                assert(ints.take(k + 1).drop_last() =~= ints.take(k as int));
                assert(ints.take(k + 1).last() == index);
                assert(accepted == accepted_in_order(
                    start,
                    grace,
                    ctx,
                    items@,
                    ints,
                    k as int,
                    now_ms,
                ));
                assert forall|p: int| 0 <= p < ints.len() && p != k implies #[trigger] ints[p]
                    != index by {
                    if p < k {
                        assert(recorded_before(
                            item_nonce(items@[ints[p]]),
                            ints[p],
                            item_nonce(items@[ints[k as int]]),
                            ints[k as int],
                        ));
                    } else {
                        assert(recorded_before(
                            item_nonce(items@[ints[k as int]]),
                            ints[k as int],
                            item_nonce(items@[ints[p]]),
                            ints[p],
                        ));
                    }
                }
            }
            if accepted {
                results.set(index, Ok(()));
                accepted_any = true;
            }
            k = k + 1;
        }
        assert(ints.take(order@.len() as int) =~= ints);
        proof {
            assert forall|i: int| 0 <= i < items@.len() implies #[trigger] results@[i]
                == batch_outcome(start, grace, ctx, items@, opened@, ints, i, now_ms) by {
                if items@[i] is Open && opened@[i] {
                    assert(ints.contains(i));
                    let p = ints.index_of(i);
                    assert(ints[p] == i);
                }
            }
            if accepted_any {
                let p = choose|p: int|
                    0 <= p < ints.len() && #[trigger] accepted_in_order(
                        start,
                        grace,
                        ctx,
                        items@,
                        ints,
                        p,
                        now_ms,
                    );
                assert(results@[ints[p]] is Ok);
            }
            if exists|i: int| 0 <= i < results@.len() && #[trigger] results@[i] is Ok {
                let i = choose|i: int| 0 <= i < results@.len() && #[trigger] results@[i] is Ok;
                assert(items@[i] is Open && opened@[i]);
                assert(ints.contains(i));
                let p = ints.index_of(i);
                assert(ints[p] == i);
                assert(accepted_in_order(start, grace, ctx, items@, ints, p, now_ms));
            }
        }
        accepted_any
    }

    /// Takes the cipher's answers for a checked batch: `opened[i]` says whether
    /// packet `i` was handed to the cipher and found authentic.
    pub fn finish_decrypt_payload_batch(
        &mut self,
        dir: SecureDatagramDirection,
        batch: &DecryptBatch,
        opened: &Vec<bool>,
        now_ms: u64,
    ) -> (results: Vec<Result<(), DatagramError>>)
        requires
            old(self).wf(),
            opened@.len() == batch.items@.len(),
        ensures
            final(self).wf(),
            results@.len() == batch.items@.len(),
            !batch.checked ==> final(self)@ == old(self)@ && forall|i: int|
                0 <= i < results@.len() ==> #[trigger] results@[i] == result_before_record(
                    batch.items@[i],
                    opened@[i],
                ),
            batch.checked ==> exists|order: Seq<int>| #[trigger]
                is_commit_order(order, batch.items@, opened@) && batch_recorded(
                    old(self)@,
                    final(self)@,
                    dir,
                    *batch,
                    opened@,
                    order,
                    results@,
                    now_ms,
                ),
    {
        let (mut results, failed) = Self::results_before_record(batch, opened);
        if !batch.checked {
            return results;
        }
        let order = Self::commit_order(&batch.items, opened);
        let ghost ints = order@.map_values(|i: usize| i as int);
        let grace = self.standard.expire_grace(now_ms);
        let ctx = ReplayContext {
            dir,
            send_epoch: self.send_epoch,
            cross_domain_epoch: batch.cross_domain_epoch,
        };
        let accepted_any = self.record_in_order(
            grace,
            ctx,
            &batch.items,
            opened,
            &order,
            &mut results,
            now_ms,
        );
        let mut cache = self.key_cache[0];
        cache.prune(&self.standard, grace, self.send_epoch);
        self.key_cache = [cache];
        if accepted_any {
            self.record_success(KeyDomain::Standard);
        } else if failed {
            self.record_failure(KeyDomain::Standard);
        }
        assert(batch_recorded(old(self)@, self@, dir, *batch, opened@, ints, results@, now_ms));
        results
    }
}

/// The result for a packet of a batch before anything is recorded.
pub open spec fn result_before_record(item: BatchItem, opened: bool) -> Result<(), DatagramError> {
    match item {
        BatchItem::Reject(error) => Err(error),
        BatchItem::Open(_) => if opened {
            Err(DatagramError::ReplayRejected)
        } else {
            Err(DatagramError::DecryptFailed)
        },
    }
}

/// A packet that is new is still new when its turn comes, if the packets that are
/// recorded before it come before it by epoch and then by sequence number.
proof fn lemma_still_new(
    domain: DomainView,
    grace: bool,
    ctx: ReplayContext,
    items: Seq<BatchItem>,
    order: Seq<int>,
    nonce: (u32, u64),
    now_ms: u64,
)
    requires
        domain.model().sound(),
        domain.acceptable(grace, ctx, nonce.0, nonce.1),
        forall|k: int|
            0 <= k < order.len() ==> {
                let earlier = item_nonce(items[#[trigger] order[k]]);
                earlier.0 < nonce.0 || (earlier.0 == nonce.0 && earlier.1 < nonce.1)
            },
    ensures
        committed_in_order(domain, grace, ctx, items, order, now_ms).model().sound(),
        committed_in_order(domain, grace, ctx, items, order, now_ms).acceptable(
            grace,
            ctx,
            nonce.0,
            nonce.1,
        ),
    decreases order.len(),
{
    if order.len() > 0 {
        let rest = order.drop_last();
        assert forall|k: int| 0 <= k < rest.len() implies {
            let earlier = item_nonce(items[#[trigger] rest[k]]);
            earlier.0 < nonce.0 || (earlier.0 == nonce.0 && earlier.1 < nonce.1)
        } by {
            assert(rest[k] == order[k]);
        }
        lemma_still_new(domain, grace, ctx, items, rest, nonce, now_ms);
        let before = committed_in_order(domain, grace, ctx, items, rest, now_ms);
        assert(order.last() == order[order.len() - 1]);
        let last = item_nonce(items[order.last()]);
        reveal(DomainView::of);
        reveal(DomainView::acceptable);
        reveal(DomainView::committed);
        crate::datagram_replay::lemma_earlier_leave_room(
            before.model(),
            grace,
            ctx,
            last,
            nonce.0,
            nonce.1,
            now_ms,
        );
        crate::datagram_replay::lemma_committed_stays_sound(
            before.model(),
            crate::datagram_replay::Offer { ctx, epoch: last.0, seq: last.1, now_ms, grace },
        );
    }
}

/// A batch does not discard its valid members: an authentic packet that is new,
/// and that shares its nonce with no other authentic packet of the batch, is
/// accepted, whatever the others are.
pub proof fn lemma_valid_members_are_accepted(
    before: DatagramModel,
    after: DatagramModel,
    dir: SecureDatagramDirection,
    batch: DecryptBatch,
    opened: Seq<bool>,
    order: Seq<int>,
    results: Seq<Result<(), DatagramError>>,
    now_ms: u64,
    i: int,
)
    requires
        before.standard.model().sound(),
        is_commit_order(order, batch.items@, opened),
        batch_recorded(before, after, dir, batch, opened, order, results, now_ms),
        0 <= i < batch.items@.len(),
        batch.items@[i] is Open,
        opened[i],
        before.standard.acceptable(
            before.standard.grace_in_snapshot(now_ms),
            batch_context(before, dir, batch),
            item_nonce(batch.items@[i]).0,
            item_nonce(batch.items@[i]).1,
        ),
        forall|j: int|
            0 <= j < batch.items@.len() && j != i && #[trigger] batch.items@[j] is Open && opened[j]
                ==> item_nonce(batch.items@[j]) != item_nonce(batch.items@[i]),
    ensures
        results[i] == Ok::<(), DatagramError>(()),
        after.decrypt_fail_count == 0,
{
    let items = batch.items@;
    let grace = before.standard.grace_in_snapshot(now_ms);
    let ctx = batch_context(before, dir, batch);
    let start = before.standard.after_expiry(now_ms);
    let nonce = item_nonce(items[i]);
    let k = order.index_of(i);
    assert(order.contains(i));
    let earlier = order.take(k);
    assert forall|a: int| 0 <= a < earlier.len() implies {
        let before_it = item_nonce(items[#[trigger] earlier[a]]);
        before_it.0 < nonce.0 || (before_it.0 == nonce.0 && before_it.1 < nonce.1)
    } by {
        assert(earlier[a] == order[a]);
        assert(order[k] == i);
        assert(items[order[a]] is Open);
    }
    crate::datagram_replay::lemma_looks_keep_verdicts(before.standard, now_ms);
    assert(start.model().sound()) by {
        reveal(DomainView::of);
        reveal(DomainView::after_expiry);
    }
    lemma_still_new(start, grace, ctx, items, earlier, nonce, now_ms);
    assert(results[i] is Ok);
}

/// The packets of a batch stand for themselves: one that is not refused before
/// the cipher runs and that opens is accepted, whatever the other packets are.
pub proof fn lemma_batch_keeps_valid_packets(
    session: DatagramModel,
    dir: SecureDatagramDirection,
    packets: Seq<Packet>,
    batch: DecryptBatch,
    opened: Seq<bool>,
    order: Seq<int>,
    after: DatagramModel,
    results: Seq<Result<(), DatagramError>>,
    now_ms: u64,
    i: int,
)
    requires
        session.standard.model().sound(),
        !session.invalidated,
        batch.items@.len() == packets.len(),
        batch.cross_domain_epoch == session.replay_context(
            KeyDomain::Standard,
            dir,
            now_ms,
        ).cross_domain_epoch,
        forall|j: int|
            0 <= j < packets.len() ==> item_follows(
                session,
                dir,
                packets,
                j,
                now_ms,
                #[trigger] batch.items@[j],
            ),
        is_commit_order(order, batch.items@, opened),
        batch_recorded(
            DatagramModel {
                fec: session.fec.after_expiry_look(now_ms),
                standard: session.standard.after_snapshot(now_ms),
                ..session
            },
            after,
            dir,
            batch,
            opened,
            order,
            results,
            now_ms,
        ),
        0 <= i < packets.len(),
        session.batch_refusal(dir, packets, i, now_ms) is None,
        opened[i],
    ensures
        results[i] == Ok::<(), DatagramError>(()),
{
    let checked = DatagramModel {
        fec: session.fec.after_expiry_look(now_ms),
        standard: session.standard.after_snapshot(now_ms),
        ..session
    };
    let items = batch.items@;
    assert(item_follows(session, dir, packets, i, now_ms, items[i]));
    assert(batch_context(checked, dir, batch) == session.replay_context(
        KeyDomain::Standard,
        dir,
        now_ms,
    ));
    crate::datagram_replay::lemma_looks_keep_verdicts(session.standard, now_ms);
    assert(checked.standard.model().sound() && checked.standard.grace_in_snapshot(now_ms)
        == session.standard.grace_in_snapshot(now_ms)) by {
        reveal(DomainView::of);
        reveal(DomainView::after_snapshot);
        reveal(DomainView::grace_in_snapshot);
    }
    assert(item_nonce(items[i]) == batch_nonce(packets[i]@)->0);
    assert forall|j: int|
        0 <= j < items.len() && j != i && #[trigger] items[j] is Open && opened[j] implies item_nonce(
        items[j],
    ) != item_nonce(items[i]) by {
        assert(item_follows(session, dir, packets, j, now_ms, items[j]));
        assert(item_nonce(items[j]) == batch_nonce(packets[j]@)->0);
        assert(!nonce_repeated(packets, i));
        assert(batch_nonce(packets[j]@) != batch_nonce(packets[i]@));
    }
    lemma_valid_members_are_accepted(
        checked,
        after,
        dir,
        batch,
        opened,
        order,
        results,
        now_ms,
        i,
    );
}

/// A receiver that shares the root key and expects the sender's algorithm asks
/// the cipher for the same key, nonce and authenticated data that the sender
/// sealed with. A cipher that opens what it sealed gives the payload back.
pub proof fn lemma_open_matches_seal(
    sender: DatagramModel,
    receiver: DatagramModel,
    domain: KeyDomain,
    dir: SecureDatagramDirection,
    epoch: u32,
    seq: u64,
    packet: PacketModel,
    sealed: PacketModel,
    ciphertext: Seq<u8>,
    tag: u128,
)
    requires
        sender.root_key == receiver.root_key,
        sender.send_cipher_algorithm == receiver.recv_cipher_algorithm,
        packet.header is Some,
        sealed.header == Some(
            crate::packet::PeerHeader { flags: packet.header->0.flags | 0x01, ..packet.header->0 },
        ),
        sealed.payload == ciphertext + crate::bytes::be_bytes(tag as nat, 16)
            + crate::bytes::be_bytes(epoch as nat, 4) + crate::bytes::be_bytes(seq as nat, 8),
    ensures
        sealed.is_encrypted(),
        sealed.tail_nonce() == Some((epoch, seq)),
        receiver.open_request(domain, dir, sealed) == sender.seal_request(
            domain,
            dir,
            epoch,
            seq,
            packet,
        ),
{
    Packet::lemma_sealed(packet, sealed, ciphertext, tag, epoch, seq);
}

/// One reservation of nonces.
pub struct Reservation {
    pub domain: KeyDomain,
    pub dir: SecureDatagramDirection,
    pub count: u64,
    pub now_ms: u64,
}

impl DatagramModel {
    /// Reserving nonces one time after the other.
    pub open spec fn reserved_all(self, steps: Seq<Reservation>) -> DatagramModel
        decreases steps.len(),
    {
        if steps.len() == 0 {
            self
        } else {
            let r = steps.last();
            self.reserved_all(steps.drop_last()).reserved(r.domain, r.dir, r.count, r.now_ms)
        }
    }
}

/// Between two synchronizations no sequence number of a domain and direction is
/// handed out twice: a range starts at or after the end of every earlier one.
pub proof fn lemma_nonce_ranges_disjoint(
    session: DatagramModel,
    domain: KeyDomain,
    dir: SecureDatagramDirection,
    count: u64,
    now_ms: u64,
    later: Seq<Reservation>,
)
    requires
        session.has_nonces(domain, dir, count),
        count > 0,
    ensures
        session.reserved(domain, dir, count, now_ms).reserved_all(later).sequences(domain).next(dir)
            >= session.sequences(domain).next(dir) + count,
{
    lemma_keys_kept(session, domain, count, now_ms);
    lemma_sequence_grows(session.reserved(domain, dir, count, now_ms), domain, dir, later);
}

proof fn lemma_sequence_grows(
    session: DatagramModel,
    domain: KeyDomain,
    dir: SecureDatagramDirection,
    later: Seq<Reservation>,
)
    ensures
        session.reserved_all(later).sequences(domain).next(dir) >= session.sequences(domain).next(
            dir,
        ),
    decreases later.len(),
{
    if later.len() > 0 {
        lemma_sequence_grows(session, domain, dir, later.drop_last());
        let r = later.last();
        lemma_keys_kept(session.reserved_all(later.drop_last()), domain, r.count, r.now_ms);
    }
}

/// A synchronization with another root key forgets every epoch from before.
pub proof fn lemma_new_root_key_forgets_epochs(
    session: DatagramModel,
    root_key: Key32,
    session_generation: u32,
    initial_epoch: u32,
    preserve_rx_grace: bool,
    now_ms: u64,
)
    requires
        session.root_key != root_key,
    ensures
        ({
            let s = session.synchronized(
                root_key,
                session_generation,
                initial_epoch,
                preserve_rx_grace,
                now_ms,
            );
            s.standard == DomainView::empty() && s.fec == DomainView::empty()
        }),
{
    reveal(DatagramModel::synchronized);
    reveal(DomainView::synchronized);
}

/// A packet that passes the check and is authentic is accepted: the check and
/// the record judge alike.
pub proof fn lemma_checked_then_committed(
    session: DatagramModel,
    dir: SecureDatagramDirection,
    epoch: u32,
    seq: u64,
    now_ms: u64,
)
    ensures
        session.commits(KeyDomain::Standard, dir, epoch, seq, now_ms) == session.acceptable(
            KeyDomain::Standard,
            dir,
            epoch,
            seq,
            now_ms,
        ),
{
    reveal(DatagramModel::commits);
    reveal(DatagramModel::acceptable);
}

/// Whether a session has received in an epoch that is as high as `epoch` or
/// higher, in either direction and key domain, and remembers it.
pub open spec fn has_received_from(session: DatagramModel, epoch: int) -> bool {
    exists|domain: KeyDomain, dir: SecureDatagramDirection| #[trigger]
        receives_from(session, domain, dir, epoch)
}

/// Whether a slot of a key domain and direction is for an epoch that is as high
/// as `epoch` or higher.
pub open spec fn receives_from(
    session: DatagramModel,
    domain: KeyDomain,
    dir: SecureDatagramDirection,
    epoch: int,
) -> bool {
    let rx = if domain == KeyDomain::Standard {
        session.standard.inner[0].rx
    } else {
        session.fec.inner[0].rx
    };
    let pair = if dir == SecureDatagramDirection::AToB {
        rx.a_to_b
    } else {
        rx.b_to_a
    };
    (pair.cur.valid && pair.cur.epoch >= epoch) || (pair.prev.valid && pair.prev.epoch >= epoch)
}

/// A synchronization starts above everything that the session has used: above
/// the epoch that it sends in and above every epoch that it has received in, and
/// no higher than that asks for.
pub proof fn lemma_sync_starts_above_everything(session: DatagramModel)
    requires
        session.send_epoch < u32::MAX,
        !has_received_from(session, u32::MAX as int),
    ensures
        session.next_sync_epoch() > session.send_epoch,
        !has_received_from(session, session.next_sync_epoch() as int),
        session.next_sync_epoch() == session.send_epoch + 1 || has_received_from(
            session,
            session.next_sync_epoch() - 1,
        ),
{
    reveal(DomainView::rx_max_epoch);
    let next = session.next_sync_epoch() as int;
    assert forall|domain: KeyDomain, dir: SecureDatagramDirection|
        !#[trigger] receives_from(session, domain, dir, u32::MAX as int) by {}
    assert(!receives_from(
        session,
        KeyDomain::Standard,
        SecureDatagramDirection::AToB,
        u32::MAX as int,
    ));
    assert(!receives_from(
        session,
        KeyDomain::Standard,
        SecureDatagramDirection::BToA,
        u32::MAX as int,
    ));
    assert(!receives_from(session, KeyDomain::Fec, SecureDatagramDirection::AToB, u32::MAX as int));
    assert(!receives_from(session, KeyDomain::Fec, SecureDatagramDirection::BToA, u32::MAX as int));
    if next != session.send_epoch + 1 {
        assert(receives_from(session, KeyDomain::Standard, SecureDatagramDirection::AToB, next - 1)
            || receives_from(session, KeyDomain::Standard, SecureDatagramDirection::BToA, next - 1)
            || receives_from(session, KeyDomain::Fec, SecureDatagramDirection::AToB, next - 1)
            || receives_from(session, KeyDomain::Fec, SecureDatagramDirection::BToA, next - 1));
    }
}

/// A packet of an epoch that was accepted, outside of a grace period, puts the
/// next synchronization above that epoch.
pub proof fn lemma_sync_starts_above_received(
    session: DatagramModel,
    domain: KeyDomain,
    dir: SecureDatagramDirection,
    epoch: u32,
    seq: u64,
    now_ms: u64,
)
    requires
        session.commits(domain, dir, epoch, seq, now_ms),
        !session.commit_grace(domain, now_ms),
        session.send_epoch < u32::MAX,
        epoch < u32::MAX,
        !has_received_from(session, u32::MAX as int),
    ensures
        session.committed(domain, dir, epoch, seq, now_ms).next_sync_epoch() > epoch,
{
    let after = session.committed(domain, dir, epoch, seq, now_ms);
    lemma_session_domains(session, domain, dir, epoch, seq, now_ms);
    reveal(DatagramModel::commits);
    reveal(DomainView::acceptable);
    assert(receives_from(after, domain, dir, epoch as int)) by {
        reveal(DomainView::acceptable);
    }
    assert(!has_received_from(after, u32::MAX as int)) by {
        assert forall|d: KeyDomain, dd: SecureDatagramDirection|
            !#[trigger] receives_from(after, d, dd, u32::MAX as int) by {
            assert(!receives_from(session, d, dd, u32::MAX as int));
        }
    }
    lemma_sync_starts_above_everything(after);
    assert(!receives_from(after, domain, dir, after.next_sync_epoch() as int));
}

/// What recording a packet does to the slots behind a session.
proof fn lemma_session_domains(
    session: DatagramModel,
    domain: KeyDomain,
    dir: SecureDatagramDirection,
    epoch: u32,
    seq: u64,
    now_ms: u64,
)
    ensures
        ({
            let after = session.committed(domain, dir, epoch, seq, now_ms);
            let ctx = session.replay_context(domain, dir, now_ms);
            let grace = session.commit_grace(domain, now_ms);
            &&& after == (DatagramModel {
                standard: after.standard,
                fec: after.fec,
                ..session
            })
            &&& domain == KeyDomain::Standard ==> {
                &&& after.fec.model().rx == session.fec.model().rx
                &&& after.standard.model().rx == session.standard.model().committed(
                    grace,
                    ctx,
                    epoch,
                    seq,
                    now_ms,
                ).rx
                &&& grace ==> after.standard.model() == session.standard.model().committed(
                    grace,
                    ctx,
                    epoch,
                    seq,
                    now_ms,
                )
            }
            &&& domain == KeyDomain::Fec ==> {
                &&& after.standard.model().rx == session.standard.model().rx
                &&& after.fec.model().rx == session.fec.model().committed(
                    grace,
                    ctx,
                    epoch,
                    seq,
                    now_ms,
                ).rx
                &&& grace ==> after.fec.model() == session.fec.model().committed(
                    grace,
                    ctx,
                    epoch,
                    seq,
                    now_ms,
                )
            }
        }),
{
    reveal(DatagramModel::committed);
    reveal(DomainView::of);
    reveal(DomainView::committed);
    reveal(DomainView::after_expiry_look);
    reveal(DomainView::after_expiry_check);
    reveal(DomainView::after_snapshot);
    reveal(DomainView::after_expiry);
    reveal(DomainView::grace_by_expiry);
    reveal(DomainView::grace_in_snapshot);
}

/// An authentic packet is taken once, and takes nothing from the others: right
/// after it was recorded, another packet of its epoch is refused only if it is
/// the same, was refused before, or was left behind by the window.
pub proof fn lemma_session_bars_only(
    session: DatagramModel,
    domain: KeyDomain,
    dir: SecureDatagramDirection,
    epoch: u32,
    seq: u64,
    now_ms: u64,
    other: u64,
)
    requires
        session.standard.model().sound(),
        session.fec.model().sound(),
    ensures
        session.committed(domain, dir, epoch, seq, now_ms).commits(domain, dir, epoch, other, now_ms)
            == (session.commits(domain, dir, epoch, other, now_ms) && other != seq && seq - other
            < 256),
{
    let after = session.committed(domain, dir, epoch, seq, now_ms);
    let ctx = session.replay_context(domain, dir, now_ms);
    let grace = session.commit_grace(domain, now_ms);
    lemma_session_domains(session, domain, dir, epoch, seq, now_ms);
    reveal(DatagramModel::committed);
    reveal(DatagramModel::commits);
    reveal(DomainView::of);
    reveal(DomainView::committed);
    reveal(DomainView::acceptable);
    reveal(DomainView::authenticated_epoch);
    reveal(DomainView::after_expiry_look);
    reveal(DomainView::after_expiry_check);
    reveal(DomainView::after_snapshot);
    reveal(DomainView::after_expiry);
    reveal(DomainView::grace_by_expiry);
    reveal(DomainView::grace_in_snapshot);
    assert(after.replay_context(domain, dir, now_ms) == ctx);
    assert(after.commit_grace(domain, now_ms) == grace);
    let model = match domain {
        KeyDomain::Standard => session.standard.model(),
        KeyDomain::Fec => session.fec.model(),
    };
    crate::datagram_replay::lemma_recording_bars_only(model, grace, ctx, epoch, seq, now_ms, other);
}

/// The send epoch goes on by one, when it has carried a million packets or has
/// lasted ten minutes, and stays otherwise: no epoch carries more.
pub proof fn lemma_send_epoch_is_limited(session: DatagramModel, count: u64, now_ms: u64)
    requires
        session.send_epoch < u32::MAX,
    ensures
        ({
            let after = session.counted(count, now_ms);
            &&& after.send_packets_since_epoch < 1_000_000
            &&& now_ms < after.send_epoch_started_ms + 600_000
            &&& after.send_epoch == session.send_epoch || after.send_epoch == session.send_epoch + 1
            &&& (after.send_epoch != session.send_epoch) == (session.send_packets_since_epoch + count
                >= 1_000_000 || now_ms >= session.send_epoch_started_ms + 600_000)
            &&& after.send_epoch == session.send_epoch ==> after.send_packets_since_epoch
                == session.send_packets_since_epoch + count && after.send_epoch_started_ms
                == session.send_epoch_started_ms
            &&& after.send_epoch != session.send_epoch ==> after.send_packets_since_epoch == 0
                && after.send_epoch_started_ms == now_ms
        }),
{
    reveal(DatagramModel::counted);
}

/// A range of nonces begins where the last one of its domain and direction ended,
/// and uses nothing of the others.
pub proof fn lemma_nonce_range_follows(
    session: DatagramModel,
    domain: KeyDomain,
    dir: SecureDatagramDirection,
    count: u64,
    now_ms: u64,
    other_domain: KeyDomain,
    other_dir: SecureDatagramDirection,
)
    requires
        session.sequences(domain).next(dir) + count <= u64::MAX,
    ensures
        session.reserved(domain, dir, count, now_ms).sequences(domain).next(dir)
            == session.sequences(domain).next(dir) + count,
        other_domain != domain || other_dir != dir ==> session.reserved(
            domain,
            dir,
            count,
            now_ms,
        ).sequences(other_domain).next(other_dir) == session.sequences(other_domain).next(other_dir),
{
    reveal(DatagramModel::counted);
}

/// A synchronization starts the session again at its epoch: nothing was sent in
/// it, and no nonce of it is used.
pub proof fn lemma_sync_starts_again(
    session: DatagramModel,
    root_key: Key32,
    session_generation: u32,
    initial_epoch: u32,
    preserve_rx_grace: bool,
    now_ms: u64,
    domain: KeyDomain,
    dir: SecureDatagramDirection,
)
    ensures
        ({
            let after = session.synchronized(
                root_key,
                session_generation,
                initial_epoch,
                preserve_rx_grace,
                now_ms,
            );
            &&& after.root_key == root_key
            &&& after.session_generation == session_generation
            &&& after.send_epoch == initial_epoch
            &&& after.sequences(domain).next(dir) == 0
            &&& after.send_packets_since_epoch == 0
            &&& after.send_epoch_started_ms == now_ms
            &&& after.decrypt_fail_count == 0
            &&& after.fec_decrypt_fail_count == 0
            &&& after.invalidated == session.invalidated
            &&& after.send_cipher_algorithm == session.send_cipher_algorithm
            &&& after.recv_cipher_algorithm == session.recv_cipher_algorithm
        }),
{
    reveal(DatagramModel::synchronized);
}

/// The epochs from before a synchronization that keeps the root key stay readable
/// for five seconds, in both key domains, if that is asked for: until then a
/// packet of an epoch that was held is judged as before.
pub proof fn lemma_sync_keeps_epochs_readable(
    session: DatagramModel,
    session_generation: u32,
    initial_epoch: u32,
    preserve_rx_grace: bool,
    now_ms: u64,
    later_ms: u64,
    ctx: ReplayContext,
    epoch: u32,
    seq: u64,
)
    requires
        now_ms + 5_000 <= u64::MAX,
        session.standard.model().sound(),
        session.fec.model().sound(),
    ensures
        ({
            let after = session.synchronized(
                session.root_key,
                session_generation,
                initial_epoch,
                preserve_rx_grace,
                now_ms,
            );
            let graced = preserve_rx_grace && later_ms < now_ms + 5_000;
            let standard = session.standard.model().rx.pair(ctx.dir);
            let fec = session.fec.model().rx.pair(ctx.dir);
            &&& after.standard.grace_by_expiry(later_ms) == graced
            &&& after.standard.grace_in_snapshot(later_ms) == graced
            &&& after.fec.grace_by_expiry(later_ms) == graced
            &&& after.fec.grace_in_snapshot(later_ms) == graced
            &&& preserve_rx_grace && standard.cur.valid && (epoch == standard.cur.epoch || (
            standard.prev.valid && epoch == standard.prev.epoch)) ==> after.standard.acceptable(
                true,
                ctx,
                epoch,
                seq,
            ) == session.standard.acceptable(false, ctx, epoch, seq)
            &&& preserve_rx_grace && fec.cur.valid && (epoch == fec.cur.epoch || (fec.prev.valid
                && epoch == fec.prev.epoch)) ==> after.fec.acceptable(true, ctx, epoch, seq)
                == session.fec.acceptable(false, ctx, epoch, seq)
        }),
{
    reveal(DatagramModel::synchronized);
    reveal(DomainView::of);
    reveal(DomainView::synchronized);
    reveal(DomainView::acceptable);
    reveal(DomainView::grace_by_expiry);
    reveal(DomainView::grace_in_snapshot);
}

/// Every key domain, epoch and direction has a key of its own: the keys of a root
/// key are derived from different texts.
pub proof fn lemma_traffic_keys_are_apart(
    root_key: Key32,
    domain_a: KeyDomain,
    epoch_a: u32,
    dir_a: SecureDatagramDirection,
    domain_b: KeyDomain,
    epoch_b: u32,
    dir_b: SecureDatagramDirection,
)
    requires
        domain_a != domain_b || epoch_a != epoch_b || dir_a != dir_b,
    ensures
        exists|secret: Seq<u8>, text_a: Seq<u8>, text_b: Seq<u8>|
            {
                &&& text_a != text_b
                &&& traffic_key_bytes(root_key, domain_a, epoch_a, dir_a)
                    == #[trigger] crate::outside::hmac_sha256(secret, text_a)
                &&& traffic_key_bytes(root_key, domain_b, epoch_b, dir_b)
                    == #[trigger] crate::outside::hmac_sha256(secret, text_b)
            },
{
    reveal(traffic_key_bytes);
    let salt = Seq::new(32, |i: int| 0u8);
    let secret = crate::outside::hmac_sha256(salt, root_key.bytes());
    let text_a = domain_label(domain_a) + crate::bytes::be_bytes(epoch_a as nat, 4)
        + seq![direction_index(dir_a), 1u8];
    let text_b = domain_label(domain_b) + crate::bytes::be_bytes(epoch_b as nat, 4)
        + seq![direction_index(dir_b), 1u8];
    broadcast use crate::bytes::lemma_be_bytes_len;

    crate::bytes::lemma_pow256();
    crate::bytes::lemma_be_value_of_bytes(epoch_a as nat, 4);
    crate::bytes::lemma_be_value_of_bytes(epoch_b as nat, 4);
    if text_a == text_b {
        let n = text_a.len() as int;
        assert(text_a[n - 2] == direction_index(dir_a));
        assert(text_b[n - 2] == direction_index(dir_b));
        assert(text_a.subrange(n - 6, n - 2) =~= crate::bytes::be_bytes(epoch_a as nat, 4));
        assert(text_b.subrange(n - 6, n - 2) =~= crate::bytes::be_bytes(epoch_b as nat, 4));
        assert(text_a.subrange(0, n - 6) =~= domain_label(domain_a));
        assert(text_b.subrange(0, n - 6) =~= domain_label(domain_b));
        assert(false);
    }
    assert(crate::outside::hmac_sha256(secret, text_a) == traffic_key_bytes(
        root_key,
        domain_a,
        epoch_a,
        dir_a,
    ));
    assert(crate::outside::hmac_sha256(secret, text_b) == traffic_key_bytes(
        root_key,
        domain_b,
        epoch_b,
        dir_b,
    ));
}

/// A packet of a newer epoch takes nothing from the epoch that was the newest
/// until then: what was on its way in that epoch is judged as before.
pub proof fn lemma_session_newest_epoch_stays_open(
    session: DatagramModel,
    domain: KeyDomain,
    dir: SecureDatagramDirection,
    newer: u32,
    seq: u64,
    now_ms: u64,
    held: u32,
    other: u64,
)
    requires
        session.standard.model().sound(),
        session.fec.model().sound(),
        held < newer,
        ({
            let rx = if domain == KeyDomain::Standard {
                session.standard.model().rx
            } else {
                session.fec.model().rx
            };
            let pair = if dir == SecureDatagramDirection::AToB {
                rx.a_to_b
            } else {
                rx.b_to_a
            };
            pair.cur.valid && pair.cur.epoch == held
        }),
    ensures
        session.committed(domain, dir, newer, seq, now_ms).commits(domain, dir, held, other, now_ms)
            == session.commits(domain, dir, held, other, now_ms),
{
    let after = session.committed(domain, dir, newer, seq, now_ms);
    let ctx = session.replay_context(domain, dir, now_ms);
    let grace = session.commit_grace(domain, now_ms);
    lemma_session_domains(session, domain, dir, newer, seq, now_ms);
    reveal(DatagramModel::committed);
    reveal(DatagramModel::commits);
    reveal(DomainView::of);
    reveal(DomainView::committed);
    reveal(DomainView::acceptable);
    reveal(DomainView::authenticated_epoch);
    reveal(DomainView::after_expiry_look);
    reveal(DomainView::after_expiry_check);
    reveal(DomainView::after_snapshot);
    reveal(DomainView::after_expiry);
    reveal(DomainView::grace_by_expiry);
    reveal(DomainView::grace_in_snapshot);
    assert(after.replay_context(domain, dir, now_ms) == ctx);
    assert(after.commit_grace(domain, now_ms) == grace);
    let model = match domain {
        KeyDomain::Standard => session.standard.model(),
        KeyDomain::Fec => session.fec.model(),
    };
    crate::datagram_replay::lemma_newest_epoch_stays_open(
        model,
        grace,
        ctx,
        newer,
        seq,
        now_ms,
        held,
        other,
    );
}

} // verus!
