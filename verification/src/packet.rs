//! Mesh packets as the peer layer sees them: a header, a payload, and the
//! origin that a session has verified.

use vstd::prelude::*;
use crate::bytes::{copy_range, push_be, read_be};

verus! {

/// Identifier of a peer in its network.
pub type PeerId = u32;

/// Bytes that the header adds to the payload in a packet buffer.
pub const PEER_MANAGER_HEADER_SIZE: usize = 16;

/// Bytes of the header fields that no relay may change.
pub const PEER_MANAGER_STABLE_AUTH_DATA_SIZE: usize = 16;

/// Authentication tag and nonce at the end of a sealed payload.
pub const STANDARD_AEAD_TAIL_SIZE: usize = 28;

pub const STANDARD_AEAD_NONCE_SIZE: usize = 12;

pub const STANDARD_AEAD_TAG_SIZE: usize = 16;

/// Kinds of packets, as they stand in the header.
pub const PACKET_DATA: u8 = 1;

pub const PACKET_ETHERNET: u8 = 2;

pub const PACKET_PING: u8 = 3;

pub const PACKET_RPC_REQ: u8 = 8;

pub const PACKET_FOREIGN_NETWORK: u8 = 10;

pub const PACKET_KCP_SRC: u8 = 11;

pub const PACKET_KCP_DST: u8 = 12;

pub const PACKET_QUIC_SRC: u8 = 13;

pub const PACKET_QUIC_DST: u8 = 14;

pub const PACKET_DATA_WITH_KCP_SRC_MODIFIED: u8 = 15;

pub const PACKET_DATA_WITH_QUIC_SRC_MODIFIED: u8 = 16;

pub const PACKET_ALTERNATE_FEC_SOURCE: u8 = 17;

pub const PACKET_ALTERNATE_FEC_PARITY: u8 = 18;

pub const PACKET_RELAY_HANDSHAKE: u8 = 20;

pub const PACKET_RELAY_HANDSHAKE_ACK: u8 = 21;

pub const PACKET_RELAY_HANDSHAKE_CONFIRM: u8 = 22;

pub const PACKET_RELAY_HANDSHAKE_CONFIRM_ACK: u8 = 23;

pub const PACKET_RELAY_HANDSHAKE_READY: u8 = 24;

pub const PACKET_RELAY_HANDSHAKE_READY_ACK: u8 = 25;

pub const PACKET_RELAY_HANDSHAKE_READY_RECEIPT: u8 = 26;

pub const PACKET_RELAY_HANDSHAKE_READY_RECEIPT_ACK: u8 = 27;

pub const PACKET_RELAY_HANDSHAKE_RESET: u8 = 28;

pub const PACKET_RELAY_HANDSHAKE_RESET_ACK: u8 = 29;

/// Header flags.
pub const FLAG_ENCRYPTED: u8 = 0x01;

pub const FLAG_LATENCY_FIRST: u8 = 0x02;

pub const FLAG_EXIT_NODE: u8 = 0x04;

pub const FLAG_NO_PROXY: u8 = 0x08;

pub const FLAG_COMPRESSED: u8 = 0x10;

pub const FLAG_NOT_SEND_TO_TUN: u8 = 0x40;

/// The flags that stay the same on the whole way from origin to destination.
pub const STABLE_FLAGS: u8 = 0xfc;

/// Header controls.
pub const CONTROL_SPEED_FIRST: u8 = 0x01;

pub const CONTROL_HYBRID_IP_ETHERNET: u8 = 0x02;

pub const CONTROL_CRITICAL_L2: u8 = 0x04;

/// The controls that stay the same on the whole way from origin to destination.
pub const STABLE_CONTROLS: u8 = 0xfe;

/// The header of a mesh packet.
#[derive(Clone, Copy, Debug, PartialEq, Eq, Structural)]
pub struct PeerHeader {
    pub from_peer_id: PeerId,
    pub to_peer_id: PeerId,
    pub packet_type: u8,
    pub flags: u8,
    pub controls: u8,
    pub forward_counter: u8,
    pub flow_shard: u8,
    /// The length of the payload that the header was made for.
    pub len: u32,
}

/// A length as it stands in a header.
pub open spec fn header_len(payload: Seq<u8>) -> u32 {
    if payload.len() > u32::MAX {
        u32::MAX
    } else {
        payload.len() as u32
    }
}

impl PeerHeader {
    pub open spec fn encrypted(self) -> bool {
        self.flags & 0x01 != 0
    }

    pub open spec fn hybrid(self) -> bool {
        self.controls & 0x02 != 0
    }

    pub open spec fn critical(self) -> bool {
        self.controls & 0x04 != 0
    }

    /// The stable header fields as bytes, with the length in front.
    pub open spec fn stable_bytes(self) -> Seq<u8> {
        crate::bytes::be_bytes(self.len as nat, 4) + self.stable_fields()
    }

    /// The stable header fields as bytes.
    pub open spec fn stable_fields(self) -> Seq<u8> {
        crate::bytes::be_bytes(self.from_peer_id as nat, 4) + crate::bytes::be_bytes(
            self.to_peer_id as nat,
            4,
        ) + crate::bytes::be_bytes(self.packet_type as nat, 1) + crate::bytes::be_bytes(
            (self.flags & 0xfc) as nat,
            1,
        ) + crate::bytes::be_bytes((self.controls & 0xfe) as nat, 1) + crate::bytes::be_bytes(
            self.flow_shard as nat,
            1,
        )
    }

    pub fn new(from_peer_id: PeerId, to_peer_id: PeerId, packet_type: u8, len: u32) -> (header: Self)
        ensures
            header == (PeerHeader {
                from_peer_id,
                to_peer_id,
                packet_type,
                flags: 0,
                controls: 0,
                forward_counter: 0,
                flow_shard: 0,
                len,
            }),
    {
        PeerHeader {
            from_peer_id,
            to_peer_id,
            packet_type,
            flags: 0,
            controls: 0,
            forward_counter: 0,
            flow_shard: 0,
            len,
        }
    }

    pub fn is_encrypted(&self) -> (encrypted: bool)
        ensures
            encrypted == self.encrypted(),
    {
        self.flags & FLAG_ENCRYPTED != 0
    }

    pub fn is_hybrid_ip_ethernet(&self) -> (hybrid: bool)
        ensures
            hybrid == self.hybrid(),
    {
        self.controls & CONTROL_HYBRID_IP_ETHERNET != 0
    }

    pub fn is_critical_l2_control(&self) -> (critical: bool)
        ensures
            critical == self.critical(),
    {
        self.controls & CONTROL_CRITICAL_L2 != 0
    }

    /// Sets or clears the flags of `mask`.
    pub fn set_flags(&mut self, mask: u8, value: bool)
        ensures
            *final(self) == (PeerHeader {
                flags: if value {
                    old(self).flags | mask
                } else {
                    old(self).flags & !mask
                },
                ..*old(self)
            }),
    {
        if value {
            self.flags = self.flags | mask;
        } else {
            self.flags = self.flags & !mask;
        }
    }

    /// Sets or clears the controls of `mask`.
    pub fn set_controls(&mut self, mask: u8, value: bool)
        ensures
            *final(self) == (PeerHeader {
                controls: if value {
                    old(self).controls | mask
                } else {
                    old(self).controls & !mask
                },
                ..*old(self)
            }),
    {
        if value {
            self.controls = self.controls | mask;
        } else {
            self.controls = self.controls & !mask;
        }
    }

    /// Appends the stable header fields.
    fn push_stable(&self, out: &mut Vec<u8>)
        ensures
            final(out)@ == old(out)@ + self.stable_fields(),
    {
        push_be(out, self.from_peer_id as u128, 4);
        push_be(out, self.to_peer_id as u128, 4);
        push_be(out, self.packet_type as u128, 1);
        push_be(out, (self.flags & STABLE_FLAGS) as u128, 1);
        push_be(out, (self.controls & STABLE_CONTROLS) as u128, 1);
        push_be(out, self.flow_shard as u128, 1);
        assert(out@ =~= old(out)@ + self.stable_fields());
    }

    /// The bytes that authenticate the header: the length and the stable fields.
    pub fn stable_auth_data(&self) -> (data: Vec<u8>)
        ensures
            data@ == self.stable_bytes(),
    {
        let mut data: Vec<u8> = Vec::new();
        push_be(&mut data, self.len as u128, 4);
        self.push_stable(&mut data);
        assert(data@ =~= self.stable_bytes());
        data
    }

    /// The stable fields without the length.
    pub fn stable_fields_data(&self) -> (data: Vec<u8>)
        ensures
            data@ == self.stable_fields(),
    {
        let mut data: Vec<u8> = Vec::new();
        self.push_stable(&mut data);
        assert(data@ =~= self.stable_fields());
        data
    }

    /// The stable bytes have a fixed length.
    pub proof fn lemma_stable_len(self)
        ensures
            self.stable_fields().len() == 12,
            self.stable_bytes().len() == PEER_MANAGER_STABLE_AUTH_DATA_SIZE,
    {
        broadcast use crate::bytes::lemma_be_bytes_len;

    }

    /// Whether the fields agree that no relay may change.
    pub open spec fn same_stable(self, other: PeerHeader) -> bool {
        &&& self.from_peer_id == other.from_peer_id
        &&& self.to_peer_id == other.to_peer_id
        &&& self.packet_type == other.packet_type
        &&& self.flags & 0xfc == other.flags & 0xfc
        &&& self.controls & 0xfe == other.controls & 0xfe
        &&& self.flow_shard == other.flow_shard
    }

    /// Two headers have the same stable fields exactly when those agree that no
    /// relay may change, and the same stable bytes when the lengths agree too.
    pub proof fn lemma_stable_fields(a: PeerHeader, b: PeerHeader)
        ensures
            (a.stable_fields() == b.stable_fields()) <==> a.same_stable(b),
            (a.stable_bytes() == b.stable_bytes()) <==> (a.same_stable(b) && a.len == b.len),
    {
        a.lemma_parts();
        b.lemma_parts();
        a.lemma_stable_len();
        b.lemma_stable_len();
        assert(a.stable_bytes().subrange(4, 16) =~= a.stable_fields()) by {
            broadcast use crate::bytes::lemma_be_bytes_len;

        }
        assert(b.stable_bytes().subrange(4, 16) =~= b.stable_fields()) by {
            broadcast use crate::bytes::lemma_be_bytes_len;

        }
    }

    /// What the stable bytes hold.
    proof fn lemma_parts(self)
        ensures
            ({
                let f = self.stable_fields();
                &&& crate::bytes::be_value(f.subrange(0, 4)) == self.from_peer_id
                &&& crate::bytes::be_value(f.subrange(4, 8)) == self.to_peer_id
                &&& crate::bytes::be_value(f.subrange(8, 9)) == self.packet_type
                &&& crate::bytes::be_value(f.subrange(9, 10)) == self.flags & 0xfc
                &&& crate::bytes::be_value(f.subrange(10, 11)) == self.controls & 0xfe
                &&& crate::bytes::be_value(f.subrange(11, 12)) == self.flow_shard
                &&& crate::bytes::be_value(self.stable_bytes().subrange(0, 4)) == self.len
            }),
    {
        crate::bytes::lemma_pow256();
        self.lemma_stable_len();
        broadcast use crate::bytes::lemma_be_bytes_len;

        let f = self.stable_fields();
        crate::bytes::lemma_be_value_of_bytes(self.from_peer_id as nat, 4);
        crate::bytes::lemma_be_value_of_bytes(self.to_peer_id as nat, 4);
        crate::bytes::lemma_be_value_of_bytes(self.packet_type as nat, 1);
        crate::bytes::lemma_be_value_of_bytes((self.flags & 0xfc) as nat, 1);
        crate::bytes::lemma_be_value_of_bytes((self.controls & 0xfe) as nat, 1);
        crate::bytes::lemma_be_value_of_bytes(self.flow_shard as nat, 1);
        crate::bytes::lemma_be_value_of_bytes(self.len as nat, 4);
        assert(f.subrange(0, 4) =~= crate::bytes::be_bytes(self.from_peer_id as nat, 4));
        assert(f.subrange(4, 8) =~= crate::bytes::be_bytes(self.to_peer_id as nat, 4));
        assert(f.subrange(8, 9) =~= crate::bytes::be_bytes(self.packet_type as nat, 1));
        assert(f.subrange(9, 10) =~= crate::bytes::be_bytes((self.flags & 0xfc) as nat, 1));
        assert(f.subrange(10, 11) =~= crate::bytes::be_bytes((self.controls & 0xfe) as nat, 1));
        assert(f.subrange(11, 12) =~= crate::bytes::be_bytes(self.flow_shard as nat, 1));
        assert(self.stable_bytes().subrange(0, 4) =~= crate::bytes::be_bytes(self.len as nat, 4));
    }
}

/// Role under which a peer takes part in a network.
#[derive(Clone, Copy, Debug, PartialEq, Eq, Structural)]
pub enum PeerIdentityType {
    Admin,
    Credential,
    SharedNode,
    ForeignRelay,
}

/// How far the other side of a connection is authenticated.
#[derive(Clone, Copy, Debug, PartialEq, Eq, Structural)]
pub enum SecureAuthLevel {
    Unauthenticated,
    EncryptedUnauthenticated,
    PeerVerified,
    NetworkSecretConfirmed,
}

/// The origin of a packet, as a session has verified it.
#[derive(Clone, Copy, Debug, PartialEq, Eq, Structural)]
pub struct VerifiedOrigin {
    pub peer_id: PeerId,
    pub identity_type: PeerIdentityType,
    pub secure_auth_level: SecureAuthLevel,
    pub session_id: u128,
}

/// A mesh packet.
#[derive(Clone, Debug)]
pub struct Packet {
    pub header: Option<PeerHeader>,
    pub payload: Vec<u8>,
    pub verified_origin: Option<VerifiedOrigin>,
}

/// The value of a packet.
#[verifier::ext_equal]
pub struct PacketModel {
    pub header: Option<PeerHeader>,
    pub payload: Seq<u8>,
    pub verified_origin: Option<VerifiedOrigin>,
}

impl View for Packet {
    type V = PacketModel;

    open spec fn view(&self) -> PacketModel {
        PacketModel {
            header: self.header,
            payload: self.payload@,
            verified_origin: self.verified_origin,
        }
    }
}

impl PacketModel {
    /// The nonce at the end of a sealed payload: epoch and sequence number.
    pub open spec fn tail_nonce(self) -> Option<(u32, u64)> {
        if self.payload.len() < STANDARD_AEAD_TAIL_SIZE {
            None
        } else {
            let n = self.payload.len() as int;
            Some(
                (
                    crate::bytes::be_value(self.payload.subrange(n - 12, n - 8)) as u32,
                    crate::bytes::be_value(self.payload.subrange(n - 8, n)) as u64,
                ),
            )
        }
    }

    pub open spec fn is_encrypted(self) -> bool {
        self.header matches Some(h) && h.encrypted()
    }

    pub open spec fn has_type(self, packet_type: u8) -> bool {
        self.header matches Some(h) && h.packet_type == packet_type
    }

    pub open spec fn buf_len(self) -> nat {
        self.payload.len() + PEER_MANAGER_HEADER_SIZE as nat
    }
}

impl Packet {
    /// A packet with a payload and no header.
    pub fn new_with_payload(payload: Vec<u8>) -> (packet: Self)
        ensures
            packet@ == (PacketModel { header: None, payload: payload@, verified_origin: None }),
    {
        Packet { header: None, payload, verified_origin: None }
    }

    /// Gives the packet a fresh header.
    pub fn fill_peer_manager_hdr(&mut self, from_peer_id: PeerId, to_peer_id: PeerId, packet_type: u8)
        ensures
            final(self)@ == (PacketModel {
                header: Some(
                    PeerHeader {
                        from_peer_id,
                        to_peer_id,
                        packet_type,
                        flags: 0,
                        controls: 0,
                        forward_counter: 0,
                        flow_shard: 0,
                        len: header_len(old(self)@.payload),
                    },
                ),
                ..old(self)@
            }),
    {
        let len: u32 = if self.payload.len() > u32::MAX as usize {
            u32::MAX
        } else {
            self.payload.len() as u32
        };
        self.header = Some(PeerHeader::new(from_peer_id, to_peer_id, packet_type, len));
    }

    /// Bytes that the packet takes in a buffer.
    pub fn buf_len(&self) -> (len: usize)
        ensures
            len as nat == if self@.buf_len() <= usize::MAX {
                self@.buf_len()
            } else {
                usize::MAX as nat
            },
    {
        self.payload.len().saturating_add(PEER_MANAGER_HEADER_SIZE)
    }

    /// A copy of the packet.
    pub fn duplicate(&self) -> (copy: Self)
        ensures
            copy@ == self@,
    {
        let payload = copy_range(self.payload.as_slice(), 0, self.payload.len());
        assert(payload@ =~= self.payload@);
        Packet { header: self.header, payload, verified_origin: self.verified_origin }
    }

    /// The nonce in the tail of a sealed payload.
    pub fn tail_nonce(&self) -> (nonce: Option<(u32, u64)>)
        ensures
            nonce == self@.tail_nonce(),
    {
        let n: usize = self.payload.len();
        if n < STANDARD_AEAD_TAIL_SIZE {
            return None;
        }
        proof {
            crate::bytes::lemma_pow256();
        }
        let epoch: u128 = read_be(self.payload.as_slice(), n - 12, 4);
        let sequence: u128 = read_be(self.payload.as_slice(), n - 8, 8);
        Some((epoch as u32, sequence as u64))
    }

    /// Replaces the payload by a sealed one and marks the packet encrypted.
    pub fn set_sealed(&mut self, ciphertext: &Vec<u8>, tag: u128, epoch: u32, sequence: u64)
        requires
            old(self).header is Some,
        ensures
            final(self)@ == (PacketModel {
                header: Some(
                    PeerHeader { flags: old(self).header->0.flags | 0x01, ..old(self).header->0 },
                ),
                payload: ciphertext@ + crate::bytes::be_bytes(tag as nat, 16)
                    + crate::bytes::be_bytes(epoch as nat, 4) + crate::bytes::be_bytes(
                    sequence as nat,
                    8,
                ),
                ..old(self)@
            }),
    {
        let mut payload = copy_range(ciphertext.as_slice(), 0, ciphertext.len());
        assert(payload@ =~= ciphertext@);
        push_be(&mut payload, tag, 16);
        push_be(&mut payload, epoch as u128, 4);
        push_be(&mut payload, sequence as u128, 8);
        self.payload = payload;
        let mut header = self.header.unwrap();
        header.set_flags(FLAG_ENCRYPTED, true);
        self.header = Some(header);
    }

    /// Replaces a sealed payload by its plaintext.
    pub fn set_opened(&mut self, plaintext: Vec<u8>)
        requires
            old(self).header is Some,
        ensures
            final(self)@ == (PacketModel {
                header: Some(
                    PeerHeader { flags: old(self).header->0.flags & !0x01u8, ..old(self).header->0 },
                ),
                payload: plaintext@,
                ..old(self)@
            }),
    {
        self.payload = plaintext;
        let mut header = self.header.unwrap();
        header.set_flags(FLAG_ENCRYPTED, false);
        self.header = Some(header);
    }

    /// Records the verified origin. A different origin that was recorded
    /// before stays, and the call reports the conflict.
    pub fn set_verified_origin(&mut self, origin: VerifiedOrigin) -> (recorded: bool)
        ensures
            recorded == (old(self).verified_origin is None || old(self).verified_origin == Some(
                origin,
            )),
            final(self)@ == (PacketModel {
                verified_origin: if recorded {
                    Some(origin)
                } else {
                    old(self).verified_origin
                },
                ..old(self)@
            }),
    {
        match self.verified_origin {
            Some(existing) => existing == origin,
            None => {
                self.verified_origin = Some(origin);
                true
            },
        }
    }

    /// A sealed payload carries its nonce, and sealing keeps the stable bytes
    /// of the header.
    pub proof fn lemma_sealed(before: PacketModel, after: PacketModel, ciphertext: Seq<u8>, tag: u128, epoch: u32, sequence: u64)
        requires
            before.header is Some,
            after.header == Some(
                PeerHeader { flags: before.header->0.flags | 0x01, ..before.header->0 },
            ),
            after.payload == ciphertext + crate::bytes::be_bytes(tag as nat, 16)
                + crate::bytes::be_bytes(epoch as nat, 4) + crate::bytes::be_bytes(
                sequence as nat,
                8,
            ),
        ensures
            after.is_encrypted(),
            after.tail_nonce() == Some((epoch, sequence)),
            after.header->0.stable_bytes() == before.header->0.stable_bytes(),
            after.payload.subrange(0, ciphertext.len() as int) == ciphertext,
    {
        let f = before.header->0.flags;
        assert((f | 0x01u8) & 0x01u8 != 0) by (bit_vector);
        assert((f | 0x01u8) & 0xfcu8 == f & 0xfcu8) by (bit_vector);
        crate::bytes::lemma_pow256();
        crate::bytes::lemma_be_value_of_bytes(epoch as nat, 4);
        crate::bytes::lemma_be_value_of_bytes(sequence as nat, 8);
        broadcast use crate::bytes::lemma_be_bytes_len;

        let n = after.payload.len() as int;
        assert(after.payload.subrange(n - 12, n - 8) =~= crate::bytes::be_bytes(epoch as nat, 4));
        assert(after.payload.subrange(n - 8, n) =~= crate::bytes::be_bytes(sequence as nat, 8));
        assert(after.payload.subrange(0, ciphertext.len() as int) =~= ciphertext);
    }
}

} // verus!
