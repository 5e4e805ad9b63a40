//! The payloads of a speed probe and of its acknowledgement.

use vstd::prelude::*;
use crate::bytes::{all_zero, push_be, push_le, push_zeros, read_be, read_le};
use crate::outside::random_nonzero;

verus! {

pub const PROBE_HEADER_SIZE: usize = 48;

pub const PROBE_ACK_SIZE: usize = 56;

pub const MAX_PROBE_PACKETS: u32 = 65_536;

/// Why a probe was refused.
#[derive(Clone, Copy, Debug, PartialEq, Eq, Structural)]
pub enum ProbeError {
    PayloadTooShort,
    InvalidAckSize,
    InvalidMetadata,
    ArithmeticOverflow,
    MetadataChanged,
    InvalidInterval,
    EntropyUnavailable,
}

/// A challenge that a receiver can only know from the last packet of a train.
/// It is never zero.
pub fn generate_receipt_challenge() -> (challenge: Result<u128, ProbeError>)
    ensures
        challenge matches Ok(value) ==> value != 0,
        challenge matches Err(error) ==> error == ProbeError::EntropyUnavailable,
{
    match random_nonzero() {
        Some(challenge) => Ok(challenge),
        None => Err(ProbeError::EntropyUnavailable),
    }
}

/// One packet of a probe train. The challenge stands for sixteen bytes.
#[derive(Clone, Copy, Debug, PartialEq, Eq, Structural)]
pub struct ProbeData {
    pub generation: u64,
    pub sequence: u32,
    pub expected_packets: u32,
    pub expected_bytes: u64,
    pub final_marker: bool,
    pub receipt_challenge: u128,
}

/// A probe packet on the wire: little-endian numbers, the marker, padding, the
/// challenge, and zeros up to the size.
pub open spec fn data_bytes(data: ProbeData, size: nat) -> Seq<u8> {
    crate::bytes::le_bytes(data.generation as nat, 8) + crate::bytes::le_bytes(
        data.sequence as nat,
        4,
    ) + crate::bytes::le_bytes(data.expected_packets as nat, 4) + crate::bytes::le_bytes(
        data.expected_bytes as nat,
        8,
    ) + crate::bytes::le_bytes(
        if data.final_marker {
            1
        } else {
            0
        },
        1,
    ) + Seq::new(7, |i: int| 0u8) + crate::bytes::be_bytes(data.receipt_challenge as nat, 16)
        + Seq::new((size - 48) as nat, |i: int| 0u8)
}

/// Whether the numbers of a packet agree: it belongs to its train, only the
/// last packet can be the marker, and exactly the marker holds a challenge.
pub open spec fn data_consistent(data: ProbeData) -> bool {
    &&& 2 <= data.expected_packets <= MAX_PROBE_PACKETS
    &&& data.sequence < data.expected_packets
    &&& data.expected_bytes >= data.expected_packets * 48
    &&& data.final_marker ==> data.sequence + 1 == data.expected_packets
    &&& data.final_marker == (data.receipt_challenge != 0)
}

/// What is wrong with a packet of a size, if anything.
pub open spec fn data_check(data: ProbeData, size: nat) -> Result<(), ProbeError> {
    if size < PROBE_HEADER_SIZE {
        Err(ProbeError::PayloadTooShort)
    } else if !data_consistent(data) || size > data.expected_bytes {
        Err(ProbeError::InvalidMetadata)
    } else {
        Ok(())
    }
}

/// The packet that some bytes hold, if they are long enough to hold one.
pub open spec fn data_fields(encoded: Seq<u8>) -> ProbeData {
    ProbeData {
        generation: crate::bytes::le_value(encoded.subrange(0, 8)) as u64,
        sequence: crate::bytes::le_value(encoded.subrange(8, 12)) as u32,
        expected_packets: crate::bytes::le_value(encoded.subrange(12, 16)) as u32,
        expected_bytes: crate::bytes::le_value(encoded.subrange(16, 24)) as u64,
        final_marker: encoded[24] == 1,
        receipt_challenge: crate::bytes::be_value(encoded.subrange(32, 48)) as u128,
    }
}

/// The packet that some bytes hold, or what is wrong with them.
pub open spec fn data_of_bytes(encoded: Seq<u8>) -> Result<ProbeData, ProbeError> {
    if encoded.len() < PROBE_HEADER_SIZE {
        Err(ProbeError::PayloadTooShort)
    } else if encoded[24] > 1 || exists|i: int| 25 <= i < 32 && encoded[i] != 0 {
        Err(ProbeError::InvalidMetadata)
    } else {
        match data_check(data_fields(encoded), encoded.len()) {
            Ok(_) => Ok(data_fields(encoded)),
            Err(error) => Err(error),
        }
    }
}

impl ProbeData {
    pub fn encode_with_size(self, encoded_size: usize) -> (encoded: Result<Vec<u8>, ProbeError>)
        ensures
            match data_check(self, encoded_size as nat) {
                Ok(_) => encoded is Ok && (encoded->Ok_0)@ == data_bytes(self, encoded_size as nat)
                    && (encoded->Ok_0)@.len() == encoded_size,
                Err(error) => encoded is Err && encoded->Err_0 == error,
            },
    {
        match self.validate(encoded_size) {
            Ok(_) => {},
            Err(error) => {
                return Err(error);
            },
        }
        let mut encoded: Vec<u8> = Vec::new();
        push_le(&mut encoded, self.generation as u128, 8);
        push_le(&mut encoded, self.sequence as u128, 4);
        push_le(&mut encoded, self.expected_packets as u128, 4);
        push_le(&mut encoded, self.expected_bytes as u128, 8);
        let marker: u128 = if self.final_marker {
            1
        } else {
            0
        };
        push_le(&mut encoded, marker, 1);
        push_zeros(&mut encoded, 7);
        push_be(&mut encoded, self.receipt_challenge, 16);
        push_zeros(&mut encoded, encoded_size - PROBE_HEADER_SIZE);
        proof {
            lemma_data_len(self, encoded_size as nat);
        }
        Ok(encoded)
    }

    pub fn decode(encoded: &[u8]) -> (data: Result<ProbeData, ProbeError>)
        ensures
            data == data_of_bytes(encoded@),
    {
        if encoded.len() < PROBE_HEADER_SIZE {
            return Err(ProbeError::PayloadTooShort);
        }
        proof {
            crate::bytes::lemma_pow256();
        }
        let generation: u128 = read_le(encoded, 0, 8);
        let sequence: u128 = read_le(encoded, 8, 4);
        let expected_packets: u128 = read_le(encoded, 12, 4);
        let expected_bytes: u128 = read_le(encoded, 16, 8);
        let receipt_challenge: u128 = read_be(encoded, 32, 16);
        if encoded[24] > 1 {
            return Err(ProbeError::InvalidMetadata);
        }
        let padded = all_zero(encoded, 25, 7);
        if !padded {
            proof {
                let i = choose|i: int| 25 <= i < 32 && encoded@[i] != 0;
                assert(encoded@[i] != 0);
            }
            return Err(ProbeError::InvalidMetadata);
        }
        let data = ProbeData {
            generation: generation as u64,
            sequence: sequence as u32,
            expected_packets: expected_packets as u32,
            expected_bytes: expected_bytes as u64,
            final_marker: encoded[24] == 1,
            receipt_challenge,
        };
        match data.validate(encoded.len()) {
            Ok(_) => Ok(data),
            Err(error) => Err(error),
        }
    }

    fn validate(&self, encoded_size: usize) -> (checked: Result<(), ProbeError>)
        ensures
            checked == data_check(*self, encoded_size as nat),
    {
        if encoded_size < PROBE_HEADER_SIZE {
            return Err(ProbeError::PayloadTooShort);
        }
        if self.expected_packets < 2 || self.expected_packets > MAX_PROBE_PACKETS || self.sequence
            >= self.expected_packets || self.expected_bytes == 0 || (self.final_marker
            && self.sequence + 1 != self.expected_packets) || (self.final_marker
            && self.receipt_challenge == 0) || (!self.final_marker && self.receipt_challenge != 0) {
            return Err(ProbeError::InvalidMetadata);
        }
        let minimum_bytes: u64 = self.expected_packets as u64 * PROBE_HEADER_SIZE as u64;
        if self.expected_bytes < minimum_bytes || encoded_size as u64 > self.expected_bytes {
            return Err(ProbeError::InvalidMetadata);
        }
        Ok(())
    }
}

proof fn lemma_data_len(data: ProbeData, size: nat)
    requires
        size >= 48,
    ensures
        data_bytes(data, size).len() == size,
{
    broadcast use crate::bytes::lemma_be_bytes_len;

}

proof fn lemma_one_byte(value: nat)
    requires
        value < 256,
    ensures
        crate::bytes::le_bytes(value, 1).len() == 1,
        crate::bytes::le_bytes(value, 1)[0] == value,
{
    reveal_with_fuel(crate::bytes::be_bytes, 2);
}

/// A packet that could be sent arrives as it was.
pub proof fn lemma_probe_round_trip(data: ProbeData, size: nat)
    requires
        data_check(data, size) is Ok,
    ensures
        data_of_bytes(data_bytes(data, size)) == Ok::<ProbeData, ProbeError>(data),
{
    let wire = data_bytes(data, size);
    let marker: nat = if data.final_marker {
        1
    } else {
        0
    };
    lemma_data_len(data, size);
    lemma_one_byte(marker);
    crate::bytes::lemma_pow256();
    broadcast use crate::bytes::lemma_be_bytes_len;

    crate::bytes::lemma_le_value_of_bytes(data.generation as nat, 8);
    crate::bytes::lemma_le_value_of_bytes(data.sequence as nat, 4);
    crate::bytes::lemma_le_value_of_bytes(data.expected_packets as nat, 4);
    crate::bytes::lemma_le_value_of_bytes(data.expected_bytes as nat, 8);
    crate::bytes::lemma_be_value_of_bytes(data.receipt_challenge as nat, 16);
    assert(wire.subrange(0, 8) =~= crate::bytes::le_bytes(data.generation as nat, 8));
    assert(wire.subrange(8, 12) =~= crate::bytes::le_bytes(data.sequence as nat, 4));
    assert(wire.subrange(12, 16) =~= crate::bytes::le_bytes(data.expected_packets as nat, 4));
    assert(wire.subrange(16, 24) =~= crate::bytes::le_bytes(data.expected_bytes as nat, 8));
    assert(wire[24] == crate::bytes::le_bytes(marker, 1)[0]);
    assert(forall|i: int| 25 <= i < 32 ==> wire[i] == 0);
    assert(wire.subrange(32, 48) =~= crate::bytes::be_bytes(data.receipt_challenge as nat, 16));
    assert(data_fields(wire) == data);
}

/// What a receiver says of a train.
#[derive(Clone, Copy, Debug, PartialEq, Eq, Structural)]
pub struct ProbeAck {
    pub generation: u64,
    pub received_packets: u32,
    pub expected_packets: u32,
    pub received_bytes: u64,
    pub expected_bytes: u64,
    pub duration_ns: u64,
    pub receipt_challenge: u128,
}

pub open spec fn ack_bytes(ack: ProbeAck) -> Seq<u8> {
    crate::bytes::le_bytes(ack.generation as nat, 8) + crate::bytes::le_bytes(
        ack.received_packets as nat,
        4,
    ) + crate::bytes::le_bytes(ack.expected_packets as nat, 4) + crate::bytes::le_bytes(
        ack.received_bytes as nat,
        8,
    ) + crate::bytes::le_bytes(ack.expected_bytes as nat, 8) + crate::bytes::le_bytes(
        ack.duration_ns as nat,
        8,
    ) + crate::bytes::be_bytes(ack.receipt_challenge as nat, 16)
}

/// Whether an acknowledgement can be true of a train.
pub open spec fn ack_consistent(ack: ProbeAck) -> bool {
    &&& 2 <= ack.expected_packets <= MAX_PROBE_PACKETS
    &&& ack.received_packets <= ack.expected_packets
    &&& ack.received_bytes <= ack.expected_bytes
    &&& ack.receipt_challenge != 0
}

/// The acknowledgement that some bytes hold, or what is wrong with them.
pub open spec fn ack_of_bytes(encoded: Seq<u8>) -> Result<ProbeAck, ProbeError> {
    if encoded.len() != PROBE_ACK_SIZE {
        Err(ProbeError::InvalidAckSize)
    } else {
        let ack = ProbeAck {
            generation: crate::bytes::le_value(encoded.subrange(0, 8)) as u64,
            received_packets: crate::bytes::le_value(encoded.subrange(8, 12)) as u32,
            expected_packets: crate::bytes::le_value(encoded.subrange(12, 16)) as u32,
            received_bytes: crate::bytes::le_value(encoded.subrange(16, 24)) as u64,
            expected_bytes: crate::bytes::le_value(encoded.subrange(24, 32)) as u64,
            duration_ns: crate::bytes::le_value(encoded.subrange(32, 40)) as u64,
            receipt_challenge: crate::bytes::be_value(encoded.subrange(40, 56)) as u128,
        };
        if ack_consistent(ack) {
            Ok(ack)
        } else {
            Err(ProbeError::InvalidMetadata)
        }
    }
}

impl ProbeAck {
    pub fn encode(self) -> (encoded: Vec<u8>)
        ensures
            encoded@ == ack_bytes(self),
            encoded@.len() == PROBE_ACK_SIZE,
    {
        let mut encoded: Vec<u8> = Vec::new();
        push_le(&mut encoded, self.generation as u128, 8);
        push_le(&mut encoded, self.received_packets as u128, 4);
        push_le(&mut encoded, self.expected_packets as u128, 4);
        push_le(&mut encoded, self.received_bytes as u128, 8);
        push_le(&mut encoded, self.expected_bytes as u128, 8);
        push_le(&mut encoded, self.duration_ns as u128, 8);
        push_be(&mut encoded, self.receipt_challenge, 16);
        proof {
            broadcast use crate::bytes::lemma_be_bytes_len;

            assert(encoded@ =~= ack_bytes(self));
        }
        encoded
    }

    pub fn decode(encoded: &[u8]) -> (ack: Result<ProbeAck, ProbeError>)
        ensures
            ack == ack_of_bytes(encoded@),
    {
        if encoded.len() != PROBE_ACK_SIZE {
            return Err(ProbeError::InvalidAckSize);
        }
        proof {
            crate::bytes::lemma_pow256();
        }
        let generation: u128 = read_le(encoded, 0, 8);
        let received_packets: u128 = read_le(encoded, 8, 4);
        let expected_packets: u128 = read_le(encoded, 12, 4);
        let received_bytes: u128 = read_le(encoded, 16, 8);
        let expected_bytes: u128 = read_le(encoded, 24, 8);
        let duration_ns: u128 = read_le(encoded, 32, 8);
        let receipt_challenge: u128 = read_be(encoded, 40, 16);
        let ack = ProbeAck {
            generation: generation as u64,
            received_packets: received_packets as u32,
            expected_packets: expected_packets as u32,
            received_bytes: received_bytes as u64,
            expected_bytes: expected_bytes as u64,
            duration_ns: duration_ns as u64,
            receipt_challenge,
        };
        if ack.expected_packets < 2 || ack.expected_packets > MAX_PROBE_PACKETS
            || ack.received_packets > ack.expected_packets || ack.received_bytes
            > ack.expected_bytes || ack.receipt_challenge == 0 {
            return Err(ProbeError::InvalidMetadata);
        }
        Ok(ack)
    }
}

/// An acknowledgement that can be true arrives as it was.
pub proof fn lemma_ack_round_trip(ack: ProbeAck)
    requires
        ack_consistent(ack),
    ensures
        ack_of_bytes(ack_bytes(ack)) == Ok::<ProbeAck, ProbeError>(ack),
{
    let wire = ack_bytes(ack);
    crate::bytes::lemma_pow256();
    broadcast use crate::bytes::lemma_be_bytes_len;

    crate::bytes::lemma_le_value_of_bytes(ack.generation as nat, 8);
    crate::bytes::lemma_le_value_of_bytes(ack.received_packets as nat, 4);
    crate::bytes::lemma_le_value_of_bytes(ack.expected_packets as nat, 4);
    crate::bytes::lemma_le_value_of_bytes(ack.received_bytes as nat, 8);
    crate::bytes::lemma_le_value_of_bytes(ack.expected_bytes as nat, 8);
    crate::bytes::lemma_le_value_of_bytes(ack.duration_ns as nat, 8);
    crate::bytes::lemma_be_value_of_bytes(ack.receipt_challenge as nat, 16);
    assert(wire.subrange(0, 8) =~= crate::bytes::le_bytes(ack.generation as nat, 8));
    assert(wire.subrange(8, 12) =~= crate::bytes::le_bytes(ack.received_packets as nat, 4));
    assert(wire.subrange(12, 16) =~= crate::bytes::le_bytes(ack.expected_packets as nat, 4));
    assert(wire.subrange(16, 24) =~= crate::bytes::le_bytes(ack.received_bytes as nat, 8));
    assert(wire.subrange(24, 32) =~= crate::bytes::le_bytes(ack.expected_bytes as nat, 8));
    assert(wire.subrange(32, 40) =~= crate::bytes::le_bytes(ack.duration_ns as nat, 8));
    assert(wire.subrange(40, 56) =~= crate::bytes::be_bytes(ack.receipt_challenge as nat, 16));
}

/// How many whole packets of a size fit into some bytes, up to a bound.
pub open spec fn train_count(reserved_bytes: u64, wire_packet_size: usize) -> int {
    let count = reserved_bytes as int / wire_packet_size as int;
    if count > MAX_PROBE_PACKETS {
        MAX_PROBE_PACKETS as int
    } else {
        count
    }
}

/// Whether a packet of a size has room for its header beside what each packet
/// costs on the wire.
pub open spec fn has_room(wire_packet_size: usize, per_packet_overhead: usize) -> bool {
    wire_packet_size - per_packet_overhead >= PROBE_HEADER_SIZE
}

/// The packet of a train with a number.
pub open spec fn train_packet(
    generation: u64,
    count: int,
    wire_packet_size: usize,
    receipt_challenge: u128,
    sequence: int,
) -> ProbeData {
    ProbeData {
        generation,
        sequence: sequence as u32,
        expected_packets: count as u32,
        expected_bytes: (count * wire_packet_size) as u64,
        final_marker: sequence + 1 == count,
        receipt_challenge: if sequence + 1 == count {
            receipt_challenge
        } else {
            0
        },
    }
}

fn packet_count(reserved_bytes: u64, wire_packet_size: usize) -> (count: u64)
    requires
        wire_packet_size > 0,
    ensures
        count == train_count(reserved_bytes, wire_packet_size),
        count <= MAX_PROBE_PACKETS,
        count * wire_packet_size <= reserved_bytes,
{
    let size: u64 = wire_packet_size as u64;
    let fitting: u64 = reserved_bytes / size;
    let count: u64 = if fitting > MAX_PROBE_PACKETS as u64 {
        MAX_PROBE_PACKETS as u64
    } else {
        fitting
    };
    assert(count * size <= reserved_bytes) by (nonlinear_arith)
        requires
            count <= reserved_bytes / size,
            size > 0,
    ;
    count
}

pub fn build_probe_train(
    generation: u64,
    reserved_bytes: u64,
    packet_size: usize,
    receipt_challenge: u128,
) -> (train: Result<Vec<Vec<u8>>, ProbeError>)
    ensures
        train_built(
            generation,
            reserved_bytes,
            packet_size,
            0,
            receipt_challenge,
            train,
        ),
{
    build_probe_train_with_overhead(generation, reserved_bytes, packet_size, 0, receipt_challenge)
}

/// Whether a train is the one for these arguments: no packets where fewer than
/// two fit, else as many as fit, the last of them with the challenge.
pub open spec fn train_built(
    generation: u64,
    reserved_bytes: u64,
    wire_packet_size: usize,
    per_packet_overhead: usize,
    receipt_challenge: u128,
    train: Result<Vec<Vec<u8>>, ProbeError>,
) -> bool {
    let count = train_count(reserved_bytes, wire_packet_size);
    if !has_room(wire_packet_size, per_packet_overhead) {
        train is Err && train->Err_0 == ProbeError::PayloadTooShort
    } else if count < 2 {
        train is Ok && (train->Ok_0)@.len() == 0
    } else if receipt_challenge == 0 {
        train is Err && train->Err_0 == ProbeError::InvalidMetadata
    } else {
        &&& train is Ok
        &&& (train->Ok_0)@.len() == count
        &&& forall|i: int|
            0 <= i < count ==> (#[trigger] (train->Ok_0)@[i])@ == data_bytes(
                train_packet(generation, count, wire_packet_size, receipt_challenge, i),
                (wire_packet_size - per_packet_overhead) as nat,
            )
    }
}

/// Every packet of a train is one that can be sent.
pub proof fn lemma_train_packet_is_valid(
    generation: u64,
    reserved_bytes: u64,
    wire_packet_size: usize,
    per_packet_overhead: usize,
    receipt_challenge: u128,
    sequence: int,
)
    requires
        has_room(wire_packet_size, per_packet_overhead),
        0 <= sequence < train_count(reserved_bytes, wire_packet_size),
        train_count(reserved_bytes, wire_packet_size) >= 2,
        receipt_challenge != 0,
    ensures
        data_check(
            train_packet(
                generation,
                train_count(reserved_bytes, wire_packet_size),
                wire_packet_size,
                receipt_challenge,
                sequence,
            ),
            (wire_packet_size - per_packet_overhead) as nat,
        ) is Ok,
{
    let count = train_count(reserved_bytes, wire_packet_size);
    let size = wire_packet_size as int;
    assert(count * size <= reserved_bytes && count * size >= count * 48 && count * size >= size)
        by (nonlinear_arith)
        requires
            2 <= count <= reserved_bytes as int / size,
            size >= 48,
    ;
}

pub fn build_probe_train_with_overhead(
    generation: u64,
    reserved_bytes: u64,
    wire_packet_size: usize,
    per_packet_overhead: usize,
    receipt_challenge: u128,
) -> (train: Result<Vec<Vec<u8>>, ProbeError>)
    ensures
        train_built(
            generation,
            reserved_bytes,
            wire_packet_size,
            per_packet_overhead,
            receipt_challenge,
            train,
        ),
{
    if wire_packet_size < per_packet_overhead {
        return Err(ProbeError::PayloadTooShort);
    }
    let encoded_size: usize = wire_packet_size - per_packet_overhead;
    if encoded_size < PROBE_HEADER_SIZE {
        return Err(ProbeError::PayloadTooShort);
    }
    let count: u64 = packet_count(reserved_bytes, wire_packet_size);
    let mut train: Vec<Vec<u8>> = Vec::new();
    if count < 2 {
        return Ok(train);
    }
    let expected_packets: u32 = count as u32;
    let expected_bytes: u64 = count * wire_packet_size as u64;
    let mut sequence: u32 = 0;
    while sequence < expected_packets
        invariant
            expected_packets == count,
            count == train_count(reserved_bytes, wire_packet_size),
            2 <= count <= MAX_PROBE_PACKETS,
            expected_bytes == count * wire_packet_size,
            encoded_size == wire_packet_size - per_packet_overhead,
            encoded_size >= PROBE_HEADER_SIZE,
            sequence <= expected_packets,
            train@.len() == sequence,
            receipt_challenge == 0 ==> sequence < expected_packets,
            forall|i: int|
                0 <= i < sequence ==> (#[trigger] train@[i])@ == data_bytes(
                    train_packet(
                        generation,
                        count as int,
                        wire_packet_size,
                        receipt_challenge,
                        i,
                    ),
                    encoded_size as nat,
                ),
        decreases expected_packets - sequence,
    {
        let last = sequence + 1 == expected_packets;
        let data = ProbeData {
            generation,
            sequence,
            expected_packets,
            expected_bytes,
            final_marker: last,
            receipt_challenge: if last {
                receipt_challenge
            } else {
                0
            },
        };
        proof {
            let challenge: u128 = if receipt_challenge == 0 {
                1
            } else {
                receipt_challenge
            };
            lemma_train_packet_is_valid(
                generation,
                reserved_bytes,
                wire_packet_size,
                per_packet_overhead,
                challenge,
                sequence as int,
            );
            assert(data == train_packet(
                generation,
                count as int,
                wire_packet_size,
                receipt_challenge,
                sequence as int,
            ));
        }
        match data.encode_with_size(encoded_size) {
            Ok(packet) => {
                train.push(packet);
            },
            Err(error) => {
                return Err(error);
            },
        }
        sequence = sequence + 1;
    }
    Ok(train)
}

/// The size of a packet's payload, the number of packets and their bytes on the
/// wire, of the train that would be built.
pub fn probe_train_metadata(
    reserved_bytes: u64,
    wire_packet_size: usize,
    per_packet_overhead: usize,
) -> (metadata: Result<(usize, u32, u64), ProbeError>)
    ensures
        ({
            let count = train_count(reserved_bytes, wire_packet_size);
            if !has_room(wire_packet_size, per_packet_overhead) {
                metadata is Err && metadata->Err_0 == ProbeError::PayloadTooShort
            } else {
                &&& metadata is Ok
                &&& (metadata->Ok_0).0 == wire_packet_size - per_packet_overhead
                &&& (metadata->Ok_0).1 == if count < 2 {
                    0
                } else {
                    count
                }
                &&& (metadata->Ok_0).2 == if count < 2 {
                    0
                } else {
                    count * wire_packet_size
                }
            }
        }),
{
    if wire_packet_size < per_packet_overhead {
        return Err(ProbeError::PayloadTooShort);
    }
    let encoded_size: usize = wire_packet_size - per_packet_overhead;
    if encoded_size < PROBE_HEADER_SIZE {
        return Err(ProbeError::PayloadTooShort);
    }
    let count: u64 = packet_count(reserved_bytes, wire_packet_size);
    if count < 2 {
        return Ok((encoded_size, 0, 0));
    }
    Ok((encoded_size, count as u32, count * wire_packet_size as u64))
}

/// Only packets that can belong to a train are taken out of bytes: two to 65536
/// packets of at least a header each, the packet is one of them and not larger
/// than the train, and the last one may be the marker, which alone holds a
/// challenge.
pub proof fn lemma_decoded_packets_belong_to_a_train(encoded: Seq<u8>)
    ensures
        data_of_bytes(encoded) matches Ok(data) ==> {
            &&& encoded.len() >= 48
            &&& 2 <= data.expected_packets <= 65_536
            &&& data.sequence < data.expected_packets
            &&& data.expected_packets * 48 <= data.expected_bytes
            &&& encoded.len() <= data.expected_bytes
            &&& data.final_marker ==> data.sequence == data.expected_packets - 1
            &&& data.final_marker ==> data.receipt_challenge != 0
            &&& !data.final_marker ==> data.receipt_challenge == 0
        },
        encoded.len() < 48 ==> data_of_bytes(encoded) == Err::<ProbeData, ProbeError>(
            ProbeError::PayloadTooShort,
        ),
{
}

/// Only acknowledgements that can be true are taken out of bytes.
pub proof fn lemma_decoded_acks_can_be_true(encoded: Seq<u8>)
    ensures
        ack_of_bytes(encoded) matches Ok(ack) ==> {
            &&& encoded.len() == 56
            &&& 2 <= ack.expected_packets <= 65_536
            &&& ack.received_packets <= ack.expected_packets
            &&& ack.received_bytes <= ack.expected_bytes
            &&& ack.receipt_challenge != 0
        },
        encoded.len() != 56 ==> ack_of_bytes(encoded) == Err::<ProbeAck, ProbeError>(
            ProbeError::InvalidAckSize,
        ),
{
}

/// A train uses what was reserved for it: as many packets as fit, up to 65536.
pub proof fn lemma_trains_use_their_share(reserved_bytes: u64, wire_packet_size: usize)
    requires
        wire_packet_size > 0,
    ensures
        ({
            let count = train_count(reserved_bytes, wire_packet_size);
            &&& 0 <= count <= 65_536
            &&& count * wire_packet_size <= reserved_bytes
            &&& reserved_bytes < (count + 1) * wire_packet_size || count == 65_536
        }),
{
    let r = reserved_bytes as int;
    let w = wire_packet_size as int;
    let q = r / w;
    let count = train_count(reserved_bytes, wire_packet_size);
    assert(q >= 0 && q * w <= r && r < (q + 1) * w) by (nonlinear_arith)
        requires
            r >= 0,
            w > 0,
            q == r / w,
    ;
    assert(count * w <= q * w) by (nonlinear_arith)
        requires
            count <= q,
            w > 0,
    ;
}

} // verus!
