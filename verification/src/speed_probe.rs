//! Receiving probe trains, and the speed that an acknowledgement shows.

use vstd::prelude::*;
use crate::clock::time_since;
use crate::probe_wire::{ProbeAck, ProbeData, ProbeError};

verus! {

/// How long a measured speed is used at most: fifteen minutes.
pub const MAX_SPEED_SAMPLE_TTL_NS: u64 = 900_000_000_000;

pub const PROBE_MARKER_TIMEOUT_NS: u64 = 1_000_000_000;

pub const PROBE_INCOMPLETE_TIMEOUT_NS: u64 = 2_000_000_000;

/// A measured speed is used for three intervals, up to a bound.
pub open spec fn sample_ttl(interval_ns: u64) -> u64 {
    if interval_ns * 3 > MAX_SPEED_SAMPLE_TTL_NS {
        MAX_SPEED_SAMPLE_TTL_NS
    } else {
        (interval_ns * 3) as u64
    }
}

pub fn speed_sample_ttl(interval_ns: u64) -> (ttl_ns: u64)
    ensures
        ttl_ns == sample_ttl(interval_ns),
{
    let three: u128 = interval_ns as u128 * 3;
    if three > MAX_SPEED_SAMPLE_TTL_NS as u128 {
        MAX_SPEED_SAMPLE_TTL_NS
    } else {
        three as u64
    }
}

/// A measured speed.
#[derive(Clone, Copy, Debug, PartialEq, Eq, Structural)]
pub struct SpeedSample {
    pub delivery_bps: u64,
    pub loss_ppm: u32,
    pub generation: u64,
    pub measured_at: u64,
    pub ttl_ns: u64,
}

/// Bits per second of what arrived, over the longer of the two durations. One
/// packet shows no speed.
pub open spec fn delivery_rate(ack: ProbeAck, local_send_duration_ns: u64) -> u64 {
    let duration = if ack.duration_ns > local_send_duration_ns {
        ack.duration_ns
    } else {
        local_send_duration_ns
    };
    if ack.received_packets < 2 || duration == 0 {
        0
    } else {
        let rate = ack.received_bytes * 8 * 1_000_000_000 / duration as int;
        if rate > u64::MAX {
            u64::MAX
        } else {
            rate as u64
        }
    }
}

/// How many packets of a million were lost.
pub open spec fn loss_rate(ack: ProbeAck) -> int {
    if ack.received_packets >= ack.expected_packets {
        0
    } else {
        (ack.expected_packets - ack.received_packets) * 1_000_000 / ack.expected_packets as int
    }
}

impl SpeedSample {
    pub fn from_ack(ack: ProbeAck, local_send_duration_ns: u64, measured_at: u64, ttl_ns: u64) -> (sample:
        Self)
        ensures
            sample.delivery_bps == delivery_rate(ack, local_send_duration_ns),
            sample.loss_ppm == loss_rate(ack),
            sample.loss_ppm <= 1_000_000,
            sample.generation == ack.generation,
            sample.measured_at == measured_at,
            sample.ttl_ns == ttl_ns,
    {
        let duration: u64 = if ack.duration_ns > local_send_duration_ns {
            ack.duration_ns
        } else {
            local_send_duration_ns
        };
        let delivery_bps: u64 = if ack.received_packets < 2 || duration == 0 {
            0
        } else {
            let bits: u128 = ack.received_bytes as u128 * 8;
            let scaled: u128 = bits * 1_000_000_000;
            let rate: u128 = scaled / duration as u128;
            proof {
                let s = scaled as int;
                let d = duration as int;
                assert(s / d >= 0) by (nonlinear_arith)
                    requires
                        s >= 0,
                        d > 0,
                ;
            }
            if rate > u64::MAX as u128 {
                u64::MAX
            } else {
                rate as u64
            }
        };
        let loss_ppm: u32 = if ack.received_packets >= ack.expected_packets {
            0
        } else {
            let missing: u64 = (ack.expected_packets - ack.received_packets) as u64;
            let expected: u64 = ack.expected_packets as u64;
            proof {
                assert(0 <= (missing * 1_000_000) / expected as int <= 1_000_000) by (nonlinear_arith)
                    requires
                        missing <= expected,
                        expected > 0,
                ;
            }
            (missing * 1_000_000 / expected) as u32
        };
        SpeedSample { delivery_bps, loss_ppm, generation: ack.generation, measured_at, ttl_ns }
    }

    pub fn is_fresh(&self, now_ns: u64) -> (fresh: bool)
        ensures
            fresh == (self.measured_at <= now_ns < self.measured_at + self.ttl_ns),
    {
        now_ns >= self.measured_at && now_ns - self.measured_at < self.ttl_ns
    }

    pub fn age(&self, now_ns: u64) -> (age_ns: u64)
        ensures
            age_ns == crate::clock::elapsed(self.measured_at, now_ns),
    {
        time_since(self.measured_at, now_ns)
    }
}

/// The packets of one train, as far as they have arrived.
pub struct ReceivedGeneration {
    pub metadata: ProbeData,
    /// One bit for each expected packet.
    pub received: Vec<u64>,
    pub received_packets: u32,
    pub received_bytes: u64,
    pub first_arrival: u64,
    pub last_arrival: u64,
    pub marker_arrival: Option<u64>,
    pub receipt_challenge: Option<u128>,
}

/// What has arrived of one train.
pub struct GenerationModel {
    pub metadata: ProbeData,
    pub received: Set<int>,
    pub received_packets: u32,
    pub received_bytes: u64,
    pub first_arrival: u64,
    pub last_arrival: u64,
    pub marker_arrival: Option<u64>,
    pub receipt_challenge: Option<u128>,
}

impl GenerationModel {
    /// The train of a packet, before any packet is taken in.
    pub open spec fn fresh(data: ProbeData, now_ns: u64) -> GenerationModel {
        GenerationModel {
            metadata: data,
            received: Set::empty(),
            received_packets: 0,
            received_bytes: 0,
            first_arrival: now_ns,
            last_arrival: now_ns,
            marker_arrival: None,
            receipt_challenge: None,
        }
    }

    /// A train is incomplete, no packet counts twice, and what it counts stays
    /// within what was announced.
    pub open spec fn wf(self) -> bool {
        &&& crate::probe_wire::data_consistent(self.metadata)
        &&& self.received.finite()
        &&& forall|i: int| #[trigger]
            self.received.contains(i) ==> 0 <= i < self.metadata.expected_packets
        &&& self.received_packets <= self.received.len()
        &&& self.received_packets < self.metadata.expected_packets
        &&& self.received_bytes <= self.metadata.expected_bytes
        &&& self.marker_arrival is Some == self.receipt_challenge is Some
        &&& self.receipt_challenge matches Some(challenge) ==> challenge != 0
    }

    /// Whether a packet announces the same train.
    pub open spec fn same_train(self, data: ProbeData) -> bool {
        &&& self.metadata.generation == data.generation
        &&& self.metadata.expected_packets == data.expected_packets
        &&& self.metadata.expected_bytes == data.expected_bytes
    }

    /// Whether a newer train may take the place: the marker is overdue.
    pub open spec fn replaceable(self, now_ns: u64) -> bool {
        self.marker_arrival is None && crate::clock::elapsed(self.first_arrival, now_ns)
            >= PROBE_INCOMPLETE_TIMEOUT_NS
    }

    /// What is said of the train in the end. Without the challenge nothing is.
    pub open spec fn finished(self) -> Option<ProbeAck> {
        match self.receipt_challenge {
            None => None,
            Some(challenge) => Some(
                ProbeAck {
                    generation: self.metadata.generation,
                    received_packets: self.received_packets,
                    expected_packets: self.metadata.expected_packets,
                    received_bytes: self.received_bytes,
                    expected_bytes: self.metadata.expected_bytes,
                    duration_ns: crate::clock::elapsed(
                        self.first_arrival,
                        self.last_arrival,
                    ) as u64,
                    receipt_challenge: challenge,
                },
            ),
        }
    }

    /// The train with a packet noted as seen.
    pub open spec fn marked(self, data: ProbeData) -> GenerationModel {
        GenerationModel { received: self.received.insert(data.sequence as int), ..self }
    }

    /// The train with a new packet counted.
    pub open spec fn counted(self, data: ProbeData, wire_size: usize, now_ns: u64) -> GenerationModel {
        GenerationModel {
            received: self.received.insert(data.sequence as int),
            received_packets: (self.received_packets + 1) as u32,
            received_bytes: (self.received_bytes + wire_size) as u64,
            first_arrival: if self.received_packets == 0 {
                now_ns
            } else {
                self.first_arrival
            },
            last_arrival: now_ns,
            marker_arrival: if data.final_marker {
                Some(now_ns)
            } else {
                self.marker_arrival
            },
            receipt_challenge: if data.final_marker {
                Some(data.receipt_challenge)
            } else {
                self.receipt_challenge
            },
            ..self
        }
    }

    /// The train after a packet of it, and what is answered. A packet that was
    /// seen before changes nothing. One that is larger than the train leaves
    /// room for is noted and not counted.
    pub open spec fn taken_in(self, data: ProbeData, wire_size: usize, now_ns: u64) -> (
        Option<GenerationModel>,
        Result<Option<ProbeAck>, ProbeError>,
    ) {
        if self.received.contains(data.sequence as int) {
            (Some(self), Ok(None))
        } else if self.received_bytes + wire_size > u64::MAX {
            (Some(self.marked(data)), Err(ProbeError::ArithmeticOverflow))
        } else if self.received_bytes + wire_size > self.metadata.expected_bytes {
            (Some(self.marked(data)), Err(ProbeError::InvalidMetadata))
        } else {
            let counted = self.counted(data, wire_size, now_ns);
            if counted.received_packets == self.metadata.expected_packets {
                (None, Ok(counted.finished()))
            } else {
                (Some(counted), Ok(None))
            }
        }
    }
}

/// What a receiver has and answers after a packet. An older train is ignored,
/// and a newer one waits until the current one is overdue.
pub open spec fn received(
    active: Option<GenerationModel>,
    encoded: Seq<u8>,
    wire_size: usize,
    now_ns: u64,
) -> (Option<GenerationModel>, Result<Option<ProbeAck>, ProbeError>) {
    match crate::probe_wire::data_of_bytes(encoded) {
        Err(error) => (active, Err(error)),
        Ok(data) => match active {
            None => GenerationModel::fresh(data, now_ns).taken_in(data, wire_size, now_ns),
            Some(current) => if data.generation < current.metadata.generation {
                (active, Ok(None))
            } else if data.generation == current.metadata.generation {
                if current.same_train(data) {
                    current.taken_in(data, wire_size, now_ns)
                } else {
                    (active, Err(ProbeError::MetadataChanged))
                }
            } else if !current.replaceable(now_ns) {
                (active, Ok(None))
            } else {
                GenerationModel::fresh(data, now_ns).taken_in(data, wire_size, now_ns)
            },
        },
    }
}

/// What a receiver has and answers after some time.
pub open spec fn polled(active: Option<GenerationModel>, now_ns: u64) -> (
    Option<GenerationModel>,
    Option<ProbeAck>,
) {
    match active {
        None => (None, None),
        Some(current) => match current.marker_arrival {
            Some(marker) => if crate::clock::elapsed(marker, now_ns) >= PROBE_MARKER_TIMEOUT_NS {
                (None, current.finished())
            } else {
                (active, None)
            },
            None => if current.replaceable(now_ns) {
                (None, None)
            } else {
                (active, None)
            },
        },
    }
}

/// Bit `i` of some words.
pub open spec fn bit_of(words: Seq<u64>, i: int) -> bool {
    0 <= i < words.len() * 64 && crate::replay_window::word_bit(words[i / 64], (i % 64) as u64)
}

impl View for ReceivedGeneration {
    type V = GenerationModel;

    open spec fn view(&self) -> GenerationModel {
        GenerationModel {
            metadata: self.metadata,
            received: Set::new(|i: int| bit_of(self.received@, i)),
            received_packets: self.received_packets,
            received_bytes: self.received_bytes,
            first_arrival: self.first_arrival,
            last_arrival: self.last_arrival,
            marker_arrival: self.marker_arrival,
            receipt_challenge: self.receipt_challenge,
        }
    }
}

impl ReceivedGeneration {
    pub open spec fn wf(self) -> bool {
        &&& self@.wf()
        &&& self.received@.len() == (self.metadata.expected_packets + 63) / 64
    }

    fn new(data: ProbeData, now_ns: u64) -> (generation: Self)
        requires
            crate::probe_wire::data_consistent(data),
        ensures
            generation.wf(),
            generation@ == GenerationModel::fresh(data, now_ns),
    {
        let words: u32 = (data.expected_packets + 63) / 64;
        let mut received: Vec<u64> = Vec::new();
        let mut i: u32 = 0;
        while i < words
            invariant
                i <= words,
                received@.len() == i,
                forall|k: int| 0 <= k < i ==> received@[k] == 0,
            decreases words - i,
        {
            received.push(0);
            i = i + 1;
        }
        let generation = ReceivedGeneration {
            metadata: data,
            received,
            received_packets: 0,
            received_bytes: 0,
            first_arrival: now_ns,
            last_arrival: now_ns,
            marker_arrival: None,
            receipt_challenge: None,
        };
        proof {
            assert forall|k: int| !bit_of(generation.received@, k) by {
                crate::replay_window::lemma_zero_word((k % 64) as u64);
            }
            assert(generation@.received =~= Set::<int>::empty());
        }
        generation
    }

    fn metadata_matches(&self, data: &ProbeData) -> (same: bool)
        ensures
            same == self@.same_train(*data),
    {
        self.metadata.generation == data.generation && self.metadata.expected_packets
            == data.expected_packets && self.metadata.expected_bytes == data.expected_bytes
    }

    fn mark_received(&mut self, sequence: u32) -> (new: bool)
        requires
            old(self).wf(),
            sequence < old(self).metadata.expected_packets,
        ensures
            final(self).wf(),
            new == !old(self)@.received.contains(sequence as int),
            final(self)@ == (GenerationModel {
                received: old(self)@.received.insert(sequence as int),
                ..old(self)@
            }),
            new ==> final(self)@.received.len() == old(self)@.received.len() + 1,
    {
        let position: usize = sequence as usize;
        let word: usize = position / 64;
        let bit: u64 = (position % 64) as u64;
        let before: u64 = self.received[word];
        let ghost held = self.received@;
        let ghost old_set = self@.received;
        assert(bit_of(held, sequence as int) == crate::replay_window::word_bit(before, bit));
        if before & (1u64 << bit) != 0 {
            assert(old_set.insert(sequence as int) =~= old_set);
            return false;
        }
        self.received.set(word, before | (1u64 << bit));
        proof {
            crate::replay_window::lemma_word_bits(before, bit);
            assert forall|i: int| bit_of(self.received@, i) == (bit_of(held, i) || i == sequence) by {
                if 0 <= i < held.len() * 64 {
                    if i / 64 == word {
                        assert(crate::replay_window::word_bit(
                            before | (1u64 << bit),
                            (i % 64) as u64,
                        ) == (crate::replay_window::word_bit(before, (i % 64) as u64) || (i
                            % 64) as u64 == bit));
                    }
                }
            }
            assert(self@.received =~= old_set.insert(sequence as int));
        }
        true
    }

    fn can_replace(&self, now_ns: u64) -> (replace: bool)
        ensures
            replace == self@.replaceable(now_ns),
    {
        self.marker_arrival.is_none() && time_since(self.first_arrival, now_ns)
            >= PROBE_INCOMPLETE_TIMEOUT_NS
    }

    fn finish(&self) -> (ack: Option<ProbeAck>)
        ensures
            ack == self@.finished(),
    {
        match self.receipt_challenge {
            None => None,
            Some(challenge) => Some(
                ProbeAck {
                    generation: self.metadata.generation,
                    received_packets: self.received_packets,
                    expected_packets: self.metadata.expected_packets,
                    received_bytes: self.received_bytes,
                    expected_bytes: self.metadata.expected_bytes,
                    duration_ns: time_since(self.first_arrival, self.last_arrival),
                    receipt_challenge: challenge,
                },
            ),
        }
    }
}

/// Receives probe trains, one at a time.
pub struct ProbeReceiver {
    pub active: Option<ReceivedGeneration>,
}

impl View for ProbeReceiver {
    type V = Option<GenerationModel>;

    open spec fn view(&self) -> Option<GenerationModel> {
        match self.active {
            Some(generation) => Some(generation@),
            None => None,
        }
    }
}

impl Default for ProbeReceiver {
    fn default() -> (receiver: Self)
        ensures
            receiver.wf(),
            receiver@ is None,
    {
        ProbeReceiver { active: None }
    }
}

impl ProbeReceiver {
    pub open spec fn wf(self) -> bool {
        self.active matches Some(generation) ==> generation.wf()
    }

    pub fn receive(&mut self, encoded: &[u8], now_ns: u64) -> (answer: Result<
        Option<ProbeAck>,
        ProbeError,
    >)
        requires
            old(self).wf(),
        ensures
            final(self).wf(),
            (final(self)@, answer) == received(
                old(self)@,
                encoded@,
                encoded@.len() as usize,
                now_ns,
            ),
    {
        let size: usize = encoded.len();
        self.receive_wire(encoded, size, now_ns)
    }

    /// Takes in a packet that cost a size on the wire.
    pub fn receive_wire(&mut self, encoded: &[u8], wire_size: usize, now_ns: u64) -> (answer:
        Result<Option<ProbeAck>, ProbeError>)
        requires
            old(self).wf(),
        ensures
            final(self).wf(),
            (final(self)@, answer) == received(old(self)@, encoded@, wire_size, now_ns),
    {
        let data = match ProbeData::decode(encoded) {
            Ok(data) => data,
            Err(error) => {
                return Err(error);
            },
        };
        let mut current = match self.active.take() {
            None => ReceivedGeneration::new(data, now_ns),
            Some(active) => {
                if data.generation < active.metadata.generation {
                    self.active = Some(active);
                    return Ok(None);
                } else if data.generation == active.metadata.generation {
                    if !active.metadata_matches(&data) {
                        self.active = Some(active);
                        return Err(ProbeError::MetadataChanged);
                    }
                    active
                } else if !active.can_replace(now_ns) {
                    self.active = Some(active);
                    return Ok(None);
                } else {
                    ReceivedGeneration::new(data, now_ns)
                }
            },
        };
        let ghost before = current@;
        if !current.mark_received(data.sequence) {
            assert(before.received.insert(data.sequence as int) =~= before.received);
            self.active = Some(current);
            return Ok(None);
        }
        if wire_size as u64 > u64::MAX - current.received_bytes {
            self.active = Some(current);
            return Err(ProbeError::ArithmeticOverflow);
        }
        let received_bytes: u64 = current.received_bytes + wire_size as u64;
        if received_bytes > current.metadata.expected_bytes {
            self.active = Some(current);
            return Err(ProbeError::InvalidMetadata);
        }
        let first = current.received_packets == 0;
        current.received_packets = current.received_packets + 1;
        current.received_bytes = received_bytes;
        if first {
            current.first_arrival = now_ns;
        }
        current.last_arrival = now_ns;
        if data.final_marker {
            current.marker_arrival = Some(now_ns);
            current.receipt_challenge = Some(data.receipt_challenge);
        }
        assert(current@ == before.counted(data, wire_size, now_ns));
        if current.received_packets == current.metadata.expected_packets {
            return Ok(current.finish());
        }
        self.active = Some(current);
        Ok(None)
    }

    /// Ends a train whose marker came some time ago, and drops one whose marker
    /// is overdue.
    pub fn poll(&mut self, now_ns: u64) -> (answer: Option<ProbeAck>)
        requires
            old(self).wf(),
        ensures
            final(self).wf(),
            (final(self)@, answer) == polled(old(self)@, now_ns),
    {
        let active = match self.active.take() {
            Some(active) => active,
            None => {
                return None;
            },
        };
        match active.marker_arrival {
            Some(marker) => {
                if time_since(marker, now_ns) >= PROBE_MARKER_TIMEOUT_NS {
                    return active.finish();
                }
            },
            None => {
                if active.can_replace(now_ns) {
                    return None;
                }
            },
        }
        self.active = Some(active);
        None
    }

    pub fn has_active_generation(&self) -> (active: bool)
        ensures
            active == self@ is Some,
    {
        self.active.is_some()
    }

    pub fn active_generation(&self) -> (generation: Option<u64>)
        ensures
            generation == match self@ {
                Some(active) => Some(active.metadata.generation),
                None => None,
            },
    {
        match &self.active {
            Some(active) => Some(active.metadata.generation),
            None => None,
        }
    }
}

/// A packet that arrives again changes nothing.
pub proof fn lemma_duplicates_are_ignored(
    active: Option<GenerationModel>,
    encoded: Seq<u8>,
    wire_size: usize,
    first_ns: u64,
    again_ns: u64,
)
    requires
        active matches Some(current) ==> current.wf(),
        received(active, encoded, wire_size, first_ns).0 is Some,
        received(active, encoded, wire_size, first_ns).0 != active,
    ensures
        received(
            received(active, encoded, wire_size, first_ns).0,
            encoded,
            wire_size,
            again_ns,
        ) == (received(active, encoded, wire_size, first_ns).0, Ok::<Option<ProbeAck>, ProbeError>(None)),
{
}

/// Whatever a receiver says of a train, the sender can read: it claims no more
/// than was announced, and knows the challenge.
pub proof fn lemma_answers_are_consistent(
    active: Option<GenerationModel>,
    encoded: Seq<u8>,
    wire_size: usize,
    now_ns: u64,
)
    requires
        active matches Some(current) ==> current.wf(),
    ensures
        received(active, encoded, wire_size, now_ns).1 matches Ok(Some(ack))
            ==> crate::probe_wire::ack_of_bytes(crate::probe_wire::ack_bytes(ack)) == Ok::<
            ProbeAck,
            ProbeError,
        >(ack),
        polled(active, now_ns).1 matches Some(ack) ==> crate::probe_wire::ack_of_bytes(
            crate::probe_wire::ack_bytes(ack),
        ) == Ok::<ProbeAck, ProbeError>(ack),
{
    if let Ok(Some(ack)) = received(active, encoded, wire_size, now_ns).1 {
        crate::probe_wire::lemma_ack_round_trip(ack);
    }
    if let Some(ack) = polled(active, now_ns).1 {
        crate::probe_wire::lemma_ack_round_trip(ack);
    }
}

/// What a receiver has and last answers after some packets, each at its time.
pub open spec fn received_all(
    active: Option<GenerationModel>,
    packets: Seq<Seq<u8>>,
    wire_size: usize,
    times: Seq<u64>,
) -> (Option<GenerationModel>, Result<Option<ProbeAck>, ProbeError>)
    decreases packets.len(),
{
    if packets.len() == 0 {
        (active, Ok(None))
    } else {
        received(
            received_all(active, packets.drop_last(), wire_size, times.drop_last()).0,
            packets.last(),
            wire_size,
            times.last(),
        )
    }
}

/// The packets of a train, in some order.
pub open spec fn train_in_order(
    generation: u64,
    count: int,
    wire_packet_size: usize,
    per_packet_overhead: usize,
    challenge: u128,
    order: Seq<int>,
) -> Seq<Seq<u8>> {
    Seq::new(
        order.len(),
        |i: int|
            crate::probe_wire::data_bytes(
                crate::probe_wire::train_packet(
                    generation,
                    count,
                    wire_packet_size,
                    challenge,
                    order[i],
                ),
                (wire_packet_size - per_packet_overhead) as nat,
            ),
    )
}

/// Whether a train has arrived as far as some of its numbers.
pub open spec fn arrived(
    active: Option<GenerationModel>,
    generation: u64,
    count: int,
    wire_packet_size: usize,
    challenge: u128,
    order: Seq<int>,
    times: Seq<u64>,
) -> bool {
    match active {
        None => order.len() == 0,
        Some(current) => {
            &&& order.len() > 0
            &&& current.metadata.generation == generation
            &&& current.metadata.expected_packets == count
            &&& current.metadata.expected_bytes == count * wire_packet_size
            &&& forall|i: int| #[trigger] current.received.contains(i) == order.contains(i)
            &&& current.received_packets == order.len()
            &&& current.received_bytes == order.len() * wire_packet_size
            &&& current.first_arrival == times[0]
            &&& current.last_arrival == times.last()
            &&& current.receipt_challenge == if order.contains(count - 1) {
                Some(challenge)
            } else {
                None
            }
        },
    }
}

proof fn lemma_train_arrives(
    generation: u64,
    reserved_bytes: u64,
    wire_packet_size: usize,
    per_packet_overhead: usize,
    challenge: u128,
    order: Seq<int>,
    times: Seq<u64>,
)
    requires
        crate::probe_wire::has_room(wire_packet_size, per_packet_overhead),
        crate::probe_wire::train_count(reserved_bytes, wire_packet_size) >= 2,
        challenge != 0,
        order.len() < crate::probe_wire::train_count(reserved_bytes, wire_packet_size),
        times.len() == order.len(),
        order.no_duplicates(),
        forall|i: int|
            0 <= i < order.len() ==> 0 <= #[trigger] order[i] < crate::probe_wire::train_count(
                reserved_bytes,
                wire_packet_size,
            ),
    ensures
        ({
            let count = crate::probe_wire::train_count(reserved_bytes, wire_packet_size);
            let packets = train_in_order(
                generation,
                count,
                wire_packet_size,
                per_packet_overhead,
                challenge,
                order,
            );
            arrived(
                received_all(None, packets, wire_packet_size, times).0,
                generation,
                count,
                wire_packet_size,
                challenge,
                order,
                times,
            )
        }),
    decreases order.len(),
{
    let count = crate::probe_wire::train_count(reserved_bytes, wire_packet_size);
    let packets = train_in_order(
        generation,
        count,
        wire_packet_size,
        per_packet_overhead,
        challenge,
        order,
    );
    if order.len() > 0 {
        let shorter = order.drop_last();
        lemma_train_arrives(
            generation,
            reserved_bytes,
            wire_packet_size,
            per_packet_overhead,
            challenge,
            shorter,
            times.drop_last(),
        );
        lemma_step_of_train(
            generation,
            reserved_bytes,
            wire_packet_size,
            per_packet_overhead,
            challenge,
            order,
        );
        assert(packets.drop_last() =~= train_in_order(
            generation,
            count,
            wire_packet_size,
            per_packet_overhead,
            challenge,
            shorter,
        ));
        let before = received_all(None, packets.drop_last(), wire_packet_size, times.drop_last()).0;
        let data = crate::probe_wire::train_packet(
            generation,
            count,
            wire_packet_size,
            challenge,
            order.last(),
        );
        let current = match before {
            Some(current) => current,
            None => GenerationModel::fresh(data, times.last()),
        };
        assert(forall|i: int| #[trigger] current.received.contains(i) == shorter.contains(i));
        if before is None {
            let n = order.len() as int;
            let w = wire_packet_size as int;
            assert((n - 1) * w == 0) by (nonlinear_arith)
                requires
                    n == 1,
            ;
        }
        let after = current.taken_in(data, wire_packet_size, times.last());
        assert(after.0 == Some(current.counted(data, wire_packet_size, times.last())));
        assert(received_all(None, packets, wire_packet_size, times).0 == after.0);
        assert forall|i: int| #[trigger] (after.0->0).received.contains(i) == order.contains(i) by {
            assert(order.contains(i) == (shorter.contains(i) || i == order.last()));
        }
    }
}

/// What the last of some packets of a train meets.
proof fn lemma_step_of_train(
    generation: u64,
    reserved_bytes: u64,
    wire_packet_size: usize,
    per_packet_overhead: usize,
    challenge: u128,
    order: Seq<int>,
)
    requires
        crate::probe_wire::has_room(wire_packet_size, per_packet_overhead),
        crate::probe_wire::train_count(reserved_bytes, wire_packet_size) >= 2,
        challenge != 0,
        0 < order.len() <= crate::probe_wire::train_count(reserved_bytes, wire_packet_size),
        order.no_duplicates(),
        0 <= order.last() < crate::probe_wire::train_count(reserved_bytes, wire_packet_size),
    ensures
        ({
            let count = crate::probe_wire::train_count(reserved_bytes, wire_packet_size);
            let data = crate::probe_wire::train_packet(
                generation,
                count,
                wire_packet_size,
                challenge,
                order.last(),
            );
            let size = (wire_packet_size - per_packet_overhead) as nat;
            &&& crate::probe_wire::data_of_bytes(crate::probe_wire::data_bytes(data, size)) == Ok::<
                ProbeData,
                ProbeError,
            >(data)
            &&& data.expected_bytes == count * wire_packet_size
            &&& !order.drop_last().contains(order.last())
            &&& forall|i: int| #[trigger]
                order.contains(i) == (order.drop_last().contains(i) || i == order.last())
            &&& order.len() * wire_packet_size <= count * wire_packet_size
            &&& order.len() * wire_packet_size == (order.len() - 1) * wire_packet_size
                + wire_packet_size
            &&& count * wire_packet_size <= u64::MAX
        }),
{
    let count = crate::probe_wire::train_count(reserved_bytes, wire_packet_size);
    let size = wire_packet_size as int;
    let n = order.len() as int;
    crate::probe_wire::lemma_train_packet_is_valid(
        generation,
        reserved_bytes,
        wire_packet_size,
        per_packet_overhead,
        challenge,
        order.last(),
    );
    crate::probe_wire::lemma_probe_round_trip(
        crate::probe_wire::train_packet(
            generation,
            count,
            wire_packet_size,
            challenge,
            order.last(),
        ),
        (wire_packet_size - per_packet_overhead) as nat,
    );
    assert(count * size <= reserved_bytes && n * size <= count * size && n * size == (n - 1) * size
        + size) by (nonlinear_arith)
        requires
            n <= count,
            2 <= count <= reserved_bytes as int / size,
            size >= 48,
    ;
    let shorter = order.drop_last();
    if shorter.contains(order.last()) {
        let i = choose|i: int| 0 <= i < shorter.len() && shorter[i] == order.last();
        assert(order[i] == order[order.len() - 1]);
    }
    assert forall|i: int| #[trigger] order.contains(i) == (shorter.contains(i) || i == order.last()) by {
        if order.contains(i) {
            let k = choose|k: int| 0 <= k < order.len() && order[k] == i;
            if k < order.len() - 1 {
                assert(shorter[k] == i);
            }
        }
        if shorter.contains(i) {
            let k = choose|k: int| 0 <= k < shorter.len() && shorter[k] == i;
            assert(order[k] == i);
        }
        assert(order[order.len() - 1] == order.last());
    }
}

/// A train whose packets all arrive, in any order, is answered with all of its
/// packets and bytes, and with its challenge.
pub proof fn lemma_whole_train_is_acknowledged(
    generation: u64,
    reserved_bytes: u64,
    wire_packet_size: usize,
    per_packet_overhead: usize,
    challenge: u128,
    order: Seq<int>,
    times: Seq<u64>,
)
    requires
        crate::probe_wire::has_room(wire_packet_size, per_packet_overhead),
        crate::probe_wire::train_count(reserved_bytes, wire_packet_size) >= 2,
        challenge != 0,
        order.len() == crate::probe_wire::train_count(reserved_bytes, wire_packet_size),
        times.len() == order.len(),
        order.no_duplicates(),
        forall|i: int|
            0 <= i < order.len() ==> 0 <= #[trigger] order[i] < crate::probe_wire::train_count(
                reserved_bytes,
                wire_packet_size,
            ),
        order.contains(crate::probe_wire::train_count(reserved_bytes, wire_packet_size) - 1),
    ensures
        ({
            let count = crate::probe_wire::train_count(reserved_bytes, wire_packet_size);
            let answer = received_all(
                None,
                train_in_order(
                    generation,
                    count,
                    wire_packet_size,
                    per_packet_overhead,
                    challenge,
                    order,
                ),
                wire_packet_size,
                times,
            );
            &&& answer.0 is None
            &&& answer.1 matches Ok(Some(ack))
            &&& ack.generation == generation
            &&& ack.received_packets == count
            &&& ack.expected_packets == count
            &&& ack.received_bytes == count * wire_packet_size
            &&& ack.expected_bytes == count * wire_packet_size
            &&& ack.receipt_challenge == challenge
            &&& times[0] <= times.last() ==> ack.duration_ns == times.last() - times[0]
        }),
{
    let count = crate::probe_wire::train_count(reserved_bytes, wire_packet_size);
    let shorter = order.drop_last();
    lemma_train_arrives(
        generation,
        reserved_bytes,
        wire_packet_size,
        per_packet_overhead,
        challenge,
        shorter,
        times.drop_last(),
    );
    lemma_step_of_train(
        generation,
        reserved_bytes,
        wire_packet_size,
        per_packet_overhead,
        challenge,
        order,
    );
    let packets = train_in_order(
        generation,
        count,
        wire_packet_size,
        per_packet_overhead,
        challenge,
        order,
    );
    assert(packets.drop_last() =~= train_in_order(
        generation,
        count,
        wire_packet_size,
        per_packet_overhead,
        challenge,
        shorter,
    ));
    assert(order.contains(count - 1));
}

/// The delivery rate is what both sides saw: over the time that the receiver
/// reports and over the time that sending took, it claims no more bits than
/// arrived, and one more bit per second would claim more over one of them. One
/// packet shows no speed, and neither does no time.
pub proof fn lemma_rate_is_what_both_sides_saw(ack: ProbeAck, local_send_duration_ns: u64)
    ensures
        ({
            let rate = delivery_rate(ack, local_send_duration_ns) as int;
            let bits = ack.received_bytes as int * 8 * 1_000_000_000;
            &&& ack.received_packets < 2 ==> rate == 0
            &&& ack.duration_ns == 0 && local_send_duration_ns == 0 ==> rate == 0
            &&& rate * ack.duration_ns <= bits
            &&& rate * local_send_duration_ns <= bits
            &&& ack.received_packets >= 2 && (ack.duration_ns > 0 || local_send_duration_ns > 0)
                && rate < u64::MAX ==> (rate + 1) * ack.duration_ns > bits || (rate + 1)
                * local_send_duration_ns > bits
        }),
{
    let rate = delivery_rate(ack, local_send_duration_ns) as int;
    let bits = ack.received_bytes as int * 8 * 1_000_000_000;
    let a = ack.duration_ns as int;
    let b = local_send_duration_ns as int;
    let d = if a > b {
        a
    } else {
        b
    };
    if rate == 0 {
        assert(rate * a == 0 && rate * b == 0) by (nonlinear_arith)
            requires
                rate == 0,
        ;
    }
    if ack.received_packets >= 2 && d > 0 {
        let whole = bits / d;
        assert(whole >= 0 && whole * d <= bits && (whole + 1) * d > bits) by (nonlinear_arith)
            requires
                d > 0,
                bits >= 0,
                whole == bits / d,
        ;
        assert(0 <= rate <= whole);
        assert(rate * a <= whole * d && rate * b <= whole * d) by (nonlinear_arith)
            requires
                0 <= rate <= whole,
                0 <= a <= d,
                0 <= b <= d,
        ;
    }
}

/// A train that takes longer to arrive never shows a higher speed, and neither
/// does one that takes longer to send.
pub proof fn lemma_slower_trains_are_not_faster(
    ack: ProbeAck,
    slower: ProbeAck,
    local_send_duration_ns: u64,
    longer_send_duration_ns: u64,
)
    requires
        ack.received_packets == slower.received_packets,
        ack.received_bytes == slower.received_bytes,
        0 < ack.duration_ns <= slower.duration_ns,
        local_send_duration_ns <= longer_send_duration_ns,
    ensures
        delivery_rate(slower, longer_send_duration_ns) <= delivery_rate(ack, local_send_duration_ns),
{
    lemma_rate_is_what_both_sides_saw(ack, local_send_duration_ns);
    lemma_rate_is_what_both_sides_saw(slower, longer_send_duration_ns);
    let fast = delivery_rate(ack, local_send_duration_ns) as int;
    let slow = delivery_rate(slower, longer_send_duration_ns) as int;
    let bits = ack.received_bytes as int * 8 * 1_000_000_000;
    if slow > fast {
        let a = ack.duration_ns as int;
        let b = local_send_duration_ns as int;
        assert((fast + 1) * a <= slow * slower.duration_ns && (fast + 1) * b <= slow
            * longer_send_duration_ns) by (nonlinear_arith)
            requires
                0 <= fast < slow,
                0 <= a <= slower.duration_ns,
                0 <= b <= longer_send_duration_ns,
        ;
    }
}

/// The loss is the share of the packets that did not arrive, in millionths,
/// rounded down.
pub proof fn lemma_loss_is_what_is_missing(ack: ProbeAck)
    ensures
        ack.received_packets >= ack.expected_packets ==> loss_rate(ack) == 0,
        ack.received_packets < ack.expected_packets ==> {
            let missing = ack.expected_packets - ack.received_packets;
            &&& loss_rate(ack) * ack.expected_packets <= missing * 1_000_000
            &&& missing * 1_000_000 < (loss_rate(ack) + 1) * ack.expected_packets
        },
{
    if ack.received_packets < ack.expected_packets {
        let missing = (ack.expected_packets - ack.received_packets) * 1_000_000;
        let e = ack.expected_packets as int;
        let q = missing / e;
        assert(q * e <= missing && missing < (q + 1) * e) by (nonlinear_arith)
            requires
                e > 0,
                q == missing / e,
        ;
    }
}

/// A measured speed is used for three intervals, and never longer than fifteen
/// minutes.
pub proof fn lemma_samples_expire(interval_ns: u64)
    ensures
        sample_ttl(interval_ns) <= 900_000_000_000,
        interval_ns <= 300_000_000_000 ==> sample_ttl(interval_ns) == interval_ns + interval_ns
            + interval_ns,
        interval_ns >= 300_000_000_000 ==> sample_ttl(interval_ns) == 900_000_000_000,
{
}

/// A train that ends with its marker is answered with what has arrived of it, one
/// second after the marker: the packets, their bytes, and the time from the first
/// to the last.
pub proof fn lemma_partial_train_is_acknowledged(
    generation: u64,
    reserved_bytes: u64,
    wire_packet_size: usize,
    per_packet_overhead: usize,
    challenge: u128,
    order: Seq<int>,
    times: Seq<u64>,
    now_ns: u64,
)
    requires
        crate::probe_wire::has_room(wire_packet_size, per_packet_overhead),
        crate::probe_wire::train_count(reserved_bytes, wire_packet_size) >= 2,
        challenge != 0,
        0 < order.len() < crate::probe_wire::train_count(reserved_bytes, wire_packet_size),
        times.len() == order.len(),
        order.no_duplicates(),
        forall|i: int|
            0 <= i < order.len() ==> 0 <= #[trigger] order[i] < crate::probe_wire::train_count(
                reserved_bytes,
                wire_packet_size,
            ),
        order.last() == crate::probe_wire::train_count(reserved_bytes, wire_packet_size) - 1,
        times[0] <= times.last(),
    ensures
        ({
            let count = crate::probe_wire::train_count(reserved_bytes, wire_packet_size);
            let active = received_all(
                None,
                train_in_order(
                    generation,
                    count,
                    wire_packet_size,
                    per_packet_overhead,
                    challenge,
                    order,
                ),
                wire_packet_size,
                times,
            ).0;
            let answer = polled(active, now_ns);
            &&& now_ns < times.last() + 1_000_000_000 ==> answer == (active, None::<ProbeAck>)
            &&& now_ns >= times.last() + 1_000_000_000 ==> {
                &&& answer.0 is None
                &&& answer.1 == Some(
                    ProbeAck {
                        generation,
                        received_packets: order.len() as u32,
                        expected_packets: count as u32,
                        received_bytes: (order.len() * wire_packet_size) as u64,
                        expected_bytes: (count * wire_packet_size) as u64,
                        duration_ns: (times.last() - times[0]) as u64,
                        receipt_challenge: challenge,
                    },
                )
            }
        }),
{
    let count = crate::probe_wire::train_count(reserved_bytes, wire_packet_size);
    let packets = train_in_order(
        generation,
        count,
        wire_packet_size,
        per_packet_overhead,
        challenge,
        order,
    );
    let shorter = order.drop_last();
    lemma_train_arrives(
        generation,
        reserved_bytes,
        wire_packet_size,
        per_packet_overhead,
        challenge,
        order,
        times,
    );
    lemma_train_arrives(
        generation,
        reserved_bytes,
        wire_packet_size,
        per_packet_overhead,
        challenge,
        shorter,
        times.drop_last(),
    );
    lemma_step_of_train(
        generation,
        reserved_bytes,
        wire_packet_size,
        per_packet_overhead,
        challenge,
        order,
    );
    assert(packets.drop_last() =~= train_in_order(
        generation,
        count,
        wire_packet_size,
        per_packet_overhead,
        challenge,
        shorter,
    ));
    assert(order[order.len() - 1] == count - 1);
    assert(order.contains(count - 1));
    let active = received_all(None, packets, wire_packet_size, times).0;
    assert(active is Some);
    assert((active->0).marker_arrival == Some(times.last()));
}

/// An answer of a train that was sent as reserved is one that its sender takes.
pub proof fn lemma_receipts_are_recognized(
    reservation: crate::probe_budget::ProbeReservation,
    active: GenerationModel,
)
    requires
        active.wf(),
        reservation.challenge_sent,
        active.receipt_challenge == Some(reservation.receipt_challenge),
        active.metadata.expected_packets == reservation.sent_packets,
        active.metadata.expected_bytes == reservation.sent_bytes,
    ensures
        active.finished() matches Some(ack) && reservation.answered_by(ack),
{
}

/// While a train arrives, older ones are ignored, and newer ones too, until the
/// current one has waited two seconds for its marker; then the newer one takes its
/// place.
pub proof fn lemma_one_train_at_a_time(
    current: GenerationModel,
    encoded: Seq<u8>,
    wire_size: usize,
    now_ns: u64,
)
    requires
        current.wf(),
        crate::probe_wire::data_of_bytes(encoded) is Ok,
    ensures
        ({
            let data = crate::probe_wire::data_of_bytes(encoded)->Ok_0;
            let after = received(Some(current), encoded, wire_size, now_ns);
            let overdue = current.marker_arrival is None && now_ns >= current.first_arrival
                + 2_000_000_000;
            &&& data.generation < current.metadata.generation ==> after == (
                Some(current),
                Ok::<Option<ProbeAck>, ProbeError>(None),
            )
            &&& data.generation > current.metadata.generation && !overdue ==> after == (
                Some(current),
                Ok::<Option<ProbeAck>, ProbeError>(None),
            )
            &&& data.generation > current.metadata.generation && overdue && wire_size
                <= data.expected_bytes ==> {
                &&& after.0 matches Some(newer)
                &&& newer.metadata.generation == data.generation
                &&& newer.received_packets == 1
                &&& newer.received_bytes == wire_size
            }
            &&& polled(Some(current), now_ns).1 is Some ==> current.marker_arrival is Some
            &&& current.marker_arrival is None ==> polled(Some(current), now_ns).0 is Some
                == !overdue
        }),
{
}

} // verus!
