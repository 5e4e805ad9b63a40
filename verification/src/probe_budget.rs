//! What speed probes may send.

use vstd::prelude::*;
use crate::probe_wire::{ProbeAck, ProbeError};

verus! {

pub const PROBE_SEND_TIMEOUT_NS: u64 = 1_000_000_000;

/// A byte has eight bits and a second a billion nanoseconds.
pub const BIT_NANOS_PER_BYTE_SECOND: u64 = 8_000_000_000;

/// How the bytes of a cycle are shared out among connections.
pub struct ProbeAllocation {
    pub shares: Vec<u64>,
    pub unused_bytes: u64,
}

/// The share of each connection, or nothing where it would not carry two
/// packets.
pub open spec fn cycle_share(snapshot_bytes: u64, connection_count: usize, packet_size: usize) -> Option<u64> {
    if connection_count == 0 || packet_size == 0 {
        None
    } else {
        let share = snapshot_bytes as int / connection_count as int;
        if share < 2 * packet_size && share < u64::MAX {
            None
        } else {
            Some(share as u64)
        }
    }
}

pub fn split_cycle_budget(snapshot_bytes: u64, connection_count: usize, packet_size: usize) -> (allocation:
    ProbeAllocation)
    ensures
        match cycle_share(snapshot_bytes, connection_count, packet_size) {
            None => allocation.shares@.len() == 0 && allocation.unused_bytes == snapshot_bytes,
            Some(share) => {
                &&& allocation.shares@ == Seq::new(connection_count as nat, |i: int| share)
                &&& allocation.unused_bytes == snapshot_bytes - share * connection_count
            },
        },
{
    if connection_count == 0 || packet_size == 0 {
        return ProbeAllocation { shares: Vec::new(), unused_bytes: snapshot_bytes };
    }
    let count: u64 = connection_count as u64;
    let share: u64 = snapshot_bytes / count;
    let two_packets: u128 = packet_size as u128 * 2;
    if (share as u128) < two_packets && share < u64::MAX {
        return ProbeAllocation { shares: Vec::new(), unused_bytes: snapshot_bytes };
    }
    assert(0 <= share * count <= snapshot_bytes) by (nonlinear_arith)
        requires
            share == snapshot_bytes / count,
            count > 0,
    ;
    let allocated: u64 = share * count;
    let mut shares: Vec<u64> = Vec::new();
    let mut i: usize = 0;
    while i < connection_count
        invariant
            i <= connection_count,
            shares@ == Seq::new(i as nat, |k: int| share),
        decreases connection_count - i,
    {
        shares.push(share);
        i = i + 1;
        assert(shares@ =~= Seq::new(i as nat, |k: int| share));
    }
    ProbeAllocation { shares, unused_bytes: snapshot_bytes - allocated }
}

/// The bytes of some shares together.
pub open spec fn total_of(shares: Seq<u64>) -> nat
    decreases shares.len(),
{
    if shares.len() == 0 {
        0
    } else {
        total_of(shares.drop_last()) + shares.last() as nat
    }
}

proof fn lemma_total_of_equal(share: u64, count: nat)
    ensures
        total_of(Seq::new(count, |i: int| share)) == share * count,
    decreases count,
{
    let shares = Seq::new(count, |i: int| share);
    if count > 0 {
        lemma_total_of_equal(share, (count - 1) as nat);
        assert(shares.drop_last() =~= Seq::new((count - 1) as nat, |i: int| share));
        assert(share * count == share * (count - 1) + share) by (nonlinear_arith);
    } else {
        assert(share * count == 0) by (nonlinear_arith)
            requires
                count == 0,
        ;
    }
}

/// Sharing out a cycle neither makes nor loses a byte.
pub proof fn lemma_split_keeps_every_byte(
    snapshot_bytes: u64,
    connection_count: usize,
    packet_size: usize,
)
    ensures
        cycle_share(snapshot_bytes, connection_count, packet_size) matches Some(share) ==> {
            &&& total_of(Seq::new(connection_count as nat, |i: int| share)) <= snapshot_bytes
            &&& snapshot_bytes - total_of(Seq::new(connection_count as nat, |i: int| share))
                < connection_count
        },
{
    if let Some(share) = cycle_share(snapshot_bytes, connection_count, packet_size) {
        lemma_total_of_equal(share, connection_count as nat);
        let s = snapshot_bytes as int;
        let c = connection_count as int;
        assert(0 <= s / c <= s && (s / c) * c <= s && s - (s / c) * c < c) by (nonlinear_arith)
            requires
                s >= 0,
                c > 0,
        ;
    }
}

/// A rate of bytes that fills up over time, to at most what one interval brings.
#[derive(Clone, Copy, Debug, PartialEq, Eq, Structural)]
pub struct ProbeBudget {
    pub rate_bps: u64,
    pub capacity_bytes: u64,
    pub available_bytes: u64,
    pub last_refill: u64,
    pub refill_remainder: u128,
}

impl ProbeBudget {
    pub open spec fn wf(self) -> bool {
        &&& self.available_bytes <= self.capacity_bytes
        &&& self.refill_remainder < BIT_NANOS_PER_BYTE_SECOND
    }

    /// The bytes that a rate brings in an interval.
    pub open spec fn capacity_for(rate_bps: u64, interval_ns: u64) -> int {
        rate_bps * interval_ns / BIT_NANOS_PER_BYTE_SECOND as int
    }

    pub fn new(rate_bps: u64, interval_ns: u64, now_ns: u64) -> (budget: Result<Self, ProbeError>)
        ensures
            if interval_ns == 0 {
                budget is Err && budget->Err_0 == ProbeError::InvalidInterval
            } else if ProbeBudget::capacity_for(rate_bps, interval_ns) > u64::MAX {
                budget is Err && budget->Err_0 == ProbeError::ArithmeticOverflow
            } else {
                let capacity = ProbeBudget::capacity_for(rate_bps, interval_ns) as u64;
                &&& budget is Ok
                &&& (budget->Ok_0).wf()
                &&& budget->Ok_0 == (ProbeBudget {
                    rate_bps,
                    capacity_bytes: capacity,
                    available_bytes: capacity,
                    last_refill: now_ns,
                    refill_remainder: 0,
                })
            },
    {
        if interval_ns == 0 {
            return Err(ProbeError::InvalidInterval);
        }
        proof {
            lemma_product_fits(rate_bps, interval_ns);
        }
        let capacity: u128 = rate_bps as u128 * interval_ns as u128
            / BIT_NANOS_PER_BYTE_SECOND as u128;
        if capacity > u64::MAX as u128 {
            return Err(ProbeError::ArithmeticOverflow);
        }
        let capacity_bytes: u64 = capacity as u64;
        Ok(
            ProbeBudget {
                rate_bps,
                capacity_bytes,
                available_bytes: capacity_bytes,
                last_refill: now_ns,
                refill_remainder: 0,
            },
        )
    }

    /// What the time since the last refill brings, in bits times nanoseconds.
    pub open spec fn due(self, now_ns: u64) -> int {
        self.rate_bps * (now_ns - self.last_refill) + self.refill_remainder
    }

    /// The budget at a time. What does not make a byte yet is kept, but not
    /// beyond the capacity. A time before the last refill changes nothing.
    pub open spec fn refilled(self, now_ns: u64) -> ProbeBudget {
        if now_ns < self.last_refill {
            self
        } else if self.available_bytes >= self.capacity_bytes {
            ProbeBudget { last_refill: now_ns, refill_remainder: 0, ..self }
        } else {
            let total = self.available_bytes + self.due(now_ns) / BIT_NANOS_PER_BYTE_SECOND as int;
            if total >= self.capacity_bytes {
                ProbeBudget {
                    available_bytes: self.capacity_bytes,
                    last_refill: now_ns,
                    refill_remainder: 0,
                    ..self
                }
            } else {
                ProbeBudget {
                    available_bytes: total as u64,
                    last_refill: now_ns,
                    refill_remainder: (self.due(now_ns) % (BIT_NANOS_PER_BYTE_SECOND as int)) as u128,
                    ..self
                }
            }
        }
    }

    fn refill(&mut self, now_ns: u64)
        requires
            old(self).wf(),
        ensures
            final(self).wf(),
            *final(self) == old(self).refilled(now_ns),
    {
        if now_ns < self.last_refill {
            return ;
        }
        let elapsed: u64 = now_ns - self.last_refill;
        self.last_refill = now_ns;
        if self.available_bytes >= self.capacity_bytes {
            self.refill_remainder = 0;
            return ;
        }
        proof {
            lemma_product_fits(self.rate_bps, elapsed);
        }
        let numerator: u128 = self.rate_bps as u128 * elapsed as u128 + self.refill_remainder;
        let denominator: u128 = BIT_NANOS_PER_BYTE_SECOND as u128;
        let refill_bytes: u128 = numerator / denominator;
        self.refill_remainder = numerator % denominator;
        let total: u128 = self.available_bytes as u128 + refill_bytes;
        self.available_bytes = if total >= self.capacity_bytes as u128 {
            self.capacity_bytes
        } else {
            total as u64
        };
        if self.available_bytes == self.capacity_bytes {
            self.refill_remainder = 0;
        }
    }

    /// Takes everything that is available.
    pub fn take_cycle_snapshot(&mut self, now_ns: u64) -> (bytes: u64)
        requires
            old(self).wf(),
        ensures
            final(self).wf(),
            bytes == old(self).refilled(now_ns).available_bytes,
            bytes <= old(self).capacity_bytes,
            *final(self) == (ProbeBudget {
                available_bytes: 0,
                ..old(self).refilled(now_ns)
            }),
    {
        self.refill(now_ns);
        let bytes: u64 = self.available_bytes;
        self.available_bytes = 0;
        bytes
    }

    /// The budget after some bytes came back unused.
    pub open spec fn returned(self, bytes: u64) -> ProbeBudget {
        let total = self.available_bytes + bytes;
        ProbeBudget {
            available_bytes: if total > self.capacity_bytes {
                self.capacity_bytes
            } else {
                total as u64
            },
            ..self
        }
    }

    pub fn return_unused(&mut self, bytes: u64)
        requires
            old(self).wf(),
        ensures
            final(self).wf(),
            *final(self) == old(self).returned(bytes),
    {
        let total: u64 = self.available_bytes.saturating_add(bytes);
        self.available_bytes = if total > self.capacity_bytes {
            self.capacity_bytes
        } else {
            total
        };
    }

    pub fn capacity_bytes(&self) -> (bytes: u64)
        ensures
            bytes == self.capacity_bytes,
    {
        self.capacity_bytes
    }

    pub fn available_bytes(&self) -> (bytes: u64)
        ensures
            bytes == self.available_bytes,
    {
        self.available_bytes
    }
}

proof fn lemma_product_fits(a: u64, b: u64)
    ensures
        0 <= a * b <= u64::MAX * u64::MAX,
{
    assert(0 <= a * b <= 0xffff_ffff_ffff_ffffint * 0xffff_ffff_ffff_ffffint) by (nonlinear_arith);
}

/// Refilling in two steps brings what one step brings, as long as the budget
/// does not fill up: no fraction of a byte is lost.
pub proof fn lemma_refill_loses_nothing(budget: ProbeBudget, middle_ns: u64, now_ns: u64)
    requires
        budget.wf(),
        budget.last_refill <= middle_ns <= now_ns,
        budget.refilled(now_ns).available_bytes < budget.capacity_bytes,
    ensures
        budget.refilled(middle_ns).refilled(now_ns) == budget.refilled(now_ns),
{
    let d = BIT_NANOS_PER_BYTE_SECOND as int;
    let r = budget.rate_bps as int;
    let e1 = middle_ns - budget.last_refill;
    let e2 = now_ns - middle_ns;
    let n1 = budget.due(middle_ns);
    let n = budget.due(now_ns);
    assert(r * (e1 + e2) == r * e1 + r * e2) by (nonlinear_arith);
    assert(n == n1 + r * e2);
    assert(r * e2 >= 0 && r * e1 >= 0) by (nonlinear_arith)
        requires
            r >= 0,
            e1 >= 0,
            e2 >= 0,
    ;
    let q1 = n1 / d;
    let m1 = n1 % d;
    let n2 = r * e2 + m1;
    assert(n == q1 * d + n2);
    assert(n / d == q1 + n2 / d && n % d == n2 % d);
    assert(q1 <= n / d);
}

/// What one connection may still send of its share.
#[derive(Clone, Copy, Debug, PartialEq, Eq, Structural)]
pub struct ProbeReservation {
    pub reserved_bytes: u64,
    pub sent_bytes: u64,
    pub sent_packets: u32,
    pub pending_bytes: Option<u64>,
    pub first_sent_at: Option<u64>,
    pub last_sent_at: Option<u64>,
    pub receipt_challenge: u128,
    pub challenge_sent: bool,
    pub deadline: u64,
}

impl ProbeReservation {
    pub open spec fn pending(self) -> u64 {
        match self.pending_bytes {
            Some(bytes) => bytes,
            None => 0,
        }
    }

    /// Nothing is sent that was not reserved.
    pub open spec fn wf(self) -> bool {
        self.sent_bytes + self.pending() <= self.reserved_bytes
    }

    pub fn new(reserved_bytes: u64, receipt_challenge: u128, now_ns: u64) -> (reservation: Self)
        requires
            now_ns + PROBE_SEND_TIMEOUT_NS <= u64::MAX,
        ensures
            reservation.wf(),
            reservation == (ProbeReservation {
                reserved_bytes,
                sent_bytes: 0,
                sent_packets: 0,
                pending_bytes: None,
                first_sent_at: None,
                last_sent_at: None,
                receipt_challenge,
                challenge_sent: false,
                deadline: (now_ns + PROBE_SEND_TIMEOUT_NS) as u64,
            }),
    {
        ProbeReservation {
            reserved_bytes,
            sent_bytes: 0,
            sent_packets: 0,
            pending_bytes: None,
            first_sent_at: None,
            last_sent_at: None,
            receipt_challenge,
            challenge_sent: false,
            deadline: now_ns + PROBE_SEND_TIMEOUT_NS,
        }
    }

    /// Whether some bytes may be sent now: in time, one send after the other,
    /// and within what was reserved.
    pub open spec fn may_send(self, bytes: u64, now_ns: u64) -> bool {
        &&& now_ns < self.deadline
        &&& self.pending_bytes is None
        &&& self.sent_bytes + bytes <= self.reserved_bytes
    }

    pub fn reserve_send(&mut self, bytes: u64, now_ns: u64) -> (reserved: bool)
        requires
            old(self).wf(),
        ensures
            final(self).wf(),
            reserved == old(self).may_send(bytes, now_ns),
            *final(self) == if reserved {
                ProbeReservation { pending_bytes: Some(bytes), ..*old(self) }
            } else {
                *old(self)
            },
    {
        if now_ns >= self.deadline || self.pending_bytes.is_some() || bytes > self.reserved_bytes
            - self.sent_bytes {
            return false;
        }
        self.pending_bytes = Some(bytes);
        true
    }

    /// The bytes that were reserved have been sent.
    pub fn commit_send(&mut self, now_ns: u64)
        requires
            old(self).wf(),
            old(self).pending_bytes is Some,
        ensures
            final(self).wf(),
            *final(self) == (ProbeReservation {
                pending_bytes: None,
                sent_bytes: (old(self).sent_bytes + old(self).pending()) as u64,
                sent_packets: if old(self).sent_packets < u32::MAX {
                    (old(self).sent_packets + 1) as u32
                } else {
                    u32::MAX
                },
                first_sent_at: if old(self).first_sent_at is Some {
                    old(self).first_sent_at
                } else {
                    Some(now_ns)
                },
                last_sent_at: Some(now_ns),
                ..*old(self)
            }),
    {
        if let Some(bytes) = self.pending_bytes {
            self.pending_bytes = None;
            self.sent_bytes = self.sent_bytes + bytes;
            self.sent_packets = self.sent_packets.saturating_add(1);
            if self.first_sent_at.is_none() {
                self.first_sent_at = Some(now_ns);
            }
            self.last_sent_at = Some(now_ns);
        }
    }

    /// The bytes that were reserved could not be sent.
    pub fn cancel_send(&mut self)
        requires
            old(self).wf(),
        ensures
            final(self).wf(),
            *final(self) == (ProbeReservation { pending_bytes: None, ..*old(self) }),
    {
        self.pending_bytes = None;
    }

    pub fn sent_bytes(&self) -> (bytes: u64)
        ensures
            bytes == self.sent_bytes,
    {
        self.sent_bytes
    }

    pub fn mark_challenge_sent(&mut self)
        requires
            old(self).wf(),
        ensures
            final(self).wf(),
            *final(self) == (ProbeReservation { challenge_sent: true, ..*old(self) }),
    {
        self.challenge_sent = true;
    }

    /// What is left: every reserved byte is sent, on its way, or unused.
    pub fn unused_bytes(&self) -> (bytes: u64)
        requires
            self.wf(),
        ensures
            self.sent_bytes + self.pending() + bytes == self.reserved_bytes,
    {
        let pending: u64 = match self.pending_bytes {
            Some(bytes) => bytes,
            None => 0,
        };
        self.reserved_bytes - self.sent_bytes - pending
    }

    /// The time from the first packet to the last.
    pub open spec fn duration(self) -> int {
        match (self.first_sent_at, self.last_sent_at) {
            (Some(first), Some(last)) => crate::clock::elapsed(first, last),
            _ => 0,
        }
    }

    pub fn send_duration(&self) -> (ns: u64)
        ensures
            ns == self.duration(),
    {
        match (self.first_sent_at, self.last_sent_at) {
            (Some(first), Some(last)) => crate::clock::time_since(first, last),
            _ => 0,
        }
    }

    /// Whether an acknowledgement answers what was sent: it knows the challenge,
    /// and claims no more than was sent.
    pub open spec fn answered_by(self, ack: ProbeAck) -> bool {
        &&& self.challenge_sent
        &&& ack.receipt_challenge == self.receipt_challenge
        &&& ack.expected_packets == self.sent_packets
        &&& ack.expected_bytes == self.sent_bytes
        &&& ack.received_bytes <= self.sent_bytes
        &&& ack.received_packets <= self.sent_packets
    }

    pub fn matches_ack(&self, ack: &ProbeAck) -> (matches_sent: bool)
        ensures
            matches_sent == self.answered_by(*ack),
    {
        self.challenge_sent && ack.receipt_challenge == self.receipt_challenge
            && ack.expected_packets == self.sent_packets && ack.expected_bytes == self.sent_bytes
            && ack.received_bytes <= self.sent_bytes && ack.received_packets <= self.sent_packets
    }
}

/// A budget holds what its rate brings in one interval, in whole bytes.
pub proof fn lemma_capacity_is_one_interval(rate_bps: u64, interval_ns: u64)
    ensures
        ({
            let capacity = ProbeBudget::capacity_for(rate_bps, interval_ns);
            &&& capacity * 8_000_000_000 <= rate_bps * interval_ns
            &&& rate_bps * interval_ns < (capacity + 1) * 8_000_000_000
        }),
{
}

/// The budget fills at its rate, and at no other: what it holds after some time,
/// down to the fraction of a byte, is what it held and what the rate brought since,
/// or the capacity.
pub proof fn lemma_budget_fills_at_its_rate(budget: ProbeBudget, now_ns: u64)
    requires
        budget.wf(),
        budget.last_refill <= now_ns,
    ensures
        ({
            let after = budget.refilled(now_ns);
            let held = budget.available_bytes * 8_000_000_000 + budget.refill_remainder;
            let holds = after.available_bytes * 8_000_000_000 + after.refill_remainder;
            let brought = budget.rate_bps * (now_ns - budget.last_refill);
            &&& holds <= held + brought
            &&& holds == held + brought || after.available_bytes == budget.capacity_bytes
            &&& after.available_bytes >= budget.available_bytes
            &&& after.available_bytes <= budget.capacity_bytes
            &&& after.last_refill == now_ns
            &&& after.rate_bps == budget.rate_bps
            &&& after.capacity_bytes == budget.capacity_bytes
            &&& after.wf()
        }),
{
    let r = budget.rate_bps as int;
    let e = now_ns - budget.last_refill;
    assert(r * e >= 0) by (nonlinear_arith)
        requires
            r >= 0,
            e >= 0,
    ;
}

/// A time before the last refill brings nothing.
pub proof fn lemma_time_going_back_brings_nothing(budget: ProbeBudget, now_ns: u64)
    requires
        now_ns < budget.last_refill,
    ensures
        budget.refilled(now_ns) == budget,
{
}

/// The bytes that a budget has given out, cycle after cycle, and the budget
/// afterwards.
pub open spec fn taken_all(budget: ProbeBudget, times: Seq<u64>) -> (int, ProbeBudget)
    decreases times.len(),
{
    if times.len() == 0 {
        (0, budget)
    } else {
        let before = taken_all(budget, times.drop_last());
        let full = before.1.refilled(times.last());
        (before.0 + full.available_bytes, ProbeBudget { available_bytes: 0, ..full })
    }
}

/// Probes stay within their rate: over any number of cycles, no more bytes are
/// given out than there were and than the rate has brought since.
pub proof fn lemma_probes_stay_within_the_rate(budget: ProbeBudget, times: Seq<u64>)
    requires
        budget.wf(),
        times.len() > 0,
        budget.last_refill <= times[0],
        forall|i: int, j: int| 0 <= i <= j < times.len() ==> times[i] <= times[j],
    ensures
        taken_all(budget, times).0 * 8_000_000_000 <= budget.available_bytes * 8_000_000_000
            + budget.refill_remainder + budget.rate_bps * (times.last() - budget.last_refill),
{
    lemma_taken_and_left(budget, times);
}

proof fn lemma_taken_and_left(budget: ProbeBudget, times: Seq<u64>)
    requires
        budget.wf(),
        times.len() > 0 ==> budget.last_refill <= times[0],
        forall|i: int, j: int| 0 <= i <= j < times.len() ==> times[i] <= times[j],
    ensures
        ({
            let (taken, after) = taken_all(budget, times);
            let reached = if times.len() == 0 {
                budget.last_refill
            } else {
                times.last()
            };
            &&& after.wf()
            &&& after.last_refill == reached
            &&& after.rate_bps == budget.rate_bps
            &&& (taken + after.available_bytes) * 8_000_000_000 + after.refill_remainder
                <= budget.available_bytes * 8_000_000_000 + budget.refill_remainder
                + budget.rate_bps * (reached - budget.last_refill)
        }),
    decreases times.len(),
{
    let r = budget.rate_bps as int;
    if times.len() == 0 {
        assert(r * 0 == 0);
    } else {
        let rest = times.drop_last();
        assert(forall|i: int| 0 <= i < rest.len() ==> rest[i] == times[i]);
        assert(times.last() == times[times.len() - 1]);
        if rest.len() > 0 {
            assert(rest.last() == times[rest.len() - 1]);
        }
        lemma_taken_and_left(budget, rest);
        let before = taken_all(budget, rest).1;
        lemma_budget_fills_at_its_rate(before, times.last());
        let a = before.last_refill - budget.last_refill;
        let b = times.last() - before.last_refill;
        assert(r * (a + b) == r * a + r * b) by (nonlinear_arith);
    }
}

/// What comes back unused can be used again, up to the capacity.
pub proof fn lemma_unused_bytes_come_back(budget: ProbeBudget, bytes: u64)
    requires
        budget.wf(),
    ensures
        budget.returned(bytes).wf(),
        budget.available_bytes + bytes <= budget.capacity_bytes ==> budget.returned(
            bytes,
        ).available_bytes == budget.available_bytes + bytes,
        budget.available_bytes + bytes > budget.capacity_bytes ==> budget.returned(
            bytes,
        ).available_bytes == budget.capacity_bytes,
        budget.returned(bytes).capacity_bytes == budget.capacity_bytes,
        budget.returned(bytes).rate_bps == budget.rate_bps,
        budget.returned(bytes).last_refill == budget.last_refill,
{
}

/// Every connection gets an equal share, in whole bytes, and connections get one
/// only where it carries two packets.
pub proof fn lemma_shares_carry_two_packets(
    snapshot_bytes: u64,
    connection_count: usize,
    packet_size: usize,
)
    requires
        connection_count > 0,
        packet_size > 0,
    ensures
        match cycle_share(snapshot_bytes, connection_count, packet_size) {
            Some(share) => {
                &&& share * connection_count <= snapshot_bytes
                &&& snapshot_bytes < (share + 1) * connection_count
                &&& share >= packet_size + packet_size || share == u64::MAX
            },
            None => snapshot_bytes < (packet_size + packet_size) * connection_count,
        },
{
    let s = snapshot_bytes as int;
    let c = connection_count as int;
    let p = packet_size as int;
    let q = s / c;
    assert(0 <= q <= s && q * c <= s && s < (q + 1) * c) by (nonlinear_arith)
        requires
            s >= 0,
            c > 0,
            q == s / c,
    ;
    if q < 2 * p {
        assert((q + 1) * c <= (2 * p) * c) by (nonlinear_arith)
            requires
                q + 1 <= 2 * p,
                c > 0,
        ;
    }
}

/// A connection sends only before its deadline, one send after the other, and no
/// more than was reserved for it.
pub proof fn lemma_sends_are_reserved(reservation: ProbeReservation, bytes: u64, now_ns: u64)
    requires
        reservation.wf(),
    ensures
        reservation.may_send(bytes, now_ns) == (now_ns < reservation.deadline
            && reservation.pending_bytes is None && bytes <= reservation.reserved_bytes
            - reservation.sent_bytes),
{
}

/// An acknowledgement counts only for whoever sent the challenge: it has to know
/// the challenge and what was sent, and cannot claim more than that.
pub proof fn lemma_only_receipts_count(reservation: ProbeReservation, ack: ProbeAck)
    ensures
        !reservation.challenge_sent ==> !reservation.answered_by(ack),
        ack.receipt_challenge != reservation.receipt_challenge ==> !reservation.answered_by(ack),
        ack.received_bytes > reservation.sent_bytes ==> !reservation.answered_by(ack),
        ack.received_packets > reservation.sent_packets ==> !reservation.answered_by(ack),
        ack.expected_packets != reservation.sent_packets ==> !reservation.answered_by(ack),
        ack.expected_bytes != reservation.sent_bytes ==> !reservation.answered_by(ack),
        reservation.challenge_sent && ack.receipt_challenge == reservation.receipt_challenge
            && ack.expected_packets == reservation.sent_packets && ack.expected_bytes
            == reservation.sent_bytes && ack.received_packets <= ack.expected_packets
            && ack.received_bytes <= ack.expected_bytes ==> reservation.answered_by(ack),
{
}

/// The time that sending took is the time from the first packet to the last.
pub proof fn lemma_send_time_is_first_to_last(reservation: ProbeReservation, first: u64, last: u64)
    requires
        reservation.first_sent_at == Some(first),
        reservation.last_sent_at == Some(last),
        first <= last,
    ensures
        reservation.duration() == last - first,
{
}

} // verus!
