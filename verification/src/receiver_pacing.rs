//! Pacing of what is sent to a receiver that cannot keep up.

use vstd::prelude::*;
use crate::bytes::{all_zero, push_be, push_zeros, read_be};
use crate::packet::{
    Packet, PacketModel, PACKET_ALTERNATE_FEC_PARITY, PACKET_ALTERNATE_FEC_SOURCE, PACKET_DATA,
    PACKET_DATA_WITH_KCP_SRC_MODIFIED, PACKET_DATA_WITH_QUIC_SRC_MODIFIED, PACKET_ETHERNET,
    PACKET_FOREIGN_NETWORK, PACKET_KCP_DST, PACKET_KCP_SRC, PACKET_QUIC_DST, PACKET_QUIC_SRC,
};

verus! {

/// How often a receiver reports, in milliseconds.
pub const RECEIVER_PRESSURE_REPORT_INTERVAL_MS: u64 = 100;

pub const REPORT_VERSION: u8 = 1;

pub const REPORT_WIRE_SIZE: usize = 40;

pub const PRESSURE_STALL_NS: u64 = 1_000_000;

pub const ACTIVATE_AFTER_REPORTS: u8 = 2;

pub const CLEAR_AFTER_REPORTS: u8 = 3;

pub const MIN_TARGET_BYTES_PER_SECOND: u64 = 1_048_576;

pub const MAX_TARGET_BYTES_PER_SECOND: u64 = 107_374_182_400;

pub const TOKEN_BURST_BYTES: u64 = 262_144;

pub const REPORT_STALE_AFTER_NS: u64 = 2_000_000_000;

pub const MAX_PACING_SLEEP_NS: u64 = 25_000_000;

/// Why a report was refused.
#[derive(Clone, Copy, Debug, PartialEq, Eq, Structural)]
pub enum ReportError {
    InvalidLength,
    UnsupportedVersion,
    InvalidQueueShape,
}

/// What a receiver tells of its queue. The counters only grow.
#[derive(Clone, Copy, Debug, PartialEq, Eq, Structural)]
pub struct ReceiverPressureReport {
    pub sample_micros: u64,
    pub delivered_bytes: u64,
    pub occupancy_packets: u32,
    pub capacity_packets: u32,
    pub stall_ns: u64,
}

/// A report on the wire: a version, padding, then the numbers, big-endian.
pub open spec fn report_bytes(report: ReceiverPressureReport) -> Seq<u8> {
    crate::bytes::be_bytes(REPORT_VERSION as nat, 1) + Seq::new(7, |i: int| 0u8)
        + crate::bytes::be_bytes(report.sample_micros as nat, 8) + crate::bytes::be_bytes(
        report.delivered_bytes as nat,
        8,
    ) + crate::bytes::be_bytes(report.occupancy_packets as nat, 4) + crate::bytes::be_bytes(
        report.capacity_packets as nat,
        4,
    ) + crate::bytes::be_bytes(report.stall_ns as nat, 8)
}

/// Whether a queue can look like this.
pub open spec fn queue_shape_valid(report: ReceiverPressureReport) -> bool {
    report.capacity_packets > 0 && report.occupancy_packets <= 4 * report.capacity_packets
}

/// The report that some bytes hold, or what is wrong with them.
pub open spec fn report_of_bytes(input: Seq<u8>) -> Result<ReceiverPressureReport, ReportError> {
    if input.len() != REPORT_WIRE_SIZE {
        Err(ReportError::InvalidLength)
    } else if input[0] != REPORT_VERSION || exists|i: int| 1 <= i < 8 && input[i] != 0 {
        Err(ReportError::UnsupportedVersion)
    } else {
        let report = ReceiverPressureReport {
            sample_micros: crate::bytes::be_value(input.subrange(8, 16)) as u64,
            delivered_bytes: crate::bytes::be_value(input.subrange(16, 24)) as u64,
            occupancy_packets: crate::bytes::be_value(input.subrange(24, 28)) as u32,
            capacity_packets: crate::bytes::be_value(input.subrange(28, 32)) as u32,
            stall_ns: crate::bytes::be_value(input.subrange(32, 40)) as u64,
        };
        if queue_shape_valid(report) {
            Ok(report)
        } else {
            Err(ReportError::InvalidQueueShape)
        }
    }
}

impl ReceiverPressureReport {
    pub fn encode(self) -> (output: Vec<u8>)
        ensures
            output@ == report_bytes(self),
    {
        let mut output: Vec<u8> = Vec::new();
        push_be(&mut output, REPORT_VERSION as u128, 1);
        push_zeros(&mut output, 7);
        push_be(&mut output, self.sample_micros as u128, 8);
        push_be(&mut output, self.delivered_bytes as u128, 8);
        push_be(&mut output, self.occupancy_packets as u128, 4);
        push_be(&mut output, self.capacity_packets as u128, 4);
        push_be(&mut output, self.stall_ns as u128, 8);
        assert(output@ =~= report_bytes(self));
        output
    }

    pub fn decode(input: &[u8]) -> (report: Result<Self, ReportError>)
        ensures
            report == report_of_bytes(input@),
    {
        if input.len() != REPORT_WIRE_SIZE {
            return Err(ReportError::InvalidLength);
        }
        let padded = all_zero(input, 1, 7);
        if input[0] != REPORT_VERSION || !padded {
            proof {
                if !padded {
                    let i = choose|i: int| 1 <= i < 8 && input@[i] != 0;
                    assert(input@[i] != 0);
                }
            }
            return Err(ReportError::UnsupportedVersion);
        }
        proof {
            crate::bytes::lemma_pow256();
        }
        let sample_micros: u128 = read_be(input, 8, 8);
        let delivered_bytes: u128 = read_be(input, 16, 8);
        let occupancy_packets: u128 = read_be(input, 24, 4);
        let capacity_packets: u128 = read_be(input, 28, 4);
        let stall_ns: u128 = read_be(input, 32, 8);
        let report = ReceiverPressureReport {
            sample_micros: sample_micros as u64,
            delivered_bytes: delivered_bytes as u64,
            occupancy_packets: occupancy_packets as u32,
            capacity_packets: capacity_packets as u32,
            stall_ns: stall_ns as u64,
        };
        if report.capacity_packets == 0 || report.occupancy_packets as u64
            > report.capacity_packets as u64 * 4 {
            return Err(ReportError::InvalidQueueShape);
        }
        Ok(report)
    }
}

/// A report of a possible queue arrives as it was sent.
pub proof fn lemma_report_round_trip(report: ReceiverPressureReport)
    requires
        queue_shape_valid(report),
    ensures
        report_of_bytes(report_bytes(report)) == Ok::<ReceiverPressureReport, ReportError>(report),
{
    let wire = report_bytes(report);
    crate::bytes::lemma_pow256();
    broadcast use crate::bytes::lemma_be_bytes_len;

    crate::bytes::lemma_be_value_of_bytes(REPORT_VERSION as nat, 1);
    crate::bytes::lemma_be_value_of_bytes(report.sample_micros as nat, 8);
    crate::bytes::lemma_be_value_of_bytes(report.delivered_bytes as nat, 8);
    crate::bytes::lemma_be_value_of_bytes(report.occupancy_packets as nat, 4);
    crate::bytes::lemma_be_value_of_bytes(report.capacity_packets as nat, 4);
    crate::bytes::lemma_be_value_of_bytes(report.stall_ns as nat, 8);
    assert(wire.len() == 40);
    assert(wire.subrange(0, 1) =~= crate::bytes::be_bytes(REPORT_VERSION as nat, 1));
    assert(wire[0] == REPORT_VERSION) by {
        let first = crate::bytes::be_bytes(REPORT_VERSION as nat, 1);
        assert(wire[0] == first[0]);
        reveal_with_fuel(crate::bytes::be_value, 2);
    }
    assert(forall|i: int| 1 <= i < 8 ==> wire[i] == 0);
    assert(wire.subrange(8, 16) =~= crate::bytes::be_bytes(report.sample_micros as nat, 8));
    assert(wire.subrange(16, 24) =~= crate::bytes::be_bytes(report.delivered_bytes as nat, 8));
    assert(wire.subrange(24, 28) =~= crate::bytes::be_bytes(report.occupancy_packets as nat, 4));
    assert(wire.subrange(28, 32) =~= crate::bytes::be_bytes(report.capacity_packets as nat, 4));
    assert(wire.subrange(32, 40) =~= crate::bytes::be_bytes(report.stall_ns as nat, 8));
}

/// What a report has led to.
#[derive(Clone, Copy, Debug, PartialEq, Eq, Structural)]
pub struct PacerUpdate {
    pub active: bool,
    pub active_changed: bool,
    pub pressured: bool,
    pub service_bytes_per_second: u64,
    pub target_bytes_per_second: u64,
}

/// What a sender knows of its receiver. Times are in nanoseconds.
#[derive(Clone, Copy, Debug, PartialEq, Eq, Structural)]
pub struct PacerState {
    pub previous_report: Option<ReceiverPressureReport>,
    pub last_report_received: Option<u64>,
    pub smoothed_service_bytes_per_second: u64,
    pub target_bytes_per_second: u64,
    pub pressure_streak: u8,
    pub clear_streak: u8,
    pub active: bool,
    pub tokens: u64,
    pub last_refill: u64,
}

/// Bytes per second between two reports, up to the highest target.
pub open spec fn service_rate(previous: ReceiverPressureReport, report: ReceiverPressureReport) -> u64 {
    let bytes = report.delivered_bytes - previous.delivered_bytes;
    let micros = report.sample_micros - previous.sample_micros;
    let rate = bytes * 1_000_000 / micros;
    if rate > MAX_TARGET_BYTES_PER_SECOND {
        MAX_TARGET_BYTES_PER_SECOND
    } else {
        rate as u64
    }
}

/// Whether a report follows another: its counters did not go back.
pub open spec fn follows(previous: ReceiverPressureReport, report: ReceiverPressureReport) -> bool {
    &&& report.sample_micros > previous.sample_micros
    &&& report.delivered_bytes >= previous.delivered_bytes
    &&& report.stall_ns >= previous.stall_ns
}

/// Whether a receiver is under pressure: a quarter of its queue is full, or it
/// has stalled since the last report.
pub open spec fn is_pressured(previous: ReceiverPressureReport, report: ReceiverPressureReport) -> bool {
    ||| report.occupancy_packets * 4 >= report.capacity_packets
    ||| report.stall_ns - previous.stall_ns >= PRESSURE_STALL_NS
}

/// The service rate, smoothed: a quarter is the new sample.
pub open spec fn smoothed(before: u64, sample: u64) -> u64 {
    if sample == 0 {
        before
    } else if before == 0 {
        sample
    } else {
        ((before * 3 + sample) / 4) as u64
    }
}

/// The target for a service rate: a little less than what the receiver does.
pub open spec fn target_for(service: u64) -> u64 {
    let target = service * 95 / 100;
    if target < MIN_TARGET_BYTES_PER_SECOND {
        MIN_TARGET_BYTES_PER_SECOND
    } else if target > MAX_TARGET_BYTES_PER_SECOND {
        MAX_TARGET_BYTES_PER_SECOND
    } else {
        target as u64
    }
}

/// A target after a report without any delivery: a tenth less.
pub open spec fn backed_off(target: u64) -> u64 {
    let less = target * 9 / 10;
    if less < MIN_TARGET_BYTES_PER_SECOND {
        MIN_TARGET_BYTES_PER_SECOND
    } else {
        less as u64
    }
}

impl PacerState {
    /// Pacing has a target exactly while it is active, and the numbers are
    /// within their bounds.
    pub open spec fn wf(self) -> bool {
        &&& self.smoothed_service_bytes_per_second <= MAX_TARGET_BYTES_PER_SECOND
        &&& self.active ==> MIN_TARGET_BYTES_PER_SECOND <= self.target_bytes_per_second
            <= MAX_TARGET_BYTES_PER_SECOND
        &&& !self.active ==> self.target_bytes_per_second == 0
        &&& self.pressure_streak <= ACTIVATE_AFTER_REPORTS
        &&& self.clear_streak <= CLEAR_AFTER_REPORTS
    }

    pub fn new(now_ns: u64) -> (state: Self)
        ensures
            state.wf(),
            state == (PacerState {
                previous_report: None,
                last_report_received: None,
                smoothed_service_bytes_per_second: 0,
                target_bytes_per_second: 0,
                pressure_streak: 0,
                clear_streak: 0,
                active: false,
                tokens: TOKEN_BURST_BYTES,
                last_refill: now_ns,
            }),
    {
        PacerState {
            previous_report: None,
            last_report_received: None,
            smoothed_service_bytes_per_second: 0,
            target_bytes_per_second: 0,
            pressure_streak: 0,
            clear_streak: 0,
            active: false,
            tokens: TOKEN_BURST_BYTES,
            last_refill: now_ns,
        }
    }

    /// The tokens after the time since the last refill, up to a capacity.
    pub open spec fn refilled_tokens(self, now_ns: u64, capacity: u64) -> u64 {
        let elapsed = crate::clock::elapsed(self.last_refill, now_ns);
        let tokens = self.tokens + self.target_bytes_per_second * elapsed / 1_000_000_000;
        if tokens > capacity {
            capacity
        } else {
            tokens as u64
        }
    }

    pub open spec fn refilled(self, now_ns: u64, capacity: u64) -> PacerState {
        PacerState {
            tokens: if self.target_bytes_per_second == 0 {
                self.tokens
            } else {
                self.refilled_tokens(now_ns, capacity)
            },
            last_refill: now_ns,
            ..self
        }
    }

    pub open spec fn deactivated(self, now_ns: u64) -> PacerState {
        PacerState {
            active: false,
            target_bytes_per_second: 0,
            tokens: TOKEN_BURST_BYTES,
            last_refill: now_ns,
            ..self
        }
    }

    /// The state after the rate and the streaks were brought up to date.
    pub open spec fn observed(self, previous: ReceiverPressureReport, report: ReceiverPressureReport) -> PacerState {
        let pressured = is_pressured(previous, report);
        PacerState {
            smoothed_service_bytes_per_second: smoothed(
                self.smoothed_service_bytes_per_second,
                service_rate(previous, report),
            ),
            pressure_streak: if !pressured {
                0
            } else if self.pressure_streak < ACTIVATE_AFTER_REPORTS {
                (self.pressure_streak + 1) as u8
            } else {
                ACTIVATE_AFTER_REPORTS
            },
            clear_streak: if pressured {
                0
            } else if self.clear_streak < CLEAR_AFTER_REPORTS {
                (self.clear_streak + 1) as u8
            } else {
                CLEAR_AFTER_REPORTS
            },
            ..self
        }
    }

    /// The state after pressure was seen often enough: pacing starts, or follows
    /// the receiver.
    pub open spec fn pressed(self, sample: u64, now_ns: u64) -> PacerState {
        let fed = if self.active {
            self.refilled(now_ns, TOKEN_BURST_BYTES)
        } else {
            self
        };
        if sample == 0 && fed.active {
            PacerState {
                target_bytes_per_second: backed_off(fed.target_bytes_per_second),
                last_refill: now_ns,
                ..fed
            }
        } else if fed.smoothed_service_bytes_per_second != 0 {
            PacerState {
                target_bytes_per_second: target_for(fed.smoothed_service_bytes_per_second),
                tokens: if fed.active {
                    fed.tokens
                } else {
                    0
                },
                active: true,
                last_refill: now_ns,
                ..fed
            }
        } else {
            PacerState { last_refill: now_ns, ..fed }
        }
    }

    /// The state after a report that follows another.
    pub open spec fn followed(
        self,
        previous: ReceiverPressureReport,
        report: ReceiverPressureReport,
        now_ns: u64,
    ) -> PacerState {
        let seen = self.observed(previous, report);
        let acted = if seen.clear_streak >= CLEAR_AFTER_REPORTS {
            seen.deactivated(now_ns)
        } else if seen.pressure_streak >= ACTIVATE_AFTER_REPORTS {
            seen.pressed(service_rate(previous, report), now_ns)
        } else {
            seen
        };
        PacerState {
            previous_report: Some(report),
            last_report_received: Some(now_ns),
            ..acted
        }
    }

    fn refill(&mut self, now_ns: u64, capacity: u64)
        requires
            old(self).wf(),
        ensures
            final(self).wf(),
            *final(self) == old(self).refilled(now_ns, capacity),
    {
        if self.target_bytes_per_second == 0 {
            self.last_refill = now_ns;
            return ;
        }
        let elapsed: u64 = crate::clock::time_since(self.last_refill, now_ns);
        let target: u64 = self.target_bytes_per_second;
        assert(target as int * elapsed as int <= 107_374_182_400int * u64::MAX as int)
            by (nonlinear_arith)
            requires
                target <= 107_374_182_400u64,
        ;
        assert(target as int * elapsed as int >= 0) by (nonlinear_arith);
        let added: u128 = target as u128 * elapsed as u128 / 1_000_000_000;
        let total: u128 = self.tokens as u128 + added;
        self.tokens = if total > capacity as u128 {
            capacity
        } else {
            total as u64
        };
        self.last_refill = now_ns;
    }

    fn deactivate(&mut self, now_ns: u64)
        requires
            old(self).wf(),
        ensures
            final(self).wf(),
            *final(self) == old(self).deactivated(now_ns),
    {
        self.active = false;
        self.target_bytes_per_second = 0;
        self.tokens = TOKEN_BURST_BYTES;
        self.last_refill = now_ns;
    }

    fn press(&mut self, sample: u64, now_ns: u64)
        requires
            old(self).wf(),
        ensures
            final(self).wf(),
            *final(self) == old(self).pressed(sample, now_ns),
    {
        if self.active {
            self.refill(now_ns, TOKEN_BURST_BYTES);
        }
        if sample == 0 && self.active {
            let less: u64 = self.target_bytes_per_second * 9 / 10;
            self.target_bytes_per_second = if less < MIN_TARGET_BYTES_PER_SECOND {
                MIN_TARGET_BYTES_PER_SECOND
            } else {
                less
            };
        } else if self.smoothed_service_bytes_per_second != 0 {
            let target: u64 = self.smoothed_service_bytes_per_second * 95 / 100;
            self.target_bytes_per_second = if target < MIN_TARGET_BYTES_PER_SECOND {
                MIN_TARGET_BYTES_PER_SECOND
            } else if target > MAX_TARGET_BYTES_PER_SECOND {
                MAX_TARGET_BYTES_PER_SECOND
            } else {
                target
            };
            if !self.active {
                self.tokens = 0;
            }
            self.active = true;
        }
        self.last_refill = now_ns;
    }
}

fn sample_service(previous: &ReceiverPressureReport, report: &ReceiverPressureReport) -> (rate: u64)
    requires
        follows(*previous, *report),
    ensures
        rate == service_rate(*previous, *report),
        rate <= MAX_TARGET_BYTES_PER_SECOND,
{
    let micros: u64 = report.sample_micros - previous.sample_micros;
    let bytes: u64 = report.delivered_bytes - previous.delivered_bytes;
    let rate: u128 = bytes as u128 * 1_000_000 / micros as u128;
    assert(bytes as int * 1_000_000 / micros as int >= 0) by (nonlinear_arith)
        requires
            micros > 0,
    ;
    if rate > MAX_TARGET_BYTES_PER_SECOND as u128 {
        MAX_TARGET_BYTES_PER_SECOND
    } else {
        rate as u64
    }
}

/// Paces what is sent to one receiver.
pub struct ReceiverPacer {
    pub enabled: bool,
    pub state: PacerState,
}

/// The answer to a report that says nothing yet.
pub open spec fn no_update() -> PacerUpdate {
    PacerUpdate {
        active: false,
        active_changed: false,
        pressured: false,
        service_bytes_per_second: 0,
        target_bytes_per_second: 0,
    }
}

impl ReceiverPacer {
    pub open spec fn wf(self) -> bool {
        self.state.wf()
    }

    pub fn new(enabled: bool, now_ns: u64) -> (pacer: Self)
        ensures
            pacer.wf(),
            pacer.enabled == enabled,
            !pacer.state.active,
            pacer.state.previous_report is None,
            pacer.state.tokens == TOKEN_BURST_BYTES,
            pacer.state.last_refill == now_ns,
            pacer.state.smoothed_service_bytes_per_second == 0,
            pacer.state.pressure_streak == 0,
            pacer.state.clear_streak == 0,
            pacer.state.last_report_received is None,
    {
        ReceiverPacer { enabled, state: PacerState::new(now_ns) }
    }

    /// Takes a report in. Pacing starts after two reports of pressure in a row,
    /// and ends after three without.
    pub fn update_report(&mut self, report: ReceiverPressureReport, received_at: u64) -> (update:
        PacerUpdate)
        requires
            old(self).wf(),
        ensures
            final(self).wf(),
            final(self).enabled == old(self).enabled,
            !old(self).enabled ==> update == no_update() && *final(self) == *old(self),
            old(self).enabled ==> match old(self).state.previous_report {
                None => {
                    &&& update == no_update()
                    &&& final(self).state == (PacerState {
                        previous_report: Some(report),
                        last_report_received: Some(received_at),
                        last_refill: received_at,
                        ..old(self).state
                    })
                },
                Some(previous) => if !follows(previous, report) {
                    &&& *final(self) == *old(self)
                    &&& update == (PacerUpdate {
                        active: old(self).state.active,
                        active_changed: false,
                        pressured: false,
                        service_bytes_per_second: old(self).state.smoothed_service_bytes_per_second,
                        target_bytes_per_second: old(self).state.target_bytes_per_second,
                    })
                } else {
                    &&& final(self).state == old(self).state.followed(previous, report, received_at)
                    &&& update == (PacerUpdate {
                        active: final(self).state.active,
                        active_changed: old(self).state.active != final(self).state.active,
                        pressured: is_pressured(previous, report),
                        service_bytes_per_second: final(self).state.smoothed_service_bytes_per_second,
                        target_bytes_per_second: final(self).state.target_bytes_per_second,
                    })
                },
            },
    {
        if !self.enabled {
            return PacerUpdate {
                active: false,
                active_changed: false,
                pressured: false,
                service_bytes_per_second: 0,
                target_bytes_per_second: 0,
            };
        }
        let old_active = self.state.active;
        let previous = match self.state.previous_report {
            Some(previous) => previous,
            None => {
                self.state.previous_report = Some(report);
                self.state.last_report_received = Some(received_at);
                self.state.last_refill = received_at;
                return PacerUpdate {
                    active: false,
                    active_changed: false,
                    pressured: false,
                    service_bytes_per_second: 0,
                    target_bytes_per_second: 0,
                };
            },
        };
        if report.sample_micros <= previous.sample_micros || report.delivered_bytes
            < previous.delivered_bytes || report.stall_ns < previous.stall_ns {
            return PacerUpdate {
                active: self.state.active,
                active_changed: false,
                pressured: false,
                service_bytes_per_second: self.state.smoothed_service_bytes_per_second,
                target_bytes_per_second: self.state.target_bytes_per_second,
            };
        }
        let sample: u64 = sample_service(&previous, &report);
        let mut state = self.state;
        if sample != 0 {
            state.smoothed_service_bytes_per_second = if state.smoothed_service_bytes_per_second
                == 0 {
                sample
            } else {
                (state.smoothed_service_bytes_per_second * 3 + sample) / 4
            };
        }
        let pressured = report.occupancy_packets as u64 * 4 >= report.capacity_packets as u64
            || report.stall_ns - previous.stall_ns >= PRESSURE_STALL_NS;
        if pressured {
            if state.pressure_streak < ACTIVATE_AFTER_REPORTS {
                state.pressure_streak = state.pressure_streak + 1;
            }
            state.clear_streak = 0;
        } else {
            if state.clear_streak < CLEAR_AFTER_REPORTS {
                state.clear_streak = state.clear_streak + 1;
            }
            state.pressure_streak = 0;
        }
        assert(state == self.state.observed(previous, report));
        if state.clear_streak >= CLEAR_AFTER_REPORTS {
            state.deactivate(received_at);
        } else if state.pressure_streak >= ACTIVATE_AFTER_REPORTS {
            state.press(sample, received_at);
        }
        state.previous_report = Some(report);
        state.last_report_received = Some(received_at);
        self.state = state;
        PacerUpdate {
            active: state.active,
            active_changed: old_active != state.active,
            pressured,
            service_bytes_per_second: state.smoothed_service_bytes_per_second,
            target_bytes_per_second: state.target_bytes_per_second,
        }
    }

    /// Whether the last report is too old to pace by.
    pub open spec fn is_stale(self, now_ns: u64) -> bool {
        match self.state.last_report_received {
            None => true,
            Some(received) => crate::clock::elapsed(received, now_ns)
                > REPORT_STALE_AFTER_NS,
        }
    }

    /// What taking the tokens for some bytes gives: how long to wait, if at all,
    /// and the pacer afterwards.
    pub open spec fn stepped(self, bytes: u64, now_ns: u64) -> (Option<u64>, ReceiverPacer) {
        if !self.enabled || bytes == 0 || !self.state.active {
            (None, self)
        } else if self.is_stale(now_ns) {
            (None, ReceiverPacer { state: self.state.deactivated(now_ns), ..self })
        } else {
            let capacity = if bytes > TOKEN_BURST_BYTES {
                bytes
            } else {
                TOKEN_BURST_BYTES
            };
            let fed = self.state.refilled(now_ns, capacity);
            if fed.tokens >= bytes {
                (
                    None,
                    ReceiverPacer {
                        state: PacerState { tokens: (fed.tokens - bytes) as u64, ..fed },
                        ..self
                    },
                )
            } else {
                (
                    Some(wait_for(bytes - fed.tokens, fed.target_bytes_per_second)),
                    ReceiverPacer { state: fed, ..self },
                )
            }
        }
    }

    /// Takes the tokens for some bytes: nothing to wait for, or how long to wait
    /// before the next try.
    pub fn pace_step(&mut self, bytes: u64, now_ns: u64) -> (wait_ns: Option<u64>)
        requires
            old(self).wf(),
        ensures
            final(self).wf(),
            (wait_ns, *final(self)) == old(self).stepped(bytes, now_ns),
            final(self).enabled == old(self).enabled,
            if !old(self).enabled || bytes == 0 || !old(self).state.active {
                wait_ns is None && *final(self) == *old(self)
            } else if old(self).is_stale(now_ns) {
                wait_ns is None && final(self).state == old(self).state.deactivated(now_ns)
            } else {
                let capacity = if bytes > TOKEN_BURST_BYTES {
                    bytes
                } else {
                    TOKEN_BURST_BYTES
                };
                let fed = old(self).state.refilled(now_ns, capacity);
                if fed.tokens >= bytes {
                    &&& wait_ns is None
                    &&& final(self).state == (PacerState {
                        tokens: (fed.tokens - bytes) as u64,
                        ..fed
                    })
                } else {
                    &&& final(self).state == fed
                    &&& wait_ns == Some(wait_for(bytes - fed.tokens, fed.target_bytes_per_second))
                }
            },
    {
        if !self.enabled || bytes == 0 || !self.state.active {
            return None;
        }
        let stale = match self.state.last_report_received {
            None => true,
            Some(received) => crate::clock::time_since(received, now_ns)
                > REPORT_STALE_AFTER_NS,
        };
        let mut state = self.state;
        if stale {
            state.deactivate(now_ns);
            self.state = state;
            return None;
        }
        let capacity: u64 = if bytes > TOKEN_BURST_BYTES {
            bytes
        } else {
            TOKEN_BURST_BYTES
        };
        state.refill(now_ns, capacity);
        if state.tokens >= bytes {
            state.tokens = state.tokens - bytes;
            self.state = state;
            return None;
        }
        self.state = state;
        let deficit: u64 = bytes - state.tokens;
        let target: u64 = state.target_bytes_per_second;
        let scaled: u128 = deficit as u128 * 1_000_000_000;
        let wait: u128 = (scaled + (target as u128 - 1)) / target as u128;
        if wait > MAX_PACING_SLEEP_NS as u128 {
            Some(MAX_PACING_SLEEP_NS)
        } else {
            Some(wait as u64)
        }
    }
}

/// The time in which some bytes can be sent, rounded up, and no longer than a
/// bound.
pub open spec fn wait_for(bytes: int, target: u64) -> u64 {
    let wait = (bytes * 1_000_000_000 + (target - 1)) / target as int;
    if wait > MAX_PACING_SLEEP_NS {
        MAX_PACING_SLEEP_NS
    } else {
        wait as u64
    }
}

/// Whether a packet is data that counts for pacing.
pub open spec fn is_paced(packet: PacketModel) -> bool {
    &&& packet.header matches Some(header)
    &&& !header.critical()
    &&& {
        let t = header.packet_type;
        ||| t == PACKET_DATA
        ||| t == PACKET_FOREIGN_NETWORK
        ||| t == PACKET_KCP_SRC
        ||| t == PACKET_KCP_DST
        ||| t == PACKET_QUIC_SRC
        ||| t == PACKET_QUIC_DST
        ||| t == PACKET_DATA_WITH_KCP_SRC_MODIFIED
        ||| t == PACKET_DATA_WITH_QUIC_SRC_MODIFIED
        ||| t == PACKET_ETHERNET
        ||| t == PACKET_ALTERNATE_FEC_SOURCE
        ||| t == PACKET_ALTERNATE_FEC_PARITY
    }
}

pub open spec fn paced_bytes(packet: PacketModel) -> nat {
    if is_paced(packet) {
        packet.payload.len()
    } else {
        0
    }
}

pub fn paced_packet_bytes(packet: &Packet) -> (bytes: usize)
    ensures
        bytes == paced_bytes(packet@),
{
    let header = match packet.header {
        Some(header) => header,
        None => {
            return 0;
        },
    };
    if header.is_critical_l2_control() {
        return 0;
    }
    let t: u8 = header.packet_type;
    let paced = t == PACKET_DATA || t == PACKET_FOREIGN_NETWORK || t == PACKET_KCP_SRC || t
        == PACKET_KCP_DST || t == PACKET_QUIC_SRC || t == PACKET_QUIC_DST || t
        == PACKET_DATA_WITH_KCP_SRC_MODIFIED || t == PACKET_DATA_WITH_QUIC_SRC_MODIFIED || t
        == PACKET_ETHERNET || t == PACKET_ALTERNATE_FEC_SOURCE || t == PACKET_ALTERNATE_FEC_PARITY;
    if paced {
        packet.payload.len()
    } else {
        0
    }
}

/// What the packets of a batch count together.
pub open spec fn paced_total(batch: Seq<Packet>) -> nat
    decreases batch.len(),
{
    if batch.len() == 0 {
        0
    } else {
        paced_total(batch.drop_last()) + paced_bytes(batch.last()@)
    }
}

pub fn paced_batch_bytes(batch: &Vec<Packet>) -> (bytes: usize)
    ensures
        bytes as nat == if paced_total(batch@) <= usize::MAX {
            paced_total(batch@)
        } else {
            usize::MAX as nat
        },
{
    let mut total: usize = 0;
    let mut i: usize = 0;
    assert(batch@.take(0) =~= Seq::<Packet>::empty());
    while i < batch.len()
        invariant
            i <= batch@.len(),
            total as nat == if paced_total(batch@.take(i as int)) <= usize::MAX {
                paced_total(batch@.take(i as int))
            } else {
                usize::MAX as nat
            },
        decreases batch@.len() - i,
    {
        assert(batch@.take(i + 1).drop_last() =~= batch@.take(i as int));
        total = total.saturating_add(paced_packet_bytes(&batch[i]));
        i = i + 1;
    }
    assert(batch@.take(i as int) =~= batch@);
    total
}

/// The characters with the Unicode property `White_Space`.
pub open spec fn is_white_space(c: char) -> bool {
    ||| '\u{9}' <= c <= '\u{d}'
    ||| c == ' '
    ||| c == '\u{85}'
    ||| c == '\u{a0}'
    ||| c == '\u{1680}'
    ||| '\u{2000}' <= c <= '\u{200a}'
    ||| c == '\u{2028}'
    ||| c == '\u{2029}'
    ||| c == '\u{202f}'
    ||| c == '\u{205f}'
    ||| c == '\u{3000}'
}

/// A text without the white space in front of it.
pub open spec fn trimmed_start(text: Seq<char>) -> Seq<char>
    decreases text.len(),
{
    if text.len() > 0 && is_white_space(text[0]) {
        trimmed_start(text.drop_first())
    } else {
        text
    }
}

/// A text without the white space behind it.
pub open spec fn trimmed_end(text: Seq<char>) -> Seq<char>
    decreases text.len(),
{
    if text.len() > 0 && is_white_space(text.last()) {
        trimmed_end(text.drop_last())
    } else {
        text
    }
}

/// A text without the white space around it.
pub open spec fn trimmed(text: Seq<char>) -> Seq<char> {
    trimmed_end(trimmed_start(text))
}

fn is_white(c: char) -> (white: bool)
    ensures
        white == is_white_space(c),
{
    ('\u{9}' <= c && c <= '\u{d}') || c == ' ' || c == '\u{85}' || c == '\u{a0}' || c == '\u{1680}'
        || ('\u{2000}' <= c && c <= '\u{200a}') || c == '\u{2028}' || c == '\u{2029}' || c
        == '\u{202f}' || c == '\u{205f}' || c == '\u{3000}'
}

fn trim_text<'a>(text: &'a str) -> (word: &'a str)
    ensures
        word@ == trimmed(text@),
{
    let n: usize = text.unicode_len();
    let mut from: usize = 0;
    assert(text@.skip(0) =~= text@);
    while from < n && is_white(text.get_char(from))
        invariant
            n == text@.len(),
            from <= n,
            trimmed_start(text@) == trimmed_start(text@.skip(from as int)),
        decreases n - from,
    {
        assert(text@.skip(from as int).drop_first() =~= text@.skip(from + 1));
        from = from + 1;
    }
    assert(trimmed_start(text@) == text@.skip(from as int));
    let mut to: usize = n;
    assert(text@.subrange(from as int, to as int) =~= text@.skip(from as int));
    while to > from && is_white(text.get_char(to - 1))
        invariant
            n == text@.len(),
            from <= to <= n,
            trimmed(text@) == trimmed_end(text@.subrange(from as int, to as int)),
        decreases to,
    {
        assert(text@.subrange(from as int, to as int).drop_last() =~= text@.subrange(
            from as int,
            to - 1,
        ));
        to = to - 1;
    }
    text.substring_char(from, to)
}

/// Whether two letters are the same but for the case of ASCII letters. `lower`
/// is in lower case.
pub open spec fn same_letter(c: char, lower: char) -> bool {
    c == lower || ('a' <= lower && lower <= 'z' && c as u32 + 32 == lower as u32)
}

pub open spec fn same_word(word: Seq<char>, lower: Seq<char>) -> bool {
    &&& word.len() == lower.len()
    &&& forall|i: int| 0 <= i < lower.len() ==> same_letter(#[trigger] word[i], lower[i])
}

/// Whether a word switches something on.
pub open spec fn is_on(word: Seq<char>) -> bool {
    word == "1"@ || same_word(word, "true"@) || same_word(word, "yes"@) || same_word(word, "on"@)
}

fn equals_ignoring_case(word: &str, lower: &str) -> (same: bool)
    ensures
        same == same_word(word@, lower@),
{
    let n: usize = lower.unicode_len();
    if word.unicode_len() != n {
        return false;
    }
    let mut i: usize = 0;
    while i < n
        invariant
            n == lower@.len(),
            n == word@.len(),
            i <= n,
            forall|k: int| 0 <= k < i ==> same_letter(#[trigger] word@[k], lower@[k]),
        decreases n - i,
    {
        let c: char = word.get_char(i);
        let l: char = lower.get_char(i);
        let same = c == l || ('a' <= l && l <= 'z' && c as u64 + 32 == l as u64);
        if !same {
            return false;
        }
        i = i + 1;
    }
    true
}

/// Whether a word, with no white space around it, switches something on.
pub fn flag_word_is_on(word: &str) -> (on: bool)
    ensures
        on == is_on(word@),
{
    let one = word.unicode_len() == 1 && word.get_char(0) == '1';
    proof {
        reveal_strlit("1");
        if one {
            assert(word@ =~= "1"@);
        }
    }
    one || equals_ignoring_case(word, "true") || equals_ignoring_case(word, "yes")
        || equals_ignoring_case(word, "on")
}

pub open spec fn flag_on(value: Option<&str>) -> bool {
    value matches Some(text) && is_on(trimmed(text@))
}

fn env_flag_enabled(value: Option<&str>) -> (on: bool)
    ensures
        on == flag_on(value),
{
    match value {
        Some(text) => {
            let word = trim_text(text);
            flag_word_is_on(word)
        },
        None => false,
    }
}

/// Pacing has to be switched on, and switching it off wins.
pub fn receiver_pacing_enabled_from_env(enable: Option<&str>, disable: Option<&str>) -> (enabled:
    bool)
    ensures
        enabled == (flag_on(enable) && !flag_on(disable)),
{
    env_flag_enabled(enable) && !env_flag_enabled(disable)
}

/// Pacing stays within its bounds whatever a receiver reports: it has a target
/// between the lowest and the highest exactly while it is active.
pub proof fn lemma_pacing_stays_in_bounds(
    state: PacerState,
    previous: ReceiverPressureReport,
    report: ReceiverPressureReport,
    now_ns: u64,
)
    requires
        state.wf(),
        follows(previous, report),
    ensures
        state.followed(previous, report, now_ns).wf(),
{
    let micros = report.sample_micros - previous.sample_micros;
    let bytes = report.delivered_bytes - previous.delivered_bytes;
    assert(bytes * 1_000_000 / micros >= 0) by (nonlinear_arith)
        requires
            micros > 0,
            bytes >= 0,
    ;
}

/// Three reports without pressure in a row end pacing.
pub proof fn lemma_pacing_ends_without_pressure(
    state: PacerState,
    previous: ReceiverPressureReport,
    a: ReceiverPressureReport,
    b: ReceiverPressureReport,
    c: ReceiverPressureReport,
    t1: u64,
    t2: u64,
    t3: u64,
)
    requires
        state.wf(),
        follows(previous, a),
        follows(a, b),
        follows(b, c),
        !is_pressured(previous, a),
        !is_pressured(a, b),
        !is_pressured(b, c),
    ensures
        !state.followed(previous, a, t1).followed(a, b, t2).followed(b, c, t3).active,
{
    lemma_pacing_stays_in_bounds(state, previous, a, t1);
    lemma_pacing_stays_in_bounds(state.followed(previous, a, t1), a, b, t2);
}

/// One report of pressure never starts pacing.
pub proof fn lemma_pacing_needs_two_reports(
    state: PacerState,
    previous: ReceiverPressureReport,
    report: ReceiverPressureReport,
    now_ns: u64,
)
    requires
        state.wf(),
        follows(previous, report),
        !state.active,
        state.pressure_streak == 0,
    ensures
        !state.followed(previous, report, now_ns).active,
{
}

/// A service sample is the number of bytes that were delivered between two
/// reports over the time between them, up to the highest target.
pub proof fn lemma_sample_is_what_was_delivered(
    previous: ReceiverPressureReport,
    report: ReceiverPressureReport,
)
    requires
        report.sample_micros > previous.sample_micros,
        report.delivered_bytes >= previous.delivered_bytes,
    ensures
        ({
            let rate = service_rate(previous, report) as int;
            let micros = report.sample_micros - previous.sample_micros;
            let bytes = report.delivered_bytes - previous.delivered_bytes;
            &&& rate <= 107_374_182_400
            &&& rate * micros <= bytes * 1_000_000
            &&& rate < 107_374_182_400 ==> bytes * 1_000_000 < (rate + 1) * micros
        }),
{
    let micros = report.sample_micros - previous.sample_micros;
    let scaled = (report.delivered_bytes - previous.delivered_bytes) * 1_000_000;
    let whole = scaled / micros;
    let rate = service_rate(previous, report) as int;
    assert(whole >= 0 && whole * micros <= scaled && scaled < (whole + 1) * micros)
        by (nonlinear_arith)
        requires
            micros > 0,
            scaled >= 0,
            whole == scaled / micros,
    ;
    assert(0 <= rate <= whole);
    assert(rate * micros <= whole * micros) by (nonlinear_arith)
        requires
            rate <= whole,
            micros > 0,
    ;
}

/// The distance between two rates.
pub open spec fn rates_apart(a: u64, b: u64) -> int {
    if a > b {
        a - b
    } else {
        b - a
    }
}

/// The smoothed service rate follows the receiver: a sample draws it closer, and
/// never past the sample. Three quarters of the distance are left, but for a byte.
/// A report without any delivery is no sample, and the first sample is taken as it
/// is.
pub proof fn lemma_smoothed_rate_follows(before: u64, sample: u64)
    requires
        before <= 107_374_182_400,
        sample <= 107_374_182_400,
    ensures
        sample == 0 ==> smoothed(before, sample) == before,
        before == 0 ==> smoothed(before, sample) == sample,
        sample > 0 && before > sample ==> sample <= smoothed(before, sample) < before,
        sample > 0 && before < sample ==> before <= smoothed(before, sample) <= sample,
        sample == before ==> smoothed(before, sample) == before,
        sample > 0 && before > 0 ==> rates_apart(smoothed(before, sample), sample) * 4 <= rates_apart(
            before,
            sample,
        ) * 3 + 3,
        sample > 0 && before > 0 ==> rates_apart(smoothed(before, sample), sample) * 4 + 3
            >= rates_apart(before, sample) * 3,
        sample > 0 && rates_apart(before, sample) > 3 ==> rates_apart(smoothed(before, sample), sample)
            < rates_apart(before, sample),
{
}

/// The smoothed service rate after one sample was taken some times.
pub open spec fn smoothed_often(before: u64, sample: u64, times: nat) -> u64
    decreases times,
{
    if times == 0 {
        before
    } else {
        smoothed(smoothed_often(before, sample, (times - 1) as nat), sample)
    }
}

/// A receiver that keeps delivering at one rate is known to within three bytes per
/// second in the end, whatever it did before.
pub proof fn lemma_smoothed_rate_arrives(before: u64, sample: u64, times: nat)
    requires
        before <= 107_374_182_400,
        0 < sample <= 107_374_182_400,
        times >= rates_apart(before, sample),
    ensures
        rates_apart(smoothed_often(before, sample, times), sample) <= 3,
{
    lemma_smoothed_rate_nears(before, sample, times);
}

proof fn lemma_smoothed_rate_nears(before: u64, sample: u64, times: nat)
    requires
        before <= 107_374_182_400,
        0 < sample <= 107_374_182_400,
    ensures
        smoothed_often(before, sample, times) <= 107_374_182_400,
        rates_apart(smoothed_often(before, sample, times), sample) <= 3 || rates_apart(
            smoothed_often(before, sample, times),
            sample,
        ) + times <= rates_apart(before, sample),
    decreases times,
{
    if times > 0 {
        lemma_smoothed_rate_nears(before, sample, (times - 1) as nat);
        lemma_smoothed_rate_follows(smoothed_often(before, sample, (times - 1) as nat), sample);
    }
}

/// A report brings the smoothed rate up to date with what was delivered since the
/// last one, pressured or not.
pub proof fn lemma_report_updates_the_rate(
    state: PacerState,
    previous: ReceiverPressureReport,
    report: ReceiverPressureReport,
    now_ns: u64,
)
    requires
        state.wf(),
        follows(previous, report),
    ensures
        state.followed(previous, report, now_ns).smoothed_service_bytes_per_second == smoothed(
            state.smoothed_service_bytes_per_second,
            service_rate(previous, report),
        ),
        state.followed(previous, report, now_ns).previous_report == Some(report),
        state.followed(previous, report, now_ns).last_report_received == Some(now_ns),
{
}

/// While a receiver is under pressure, the target is 95 percent of its smoothed
/// rate, within the bounds; a report without any delivery lowers it by a tenth.
pub proof fn lemma_target_follows_the_rate(
    state: PacerState,
    previous: ReceiverPressureReport,
    report: ReceiverPressureReport,
    now_ns: u64,
)
    requires
        state.wf(),
        follows(previous, report),
        state.pressure_streak >= 1,
        report.occupancy_packets * 4 >= report.capacity_packets || report.stall_ns
            - previous.stall_ns >= 1_000_000,
    ensures
        ({
            let after = state.followed(previous, report, now_ns);
            let rate = after.smoothed_service_bytes_per_second as int;
            let target = after.target_bytes_per_second as int;
            &&& after.active == (state.active || rate > 0)
            &&& after.active ==> 1_048_576 <= target <= 107_374_182_400
            &&& after.active && !(state.active && service_rate(previous, report) == 0) ==> {
                &&& target * 100 <= rate * 95 || target == 1_048_576
                &&& rate * 95 < (target + 1) * 100
            }
            &&& state.active && service_rate(previous, report) == 0 ==> {
                &&& target * 10 <= state.target_bytes_per_second * 9 || target == 1_048_576
                &&& state.target_bytes_per_second * 9 < (target + 1) * 10
            }
            &&& !state.active && after.active ==> after.tokens == 0
        }),
{
    lemma_pacing_stays_in_bounds(state, previous, report, now_ns);
}

/// A second report of pressure in a row starts pacing, as soon as anything was
/// delivered.
pub proof fn lemma_two_pressured_reports_start_pacing(
    state: PacerState,
    previous: ReceiverPressureReport,
    a: ReceiverPressureReport,
    b: ReceiverPressureReport,
    t1: u64,
    t2: u64,
)
    requires
        state.wf(),
        follows(previous, a),
        follows(a, b),
        a.occupancy_packets * 4 >= a.capacity_packets || a.stall_ns - previous.stall_ns >= 1_000_000,
        b.occupancy_packets * 4 >= b.capacity_packets || b.stall_ns - a.stall_ns >= 1_000_000,
        b.delivered_bytes - a.delivered_bytes >= b.sample_micros - a.sample_micros,
    ensures
        state.followed(previous, a, t1).followed(a, b, t2).active,
{
    lemma_pacing_stays_in_bounds(state, previous, a, t1);
    lemma_sample_is_what_was_delivered(a, b);
    let rate = service_rate(a, b) as int;
    let micros = b.sample_micros - a.sample_micros;
    if rate == 0 {
        assert((rate + 1) * micros == micros) by (nonlinear_arith)
            requires
                rate == 0,
        ;
    }
}

/// Without pressure, two reports leave pacing and its target as they are: it ends
/// with the third.
pub proof fn lemma_pacing_outlasts_two_reports(
    state: PacerState,
    previous: ReceiverPressureReport,
    report: ReceiverPressureReport,
    now_ns: u64,
)
    requires
        state.wf(),
        follows(previous, report),
        report.occupancy_packets * 4 < report.capacity_packets,
        report.stall_ns - previous.stall_ns < 1_000_000,
        state.clear_streak < 2,
    ensures
        ({
            let after = state.followed(previous, report, now_ns);
            &&& after.active == state.active
            &&& after.target_bytes_per_second == state.target_bytes_per_second
            &&& after.tokens == state.tokens
            &&& after.last_refill == state.last_refill
            &&& after.clear_streak == state.clear_streak + 1
            &&& after.pressure_streak == 0
        }),
{
}

/// Tokens come at the target rate, up to the capacity: what is added over a time
/// is the target times that time, rounded down.
pub proof fn lemma_tokens_come_at_the_target_rate(state: PacerState, now_ns: u64, capacity: u64)
    requires
        state.wf(),
        state.active,
        now_ns >= state.last_refill,
        state.tokens <= capacity,
    ensures
        ({
            let after = state.refilled(now_ns, capacity);
            let added = after.tokens - state.tokens;
            let earned = state.target_bytes_per_second * (now_ns - state.last_refill);
            &&& 0 <= added
            &&& after.tokens <= capacity
            &&& added * 1_000_000_000 <= earned
            &&& after.tokens < capacity ==> earned < (added + 1) * 1_000_000_000
            &&& after.last_refill == now_ns
            &&& after == (PacerState { tokens: after.tokens, last_refill: now_ns, ..state })
        }),
{
    let earned = state.target_bytes_per_second * (now_ns - state.last_refill);
    let target = state.target_bytes_per_second as int;
    let time = now_ns - state.last_refill;
    assert(earned >= 0) by (nonlinear_arith)
        requires
            earned == target * time,
            target >= 0,
            time >= 0,
    ;
}

/// Whoever waits as long as told has the tokens for its bytes afterwards, and a
/// nanosecond less would not do, unless the wait is cut short to 25 milliseconds.
pub proof fn lemma_wait_is_long_enough(bytes: int, target: u64)
    requires
        bytes > 0,
        0 < target <= 107_374_182_400,
    ensures
        0 < wait_for(bytes, target) <= 25_000_000,
        wait_for(bytes, target) < 25_000_000 ==> wait_for(bytes, target) * target >= bytes
            * 1_000_000_000,
        (wait_for(bytes, target) - 1) * target < bytes * 1_000_000_000,
{
    let scaled = bytes * 1_000_000_000;
    let t = target as int;
    let whole = (scaled + (t - 1)) / t;
    assert(whole >= 1 && whole * t >= scaled && (whole - 1) * t < scaled) by (nonlinear_arith)
        requires
            t > 0,
            scaled >= 1,
            whole == (scaled + (t - 1)) / t,
    ;
    let wait = wait_for(bytes, target) as int;
    assert(wait <= whole);
    assert((wait - 1) * t <= (whole - 1) * t) by (nonlinear_arith)
        requires
            wait <= whole,
            t > 0,
    ;
}

/// A report counts when its clock has gone on and no counter has gone back.
pub proof fn lemma_later_reports_count(
    previous: ReceiverPressureReport,
    report: ReceiverPressureReport,
)
    ensures
        follows(previous, report) == (report.sample_micros > previous.sample_micros
            && report.delivered_bytes >= previous.delivered_bytes && report.stall_ns
            >= previous.stall_ns),
{
}

/// Bytes pass only for tokens: what passes and what is left together are what
/// there was and what the target has earned since, and nothing passes while the
/// tokens do not cover it.
pub proof fn lemma_bytes_pass_for_tokens(pacer: ReceiverPacer, bytes: u64, now_ns: u64)
    requires
        pacer.wf(),
        pacer.enabled,
        pacer.state.active,
        bytes > 0,
        now_ns >= pacer.state.last_refill,
        pacer.state.last_report_received matches Some(received) && now_ns <= received + 2_000_000_000,
    ensures
        ({
            let step = pacer.stepped(bytes, now_ns);
            let after = step.1.state;
            let passed = if step.0 is None {
                bytes as int
            } else {
                0
            };
            let earned = pacer.state.target_bytes_per_second * (now_ns - pacer.state.last_refill);
            &&& (after.tokens + passed - pacer.state.tokens) * 1_000_000_000 <= earned
            &&& step.0 is Some ==> after.tokens < bytes
            &&& step.0 is None ==> after.tokens + bytes <= bytes || after.tokens + bytes <= 262_144
            &&& after.last_refill == now_ns
            &&& after == (PacerState { tokens: after.tokens, last_refill: now_ns, ..pacer.state })
            &&& step.1.enabled
            &&& earned >= bytes * 1_000_000_000 ==> step.0 is None
            &&& pacer.state.tokens >= bytes ==> step.0 is None
        }),
{
    let time = now_ns - pacer.state.last_refill;
    let target = pacer.state.target_bytes_per_second as int;
    let earned = target * time;
    assert(earned >= 0) by (nonlinear_arith)
        requires
            earned == target * time,
            target >= 0,
            time >= 0,
    ;
}

/// Without a recent report nothing is held back, and pacing ends: two seconds are
/// recent.
pub proof fn lemma_old_reports_pace_nothing(pacer: ReceiverPacer, bytes: u64, now_ns: u64)
    requires
        pacer.enabled,
        pacer.state.active,
        bytes > 0,
        pacer.state.last_report_received matches Some(received) ==> now_ns > received + 2_000_000_000,
    ensures
        pacer.stepped(bytes, now_ns).0 is None,
        !pacer.stepped(bytes, now_ns).1.state.active,
        pacer.stepped(bytes, now_ns).1.state.target_bytes_per_second == 0,
        pacer.stepped(bytes, now_ns).1.state.tokens == 262_144,
{
}

/// A pacer that is off, or is not pacing, holds nothing back and takes nothing.
pub proof fn lemma_idle_pacer_holds_nothing_back(pacer: ReceiverPacer, bytes: u64, now_ns: u64)
    requires
        !pacer.enabled || !pacer.state.active || bytes == 0,
    ensures
        pacer.stepped(bytes, now_ns) == (None::<u64>, pacer),
{
}

/// The bytes that some tries let pass, one after the other.
pub open spec fn passed_by(pacer: ReceiverPacer, tries: Seq<(u64, u64)>) -> int
    decreases tries.len(),
{
    if tries.len() == 0 {
        0
    } else {
        let before = stepped_all(pacer, tries.drop_last());
        let step = before.stepped(tries.last().0, tries.last().1);
        passed_by(pacer, tries.drop_last()) + if step.0 is None {
            tries.last().0 as int
        } else {
            0
        }
    }
}

/// The pacer after some tries, each with its bytes and its time.
pub open spec fn stepped_all(pacer: ReceiverPacer, tries: Seq<(u64, u64)>) -> ReceiverPacer
    decreases tries.len(),
{
    if tries.len() == 0 {
        pacer
    } else {
        stepped_all(pacer, tries.drop_last()).stepped(tries.last().0, tries.last().1).1
    }
}

/// Pacing holds: between two reports, no more passes than the tokens at the start
/// and the target rate allow, however often and with how much is tried.
pub proof fn lemma_no_more_than_the_target_passes(pacer: ReceiverPacer, tries: Seq<(u64, u64)>)
    requires
        pacer.wf(),
        pacer.enabled,
        pacer.state.active,
        tries.len() > 0,
        pacer.state.last_report_received matches Some(received) && forall|i: int|
            0 <= i < tries.len() ==> (#[trigger] tries[i]).0 > 0 && pacer.state.last_refill
                <= tries[i].1 <= received + 2_000_000_000,
        forall|i: int, j: int| 0 <= i <= j < tries.len() ==> tries[i].1 <= tries[j].1,
    ensures
        passed_by(pacer, tries) * 1_000_000_000 <= pacer.state.tokens * 1_000_000_000
            + pacer.state.target_bytes_per_second * (tries.last().1 - pacer.state.last_refill),
{
    lemma_passed_and_left(pacer, tries);
}

proof fn lemma_passed_and_left(pacer: ReceiverPacer, tries: Seq<(u64, u64)>)
    requires
        pacer.wf(),
        pacer.enabled,
        pacer.state.active,
        pacer.state.last_report_received matches Some(received) && forall|i: int|
            0 <= i < tries.len() ==> (#[trigger] tries[i]).0 > 0 && pacer.state.last_refill
                <= tries[i].1 <= received + 2_000_000_000,
        forall|i: int, j: int| 0 <= i <= j < tries.len() ==> tries[i].1 <= tries[j].1,
    ensures
        ({
            let after = stepped_all(pacer, tries);
            let reached = if tries.len() == 0 {
                pacer.state.last_refill
            } else {
                tries.last().1
            };
            &&& after.wf()
            &&& after.enabled
            &&& after.state == (PacerState {
                tokens: after.state.tokens,
                last_refill: reached,
                ..pacer.state
            })
            &&& (passed_by(pacer, tries) + after.state.tokens) * 1_000_000_000
                <= pacer.state.tokens * 1_000_000_000 + pacer.state.target_bytes_per_second * (
            reached - pacer.state.last_refill)
        }),
    decreases tries.len(),
{
    let target = pacer.state.target_bytes_per_second as int;
    if tries.len() == 0 {
        assert(target * 0 == 0);
    } else {
        let rest = tries.drop_last();
        assert(forall|i: int| 0 <= i < rest.len() ==> rest[i] == tries[i]);
        assert(tries.last() == tries[tries.len() - 1]);
        lemma_passed_and_left(pacer, rest);
        let before = stepped_all(pacer, rest);
        let from = before.state.last_refill as int;
        let to = tries.last().1 as int;
        let start = pacer.state.last_refill as int;
        if rest.len() > 0 {
            assert(rest.last() == tries[rest.len() - 1]);
        }
        lemma_bytes_pass_for_tokens(before, tries.last().0, tries.last().1);
        assert(target * (to - from) + target * (from - start) == target * (to - start))
            by (nonlinear_arith);
    }
}

} // verus!
