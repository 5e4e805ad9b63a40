use lowertier::probe_budget::{split_cycle_budget, ProbeBudget, ProbeReservation};
use lowertier::probe_wire::{
    build_probe_train, build_probe_train_with_overhead, generate_receipt_challenge,
    probe_train_metadata, ProbeAck, ProbeData, ProbeError,
};
use lowertier::speed_probe::{
    speed_sample_ttl, ProbeReceiver, SpeedSample, MAX_SPEED_SAMPLE_TTL_NS,
};

const MS: u64 = 1_000_000;

const SECOND: u64 = 1_000_000_000;

const START: u64 = 77 * SECOND;

const RECEIPT_CHALLENGE: u128 = 0x5a5a_5a5a_5a5a_5a5a_5a5a_5a5a_5a5a_5a5a;

#[test]
fn probe_payloads_round_trip_and_reject_invalid_sizes() {
    let data = ProbeData {
        generation: 7,
        sequence: 2,
        expected_packets: 3,
        expected_bytes: 300,
        final_marker: true,
        receipt_challenge: RECEIPT_CHALLENGE,
    };
    let encoded = data.encode_with_size(100).unwrap();
    assert_eq!(encoded.len(), 100);
    assert_eq!(ProbeData::decode(&encoded).unwrap(), data);
    assert!(ProbeData::decode(&encoded[..47]).is_err());

    let ack = ProbeAck {
        generation: 7,
        received_packets: 2,
        expected_packets: 3,
        received_bytes: 200,
        expected_bytes: 300,
        duration_ns: 100_000_000,
        receipt_challenge: RECEIPT_CHALLENGE,
    };
    let encoded = ack.encode();
    assert_eq!(ProbeAck::decode(&encoded).unwrap(), ack);
    assert!(ProbeAck::decode(&encoded[..55]).is_err());
}

#[test]
fn probe_payloads_have_a_fixed_layout() {
    let data = ProbeData {
        generation: 0x0102_0304_0506_0708,
        sequence: 1,
        expected_packets: 2,
        expected_bytes: 96,
        final_marker: true,
        receipt_challenge: 0x0011_2233_4455_6677_8899_aabb_ccdd_eeff,
    };
    let encoded = data.encode_with_size(48).unwrap();
    assert_eq!(&encoded[0..8], &data.generation.to_le_bytes());
    assert_eq!(&encoded[8..12], &1u32.to_le_bytes());
    assert_eq!(&encoded[12..16], &2u32.to_le_bytes());
    assert_eq!(&encoded[16..24], &96u64.to_le_bytes());
    assert_eq!(encoded[24], 1);
    assert_eq!(&encoded[25..32], &[0u8; 7]);
    assert_eq!(&encoded[32..48], &data.receipt_challenge.to_be_bytes());
}

#[test]
fn probe_errors_are_told_apart() {
    let good = ProbeData {
        generation: 1,
        sequence: 0,
        expected_packets: 2,
        expected_bytes: 96,
        final_marker: false,
        receipt_challenge: 0,
    };
    assert_eq!(good.encode_with_size(47), Err(ProbeError::PayloadTooShort));
    assert_eq!(good.encode_with_size(97), Err(ProbeError::InvalidMetadata));
    for bad in [
        ProbeData { expected_packets: 1, ..good },
        ProbeData { expected_packets: 65_537, expected_bytes: 65_537 * 48, ..good },
        ProbeData { sequence: 2, ..good },
        ProbeData { expected_bytes: 95, ..good },
        ProbeData { final_marker: true, receipt_challenge: 5, ..good },
        ProbeData { final_marker: true, sequence: 1, ..good },
        ProbeData { receipt_challenge: 5, ..good },
    ] {
        assert_eq!(bad.encode_with_size(48), Err(ProbeError::InvalidMetadata));
    }
    let encoded = good.encode_with_size(48).unwrap();
    let mut marker = encoded.clone();
    marker[24] = 2;
    assert_eq!(ProbeData::decode(&marker), Err(ProbeError::InvalidMetadata));
    let mut padding = encoded.clone();
    padding[31] = 1;
    assert_eq!(ProbeData::decode(&padding), Err(ProbeError::InvalidMetadata));

    let ack = ProbeAck {
        generation: 1,
        received_packets: 2,
        expected_packets: 2,
        received_bytes: 96,
        expected_bytes: 96,
        duration_ns: 3,
        receipt_challenge: 9,
    };
    assert_eq!(ProbeAck::decode(&ack.encode()[..10]), Err(ProbeError::InvalidAckSize));
    for bad in [
        ProbeAck { received_packets: 3, ..ack },
        ProbeAck { received_bytes: 97, ..ack },
        ProbeAck { receipt_challenge: 0, ..ack },
        ProbeAck { expected_packets: 1, received_packets: 1, ..ack },
    ] {
        assert_eq!(ProbeAck::decode(&bad.encode()), Err(ProbeError::InvalidMetadata));
    }
}

#[test]
fn receipt_challenges_are_random_and_not_zero() {
    let a = generate_receipt_challenge().unwrap();
    let b = generate_receipt_challenge().unwrap();
    assert_ne!(a, 0);
    assert_ne!(a, b);
}

#[test]
fn train_uses_complete_packets_and_marks_only_the_last_packet() {
    let train = build_probe_train(9, 350, 100, RECEIPT_CHALLENGE).unwrap();
    assert_eq!(train.len(), 3);
    assert!(train.iter().all(|packet| packet.len() == 100));

    for (index, packet) in train.iter().enumerate() {
        let data = ProbeData::decode(packet).unwrap();
        assert_eq!(data.sequence, index as u32);
        assert_eq!(data.expected_packets, 3);
        assert_eq!(data.expected_bytes, 300);
        assert_eq!(data.final_marker, index == 2);
        assert_eq!(
            data.receipt_challenge,
            if index == 2 { RECEIPT_CHALLENGE } else { 0 }
        );
    }

    assert!(build_probe_train(9, 199, 100, RECEIPT_CHALLENGE)
        .unwrap()
        .is_empty());
}

#[test]
fn trains_leave_room_for_what_packets_cost_on_the_wire() {
    let train = build_probe_train_with_overhead(9, 1_000, 200, 40, RECEIPT_CHALLENGE).unwrap();
    assert_eq!(train.len(), 5);
    assert!(train.iter().all(|packet| packet.len() == 160));
    assert_eq!(probe_train_metadata(1_000, 200, 40), Ok((160, 5, 1_000)));
    assert_eq!(probe_train_metadata(399, 200, 40), Ok((160, 0, 0)));
    assert_eq!(
        probe_train_metadata(1_000, 80, 40),
        Err(ProbeError::PayloadTooShort)
    );
    assert_eq!(
        build_probe_train_with_overhead(9, 1_000, 20, 40, RECEIPT_CHALLENGE),
        Err(ProbeError::PayloadTooShort)
    );
    assert_eq!(
        build_probe_train(9, 1_000, 100, 0),
        Err(ProbeError::InvalidMetadata)
    );
    assert_eq!(
        probe_train_metadata(u64::MAX, 48, 0),
        Ok((48, 65_536, 65_536 * 48))
    );
}

#[test]
fn receiver_waits_for_reordered_packets_and_ignores_duplicates() {
    let start = START;
    let train = build_probe_train(11, 300, 100, RECEIPT_CHALLENGE).unwrap();
    let mut receiver = ProbeReceiver::default();

    assert!(receiver.receive(&train[2], start).unwrap().is_none());
    assert!(receiver
        .receive(&train[0], start + 20 * MS)
        .unwrap()
        .is_none());
    assert!(receiver
        .receive(&train[0], start + 40 * MS)
        .unwrap()
        .is_none());
    let ack = receiver
        .receive(&train[1], start + 100 * MS)
        .unwrap()
        .unwrap();

    assert_eq!(ack.received_packets, 3);
    assert_eq!(ack.received_bytes, 300);
    assert_eq!(ack.duration_ns, 100_000_000);
    assert_eq!(ack.receipt_challenge, RECEIPT_CHALLENGE);
}

#[test]
fn receiver_times_out_after_marker_and_expires_missing_marker() {
    let start = START;
    let train = build_probe_train(12, 300, 100, RECEIPT_CHALLENGE).unwrap();
    let mut receiver = ProbeReceiver::default();

    assert!(receiver.receive(&train[2], start).unwrap().is_none());
    assert!(receiver
        .receive(&train[0], start + 10 * MS)
        .unwrap()
        .is_none());
    assert!(receiver.poll(start + 999 * MS).is_none());
    let ack = receiver.poll(start + SECOND).unwrap();
    assert_eq!(ack.received_packets, 2);

    let next = build_probe_train(13, 300, 100, RECEIPT_CHALLENGE).unwrap();
    assert!(receiver
        .receive(&next[0], start + 2 * SECOND)
        .unwrap()
        .is_none());
    assert!(receiver.poll(start + 3_999 * MS).is_none());
    assert!(receiver.has_active_generation());
    assert!(receiver.poll(start + 4 * SECOND).is_none());
    assert!(!receiver.has_active_generation());
}

#[test]
fn newer_generation_waits_for_the_active_generation_timeout() {
    let start = START;
    let old = build_probe_train(20, 300, 100, RECEIPT_CHALLENGE).unwrap();
    let new = build_probe_train(21, 300, 100, RECEIPT_CHALLENGE).unwrap();
    let mut receiver = ProbeReceiver::default();

    receiver.receive(&old[0], start).unwrap();
    receiver.receive(&new[0], start + MS).unwrap();
    receiver.receive(&old[1], start + 2 * MS).unwrap();

    assert_eq!(receiver.active_generation(), Some(20));
    receiver.receive(&new[0], start + 2 * SECOND).unwrap();
    assert_eq!(receiver.active_generation(), Some(21));
}

#[test]
fn receiver_uses_one_bit_for_each_expected_packet() {
    let start = START;
    let packet = ProbeData {
        generation: 30,
        sequence: 0,
        expected_packets: 65_536,
        expected_bytes: 65_536 * 48,
        final_marker: false,
        receipt_challenge: 0,
    }
    .encode_with_size(48)
    .unwrap();
    let mut receiver = ProbeReceiver::default();

    receiver.receive(&packet, start).unwrap();

    assert_eq!(receiver.active.as_ref().unwrap().received.len(), 1024);
}

#[test]
fn a_train_cannot_change_or_outgrow_what_it_announced() {
    let start = START;
    let mut receiver = ProbeReceiver::default();
    let train = build_probe_train(40, 300, 100, RECEIPT_CHALLENGE).unwrap();
    let other = build_probe_train(40, 400, 100, RECEIPT_CHALLENGE).unwrap();
    receiver.receive(&train[0], start).unwrap();
    assert_eq!(
        receiver.receive(&other[1], start),
        Err(ProbeError::MetadataChanged)
    );
    assert_eq!(
        receiver.receive_wire(&train[1], 201, start),
        Err(ProbeError::InvalidMetadata)
    );
    // The packet was seen, so that it does not count later either.
    assert_eq!(receiver.receive(&train[1], start), Ok(None));
    assert_eq!(
        receiver.receive_wire(&train[2], usize::MAX, start),
        Err(ProbeError::ArithmeticOverflow)
    );
    let older = build_probe_train(39, 300, 100, RECEIPT_CHALLENGE).unwrap();
    assert_eq!(receiver.receive(&older[0], start + 9 * SECOND), Ok(None));
    assert_eq!(receiver.active_generation(), Some(40));
}

#[test]
fn sample_calculates_delivery_loss_and_freshness() {
    let measured_at = START;
    let ack = ProbeAck {
        generation: 31,
        received_packets: 2,
        expected_packets: 3,
        received_bytes: 200,
        expected_bytes: 300,
        duration_ns: 100_000_000,
        receipt_challenge: RECEIPT_CHALLENGE,
    };
    let sample = SpeedSample::from_ack(ack, 200 * MS, measured_at, 90 * SECOND);

    assert_eq!(sample.delivery_bps, 8_000);
    assert_eq!(sample.loss_ppm, 333_333);
    assert_eq!(sample.generation, 31);
    assert!(sample.is_fresh(measured_at + 89_999 * MS));
    assert!(!sample.is_fresh(measured_at + 90 * SECOND));

    let one_packet = SpeedSample::from_ack(
        ProbeAck {
            received_packets: 1,
            duration_ns: 1,
            ..ack
        },
        1,
        measured_at,
        90 * SECOND,
    );
    assert_eq!(one_packet.delivery_bps, 0);
}

#[test]
fn samples_saturate_and_have_no_negative_age() {
    let ack = ProbeAck {
        generation: 1,
        received_packets: 2,
        expected_packets: 2,
        received_bytes: u64::MAX,
        expected_bytes: u64::MAX,
        duration_ns: 1,
        receipt_challenge: 1,
    };
    let sample = SpeedSample::from_ack(ack, 0, START, SECOND);
    assert_eq!(sample.delivery_bps, u64::MAX);
    assert_eq!(sample.loss_ppm, 0);
    assert_eq!(sample.age(START - 1), 0);
    assert!(!sample.is_fresh(START - 1));
    assert_eq!(sample.age(START + 5), 5);
}

#[test]
fn sample_ttl_is_three_intervals_and_never_exceeds_protocol_bound() {
    assert_eq!(speed_sample_ttl(30 * SECOND), 90 * SECOND);
    assert_eq!(speed_sample_ttl(300 * SECOND), MAX_SPEED_SAMPLE_TTL_NS);
    assert_eq!(speed_sample_ttl(301 * SECOND), MAX_SPEED_SAMPLE_TTL_NS);
    assert_eq!(speed_sample_ttl(u64::MAX), MAX_SPEED_SAMPLE_TTL_NS);
}

#[test]
fn budget_refills_to_one_interval_and_splits_equal_shares() {
    let start = START;
    let mut budget = ProbeBudget::new(8_000, 2 * SECOND, start).unwrap();
    assert_eq!(budget.capacity_bytes(), 2_000);
    assert_eq!(budget.take_cycle_snapshot(start), 2_000);
    assert_eq!(budget.take_cycle_snapshot(start), 0);
    assert_eq!(budget.take_cycle_snapshot(start + SECOND), 1_000);
    assert_eq!(budget.take_cycle_snapshot(start + 3 * SECOND), 2_000);

    let allocation = split_cycle_budget(2_000, 3, 300);
    assert_eq!(allocation.shares, vec![666, 666, 666]);
    assert_eq!(allocation.unused_bytes, 2);

    let skipped = split_cycle_budget(1_000, 2, 200);
    assert_eq!(skipped.shares, vec![500, 500]);
    assert_eq!(skipped.unused_bytes, 0);

    let skipped = split_cycle_budget(500, 2, 300);
    assert!(skipped.shares.is_empty());
    assert_eq!(skipped.unused_bytes, 500);
}

#[test]
fn budget_keeps_fractions_of_a_byte() {
    assert!(matches!(
        ProbeBudget::new(8, 0, START),
        Err(ProbeError::InvalidInterval)
    ));
    assert!(matches!(
        ProbeBudget::new(u64::MAX, u64::MAX, START),
        Err(ProbeError::ArithmeticOverflow)
    ));
    let mut budget = ProbeBudget::new(12, 10 * SECOND, START).unwrap();
    assert_eq!(budget.take_cycle_snapshot(START), 15);
    // A byte and a half each second: the halves add up.
    assert_eq!(budget.take_cycle_snapshot(START + SECOND), 1);
    assert_eq!(budget.take_cycle_snapshot(START + 2 * SECOND), 2);
    assert_eq!(budget.take_cycle_snapshot(START), 0);
    budget.return_unused(100);
    assert_eq!(budget.available_bytes(), 15);
}

#[test]
fn reservation_stops_after_one_second_and_returns_unused_bytes() {
    let start = START;
    let mut reservation = ProbeReservation::new(1_000, RECEIPT_CHALLENGE, start);

    assert!(reservation.reserve_send(300, start + 999 * MS));
    reservation.commit_send(start + 999 * MS);
    assert!(!reservation.reserve_send(300, start + SECOND));
    assert_eq!(reservation.sent_bytes(), 300);
    assert_eq!(reservation.unused_bytes(), 700);
    assert_eq!(reservation.send_duration(), 0);
    let valid_ack = ProbeAck {
        generation: 1,
        received_packets: 1,
        expected_packets: 1,
        received_bytes: 300,
        expected_bytes: 300,
        duration_ns: 1,
        receipt_challenge: RECEIPT_CHALLENGE,
    };
    assert!(!reservation.matches_ack(&valid_ack));
    reservation.mark_challenge_sent();
    assert!(reservation.matches_ack(&valid_ack));
    assert!(!reservation.matches_ack(&ProbeAck {
        generation: 1,
        received_packets: 2,
        expected_packets: 2,
        received_bytes: 600,
        expected_bytes: 600,
        duration_ns: 1,
        receipt_challenge: RECEIPT_CHALLENGE,
    }));

    assert!(!reservation.matches_ack(&ProbeAck {
        generation: 1,
        received_packets: 1,
        expected_packets: 1,
        received_bytes: 300,
        expected_bytes: 300,
        duration_ns: 1,
        receipt_challenge: 0x6b6b_6b6b_6b6b_6b6b_6b6b_6b6b_6b6b_6b6b,
    }));

    let mut budget = ProbeBudget::new(8_000, SECOND, start).unwrap();
    assert_eq!(budget.take_cycle_snapshot(start), 1_000);
    budget.return_unused(reservation.unused_bytes());
    assert_eq!(budget.available_bytes(), 700);
}

#[test]
fn reservation_sends_one_packet_at_a_time() {
    let mut reservation = ProbeReservation::new(100, 1, START);
    assert!(!reservation.reserve_send(101, START));
    assert!(reservation.reserve_send(60, START));
    assert!(!reservation.reserve_send(10, START));
    assert_eq!(reservation.unused_bytes(), 40);
    reservation.cancel_send();
    assert_eq!(reservation.unused_bytes(), 100);
    assert!(reservation.reserve_send(100, START));
    reservation.commit_send(START);
    assert_eq!(reservation.unused_bytes(), 0);
    assert!(!reservation.reserve_send(1, START));
}

#[test]
fn delayed_ack_does_not_reduce_the_measured_send_rate() {
    let start = START;
    let mut reservation = ProbeReservation::new(1_000, RECEIPT_CHALLENGE, start);
    assert!(reservation.reserve_send(100, start + 10 * MS));
    reservation.commit_send(start + 10 * MS);
    assert!(reservation.reserve_send(100, start + 20 * MS));
    reservation.commit_send(start + 20 * MS);
    reservation.mark_challenge_sent();
    let ack = ProbeAck {
        generation: 4,
        received_packets: 2,
        expected_packets: 2,
        received_bytes: 200,
        expected_bytes: 200,
        duration_ns: 5_000_000,
        receipt_challenge: RECEIPT_CHALLENGE,
    };

    let sample =
        SpeedSample::from_ack(ack, reservation.send_duration(), start + 2 * SECOND, 30 * SECOND);

    assert_eq!(sample.delivery_bps, 160_000);
}
