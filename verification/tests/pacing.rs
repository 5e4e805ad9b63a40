use lowertier::packet::{
    Packet, CONTROL_CRITICAL_L2, PACKET_DATA, PACKET_PING,
};
use lowertier::receiver_pacing::{
    flag_word_is_on, paced_batch_bytes, paced_packet_bytes, receiver_pacing_enabled_from_env,
    ReceiverPacer, ReceiverPressureReport, ReportError, MAX_PACING_SLEEP_NS,
    MIN_TARGET_BYTES_PER_SECOND, TOKEN_BURST_BYTES,
};

const MS: u64 = 1_000_000;

fn report(
    sample_micros: u64,
    delivered_bytes: u64,
    occupancy_packets: u32,
    stall_ns: u64,
) -> ReceiverPressureReport {
    ReceiverPressureReport {
        sample_micros,
        delivered_bytes,
        occupancy_packets,
        capacity_packets: 192,
        stall_ns,
    }
}

#[test]
fn receiver_pacing_requires_explicit_enable_and_disable_wins() {
    assert!(!receiver_pacing_enabled_from_env(None, None));
    assert!(!receiver_pacing_enabled_from_env(Some("0"), None));
    assert!(receiver_pacing_enabled_from_env(Some("1"), None));
    assert!(receiver_pacing_enabled_from_env(Some("TRUE"), None));
    assert!(!receiver_pacing_enabled_from_env(Some("yes"), Some("on")));
}

#[test]
fn switch_words_are_trimmed_and_ignore_case() {
    assert!(receiver_pacing_enabled_from_env(Some("  On\n"), Some("off")));
    assert!(receiver_pacing_enabled_from_env(Some("\tyEs "), Some("")));
    assert!(!flag_word_is_on(" on"));
    assert!(flag_word_is_on("oN"));
    assert!(!flag_word_is_on("11"));
    assert!(!flag_word_is_on(""));
    assert!(!flag_word_is_on("truex"));
}

#[test]
fn receiver_pressure_report_round_trips_and_rejects_invalid_shape() {
    let report = report(100_000, 2_000_000, 48, 10_000_000);
    assert_eq!(ReceiverPressureReport::decode(&report.encode()), Ok(report));
    let mut invalid = report.encode();
    invalid[28..32].fill(0);
    assert!(ReceiverPressureReport::decode(&invalid).is_err());
}

#[test]
fn report_errors_are_told_apart() {
    let encoded = report(1, 2, 3, 4).encode();
    assert_eq!(encoded.len(), 40);
    assert_eq!(encoded[0], 1);
    assert_eq!(&encoded[8..16], &1u64.to_be_bytes());
    assert_eq!(&encoded[28..32], &192u32.to_be_bytes());
    assert_eq!(
        ReceiverPressureReport::decode(&encoded[..39]),
        Err(ReportError::InvalidLength)
    );
    let mut version = encoded.clone();
    version[0] = 2;
    assert_eq!(
        ReceiverPressureReport::decode(&version),
        Err(ReportError::UnsupportedVersion)
    );
    let mut padding = encoded.clone();
    padding[7] = 1;
    assert_eq!(
        ReceiverPressureReport::decode(&padding),
        Err(ReportError::UnsupportedVersion)
    );
    let full = ReceiverPressureReport {
        occupancy_packets: 768,
        ..report(1, 2, 3, 4)
    };
    assert_eq!(ReceiverPressureReport::decode(&full.encode()), Ok(full));
    let over = ReceiverPressureReport {
        occupancy_packets: 769,
        ..full
    };
    assert_eq!(
        ReceiverPressureReport::decode(&over.encode()),
        Err(ReportError::InvalidQueueShape)
    );
}

#[test]
fn pacer_activates_from_receiver_service_and_clears_after_pressure() {
    let mut pacer = ReceiverPacer::new(true, 0);
    let started = 5_000 * MS;
    pacer.update_report(report(100_000, 0, 0, 0), started);
    pacer.update_report(report(200_000, 1_000_000, 64, 2_000_000), started + 100 * MS);
    let update =
        pacer.update_report(report(300_000, 2_000_000, 64, 4_000_000), started + 200 * MS);
    assert!(update.active);
    assert!(update.target_bytes_per_second > 0);
    assert!(pacer.state.active);
    assert_eq!(pacer.state.smoothed_service_bytes_per_second, 10_000_000);
    assert_eq!(pacer.state.target_bytes_per_second, 9_500_000);

    for index in 4..=6 {
        pacer.update_report(
            report(index * 100_000, index * 1_000_000, 0, 4_000_000),
            started + index * 100 * MS,
        );
    }
    assert!(!pacer.state.active);
}

#[test]
fn zero_delivery_under_pressure_reduces_an_active_target() {
    let mut pacer = ReceiverPacer::new(true, 0);
    let started = 5_000 * MS;
    pacer.update_report(report(100_000, 0, 0, 0), started);
    pacer.update_report(report(200_000, 1_000_000, 64, 2_000_000), started + 100 * MS);
    pacer.update_report(report(300_000, 2_000_000, 64, 4_000_000), started + 200 * MS);
    assert_eq!(pacer.state.target_bytes_per_second, 9_500_000);

    let update =
        pacer.update_report(report(400_000, 2_000_000, 64, 6_000_000), started + 300 * MS);
    assert!(update.active);
    assert_eq!(update.target_bytes_per_second, 8_550_000);
}

#[test]
fn only_noncritical_data_contributes_to_pacing() {
    let mut data = Packet::new_with_payload(vec![1_u8; 100]);
    data.fill_peer_manager_hdr(1, 2, PACKET_DATA);
    assert_eq!(paced_packet_bytes(&data), 100);

    let mut control = Packet::new_with_payload(vec![2_u8; 20]);
    control.fill_peer_manager_hdr(1, 2, PACKET_DATA);
    control
        .header
        .as_mut()
        .unwrap()
        .set_controls(CONTROL_CRITICAL_L2, true);
    assert_eq!(paced_packet_bytes(&control), 0);

    let mut ping = Packet::new_with_payload(vec![3_u8; 20]);
    ping.fill_peer_manager_hdr(1, 2, PACKET_PING);
    assert_eq!(paced_packet_bytes(&ping), 0);

    let batch = vec![data, control, ping];
    assert_eq!(paced_batch_bytes(&batch), 100);
}

#[test]
fn a_disabled_pacer_never_waits() {
    let mut pacer = ReceiverPacer::new(false, 0);
    let update = pacer.update_report(report(100_000, 0, 192, 9_000_000), MS);
    assert!(!update.active && !update.pressured);
    assert_eq!(pacer.pace_step(u64::MAX, 2 * MS), None);
}

#[test]
fn one_report_of_pressure_does_not_start_pacing() {
    let mut pacer = ReceiverPacer::new(true, 0);
    pacer.update_report(report(100_000, 0, 0, 0), 0);
    let update = pacer.update_report(report(200_000, 1_000_000, 48, 0), 100 * MS);
    assert!(update.pressured);
    assert!(!update.active);
}

#[test]
fn reports_that_go_back_change_nothing() {
    let mut pacer = ReceiverPacer::new(true, 0);
    pacer.update_report(report(100_000, 500, 0, 7), 0);
    let before = pacer.state;
    for stale in [
        report(100_000, 600, 192, 8),
        report(100_001, 499, 192, 8),
        report(100_001, 500, 192, 6),
    ] {
        let update = pacer.update_report(stale, 50 * MS);
        assert!(!update.pressured && !update.active_changed);
        assert_eq!(pacer.state, before);
    }
}

#[test]
fn an_active_pacer_spends_tokens_and_gives_up_on_silence() {
    let mut pacer = ReceiverPacer::new(true, 0);
    pacer.update_report(report(100_000, 0, 0, 0), 0);
    pacer.update_report(report(200_000, 1_000_000, 64, 2_000_000), 100 * MS);
    pacer.update_report(report(300_000, 2_000_000, 64, 4_000_000), 200 * MS);
    assert_eq!(pacer.state.tokens, 0);
    // Nothing has been refilled yet: a thousand bytes take about a tenth of a
    // millisecond, a large packet takes longer than the bound.
    assert_eq!(pacer.pace_step(1_000, 200 * MS), Some(105_264));
    assert_eq!(pacer.pace_step(10_000_000, 200 * MS), Some(MAX_PACING_SLEEP_NS));
    assert_eq!(pacer.pace_step(9_500, 201 * MS), None);
    assert_eq!(pacer.state.tokens, 0);
    // After two silent seconds pacing ends.
    assert_eq!(pacer.pace_step(1_000_000, 2_201 * MS), None);
    assert!(!pacer.state.active);
    assert_eq!(pacer.state.tokens, TOKEN_BURST_BYTES);
}

#[test]
fn a_slow_receiver_still_gets_the_lowest_target() {
    let mut pacer = ReceiverPacer::new(true, 0);
    pacer.update_report(report(100_000, 0, 0, 0), 0);
    pacer.update_report(report(200_000, 10, 64, 0), 100 * MS);
    let update = pacer.update_report(report(300_000, 20, 64, 0), 200 * MS);
    assert!(update.active && update.active_changed);
    assert_eq!(update.service_bytes_per_second, 100);
    assert_eq!(update.target_bytes_per_second, MIN_TARGET_BYTES_PER_SECOND);
}
