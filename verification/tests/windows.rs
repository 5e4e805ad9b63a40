use std::collections::HashSet;

use lowertier::datagram_replay::ReplayWindow256;
use lowertier::replay_window::{ReplayWindow, REPLAY_WINDOW_BITS, REQUIRED_REPLAY_WINDOW_BITS};

fn reference_accept(
    accepted: &mut HashSet<u64>,
    max_sequence: &mut Option<u64>,
    sequence: u64,
) -> bool {
    if let Some(current_max) = *max_sequence {
        if sequence <= current_max
            && (current_max - sequence >= REPLAY_WINDOW_BITS as u64
                || accepted.contains(&sequence))
        {
            return false;
        }
    }

    accepted.insert(sequence);
    if max_sequence.is_none_or(|current_max| sequence > current_max) {
        *max_sequence = Some(sequence);
        accepted.retain(|accepted_sequence| {
            sequence - *accepted_sequence < REPLAY_WINDOW_BITS as u64
        });
    }
    true
}

#[test]
fn circular_window_matches_reference_across_wraps_and_jumps() {
    let mut window = ReplayWindow::default();
    let mut accepted = HashSet::new();
    let mut reference_max = None;
    let mut seed = 0x9e37_79b9_7f4a_7c15_u64;

    for iteration in 0..20_000_u64 {
        seed = seed
            .wrapping_mul(6_364_136_223_846_793_005)
            .wrapping_add(1_442_695_040_888_963_407);
        let current_max = reference_max.unwrap_or(0);
        let sequence = match iteration % 5 {
            0 => current_max + 1 + seed % 7,
            1 => current_max.saturating_sub(seed % 1_200),
            2 => current_max + 1 + seed % 1_300,
            3 => current_max.saturating_sub(seed % 128),
            _ => current_max,
        };

        assert_eq!(
            window.accept(sequence),
            reference_accept(&mut accepted, &mut reference_max, sequence),
            "mismatch for sequence {sequence} at iteration {iteration}"
        );
    }
}

#[test]
fn window_accepts_the_full_bounded_crypto_and_network_reorder() {
    let highest = (REQUIRED_REPLAY_WINDOW_BITS - 1) as u64;
    let mut window = ReplayWindow::default();

    assert!(window.accept(highest));
    assert!(window.accept(0));
    assert!(!window.accept(0));
}

#[test]
fn window_rejects_the_exact_history_boundary_and_recycles_its_bit() {
    let mut window = ReplayWindow::default();

    assert!(window.accept(0));
    assert!(window.accept(REPLAY_WINDOW_BITS as u64));
    assert!(!window.accept(0));
    assert!(!window.accept(REPLAY_WINDOW_BITS as u64));
    assert!(window.accept(1));
}

#[test]
fn window_handles_the_u64_sequence_limit_without_overflow() {
    let mut window = ReplayWindow::default();

    assert!(window.accept(u64::MAX - 2));
    assert!(window.accept(u64::MAX));
    assert!(window.accept(u64::MAX - 1));
    assert!(!window.accept(u64::MAX));
    assert!(!window.accept(u64::MAX - 1));
}

#[test]
fn an_accepted_number_stays_refused() {
    let mut window = ReplayWindow::default();
    assert!(window.accept(40));
    for sequence in [41, 1_000, 900, 1_050, 3] {
        window.accept(sequence);
        assert!(!window.can_accept(40));
    }
    window.clear();
    assert!(window.can_accept(40));
}

#[test]
fn replay_window_shift_preserves_bits() {
    let mut w = ReplayWindow256::default();
    for i in 0..10u64 {
        assert!(w.accept(i), "seq {i} should be accepted");
    }
    assert_eq!(w.max_seq, 9);

    for i in 0..10u64 {
        assert!(!w.accept(i), "seq {i} should be rejected as replay");
    }

    assert!(w.accept(10));
}

#[test]
fn replay_window_out_of_order_within_window() {
    let mut w = ReplayWindow256::default();
    for i in (0..=20u64).step_by(2) {
        assert!(w.accept(i), "seq {i} should be accepted");
    }
    for i in (1..=19u64).step_by(2) {
        assert!(w.accept(i), "seq {i} should be accepted (out of order)");
    }
    for i in 0..=20u64 {
        assert!(!w.accept(i), "seq {i} should be rejected as replay");
    }
}

#[test]
fn a_refused_number_changes_nothing() {
    let mut wide = ReplayWindow::default();
    let mut narrow = ReplayWindow256::default();
    for sequence in [3, 9, 5] {
        assert!(wide.accept(sequence));
        assert!(narrow.accept(sequence));
    }
    let before = (wide, narrow);
    assert!(!wide.accept(5));
    assert!(!narrow.accept(5));
    assert_eq!(format!("{:?}", (wide, narrow)), format!("{before:?}"));
}
