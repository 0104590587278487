use std::collections::HashSet;
use tiny64::base64_encode_u64;
use tiny64::clock::current_time_ms;
use tiny64::clock::generate_random_10bit;
use tiny64::clock::wait_next_millisecond;
use tiny64::generate_tiny64;
use tiny64::pack_id;
use tiny64::unpack_id;
use tiny64::Generator;

#[test]
fn new_generator_starts_at_zero() {
    let g = Generator::new();
    assert_eq!(g.last_timestamp_ms, 0);
    assert_eq!(g.sequence, 0);
}

#[test]
fn advance_resets_in_new_millisecond() {
    let mut g = Generator::new();
    assert_eq!(g.advance(7), Some(0));
    assert_eq!(g.advance(7), Some(1));
    assert_eq!(g.advance(7), Some(2));
    assert_eq!(g.advance(9), Some(0));
    assert_eq!(g.last_timestamp_ms, 9);
    // A clock set back is a new millisecond too.
    assert_eq!(g.advance(3), Some(0));
    assert_eq!(g.last_timestamp_ms, 3);
}

#[test]
fn sequence_boundary_within_one_millisecond() {
    let mut g = Generator::new();
    for call in 1..4096u16 {
        assert_eq!(g.advance(0), Some(call));
    }
    // The 4096th call in millisecond 0 finds the sequence used up.
    assert_eq!(g.advance(0), None);
    assert_eq!(g.last_timestamp_ms, 0);
    assert_eq!(g.sequence, 4095);
    assert_eq!(g.advance(0), None);
    // Once the clock moves on, numbering starts again.
    assert_eq!(g.advance(1), Some(0));
}

#[test]
fn ids_increase_across_overflow() {
    let mut g = Generator::new();
    let mut previous = pack_id(5, 0, 1023);
    assert_eq!(g.advance(5), Some(0));
    for _ in 1..4096 {
        let s = g.advance(5).unwrap();
        let id = pack_id(5, s, 0);
        assert!(id > previous);
        assert!(base64_encode_u64(id) > base64_encode_u64(previous));
        previous = id;
    }
    assert_eq!(g.advance(5), None);
    let s = g.advance(6).unwrap();
    let id = pack_id(6, s, 0);
    assert!(id > previous);
}

#[test]
fn generated_ids_sort_in_order_of_issue() {
    let mut g = Generator::new();
    let mut ids = Vec::new();
    for _ in 0..100 {
        ids.push(generate_tiny64(&mut g).unwrap());
    }
    let mut sorted = ids.clone();
    sorted.sort();
    assert_eq!(sorted, ids);
}

#[test]
fn ten_thousand_ids_are_distinct() {
    let mut g = Generator::new();
    let mut seen = HashSet::new();
    for _ in 0..10_000 {
        assert!(seen.insert(generate_tiny64(&mut g).unwrap()));
    }
    assert_eq!(seen.len(), 10_000);
}

#[test]
fn next_id_carries_state_fields() {
    let mut g = Generator::new();
    let id = g.next_id().unwrap();
    let (t, s, r) = unpack_id(id);
    assert_eq!(t, g.last_timestamp_ms & 0x3FF_FFFF_FFFF);
    assert_eq!(s, g.sequence);
    assert!(r < 1024);
    assert!(t > 1_500_000_000_000);
}

#[test]
fn pack_gives_documented_layout() {
    assert_eq!(pack_id(1700000000000, 4095, 1023), 0x62f3f95a003fffff);
    assert_eq!(pack_id(1, 5, 7), 0x401407);
    assert_eq!(pack_id(0, 0, 0), 0);
    // Fields are cut to their widths.
    assert_eq!(pack_id(1 << 42, 4096, 1024), 0);
}

#[test]
fn unpack_recovers_packed_fields() {
    for &(t, s, r) in &[
        (0u64, 0u16, 0u16),
        (1, 2, 3),
        (1700000000000, 4095, 1023),
        ((1 << 42) - 1, 4095, 1023),
        (123456789, 2048, 512),
    ] {
        assert_eq!(unpack_id(pack_id(t, s, r)), (t, s, r));
    }
}

#[test]
fn clock_reads_after_epoch() {
    let t = current_time_ms().unwrap();
    assert!(t > 1_500_000_000_000);
    assert!(t < 1 << 42);
}

#[test]
fn wait_moves_past_current_millisecond() {
    let now = current_time_ms().unwrap();
    let next = wait_next_millisecond(now).unwrap();
    assert_ne!(next, now);
    assert!(next > now);
}

#[test]
fn random_field_has_ten_bits() {
    for _ in 0..200 {
        assert!(generate_random_10bit() < 1024);
    }
}
