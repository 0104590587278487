use tiny64::clock::low_ten_bits;
use tiny64::clock::timestamp_from;
use tiny64::clock::wait_step;
use tiny64::ClockError;

#[test]
fn timestamp_from_whole_milliseconds() {
    assert_eq!(timestamp_from(Some(1_700_000_000_123)), Ok(1_700_000_000_123));
    assert_eq!(timestamp_from(Some(0)), Ok(0));
}

#[test]
fn timestamp_from_cuts_to_64_bits() {
    assert_eq!(timestamp_from(Some((1u128 << 64) + 7)), Ok(7));
    assert_eq!(timestamp_from(Some(u64::MAX as u128)), Ok(u64::MAX));
}

#[test]
fn timestamp_from_before_epoch_is_an_error() {
    assert_eq!(timestamp_from(None), Err(ClockError::BeforeEpoch));
}

#[test]
fn low_ten_bits_masks_the_hash() {
    assert_eq!(low_ten_bits(0), 0);
    assert_eq!(low_ten_bits(0xFFFF), 1023);
    assert_eq!(low_ten_bits(0x1234_5678_9ABC_DEF0), 0x2F0);
    assert_eq!(low_ten_bits(1024), 0);
    assert_eq!(low_ten_bits(u64::MAX), 1023);
}

#[test]
fn wait_step_ends_when_clock_moves() {
    assert_eq!(wait_step(10, 11, 0), Some(Ok(11)));
    assert_eq!(wait_step(10, 9, 5), Some(Ok(9)));
    assert_eq!(wait_step(10, 11, u64::MAX), Some(Ok(11)));
}

#[test]
fn wait_step_goes_on_while_clock_stands() {
    assert_eq!(wait_step(10, 10, 0), None);
    assert_eq!(wait_step(10, 10, u64::MAX - 1), None);
}

#[test]
fn wait_step_gives_up_after_all_readings() {
    assert_eq!(wait_step(10, 10, u64::MAX), Some(Err(ClockError::Stalled)));
}
