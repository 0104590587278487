//! Wall-clock time and fresh randomness, as the generator reads them.

use std::collections::hash_map::DefaultHasher;
use std::collections::hash_map::RandomState;
use std::hash::BuildHasher;
use std::hash::Hasher;
use std::time::Duration;
use std::time::SystemTime;
use std::time::SystemTimeError;
use std::time::UNIX_EPOCH;
use vstd::prelude::*;

verus! {

#[verifier::external_type_specification]
#[verifier::external_body]
pub struct ExSystemTime(SystemTime);

#[verifier::external_type_specification]
#[verifier::external_body]
pub struct ExSystemTimeError(SystemTimeError);

/// Relies on SystemTime::now: some reading of the system clock.
pub assume_specification[ SystemTime::now ]() -> SystemTime;

/// Relies on SystemTime::duration_since: the time elapsed since `earlier`, or
/// an error when `earlier` is later.
pub assume_specification[ SystemTime::duration_since ](
    t: &SystemTime,
    earlier: SystemTime,
) -> Result<Duration, SystemTimeError>;

/// Relies on Duration::as_millis: the whole milliseconds of the duration.
pub assume_specification[ Duration::as_millis ](d: &Duration) -> u128;

/// Relies on Duration::subsec_nanos: the fractional second in nanoseconds,
/// always below one billion.
pub assume_specification[ Duration::subsec_nanos ](d: &Duration) -> (r: u32)
    ensures
        r < 1_000_000_000,
;

/// Relies on std::hint::spin_loop: a hint to the processor inside a busy wait.
pub assume_specification[ core::hint::spin_loop ]();

/// Relies on std::time::UNIX_EPOCH: the system time of the Unix epoch.
#[verifier::external_body]
fn unix_epoch() -> SystemTime {
    UNIX_EPOCH
}

/// Relies on RandomState::new and BuildHasher::build_hasher: a hasher keyed
/// with fresh random keys. Nothing is known of what it will hash to.
#[verifier::external_body]
fn random_hasher() -> DefaultHasher {
    RandomState::new().build_hasher()
}

/// Why the clock could not give a timestamp.
#[derive(Clone, Copy, Debug, PartialEq, Eq, Structural)]
pub enum ClockError {
    /// The system clock reads a time before the Unix epoch.
    BeforeEpoch,
    /// The clock showed the same millisecond for 2^64 readings in a row.
    Stalled,
}

/// Time since the Unix epoch, or `None` when the clock reads a time before it.
fn since_epoch() -> Option<Duration> {
    match SystemTime::now().duration_since(unix_epoch()) {
        Ok(d) => Some(d),
        Err(_) => None,
    }
}

/// The timestamp for a clock reading of `ms` whole milliseconds since the
/// Unix epoch, cut to 64 bits; `None` stands for a reading before the epoch,
/// which gives no timestamp at all.
pub fn timestamp_from(ms: Option<u128>) -> (r: Result<u64, ClockError>)
    ensures
        r == (match ms {
            Some(m) => Ok::<u64, ClockError>(m as u64),
            None => Err(ClockError::BeforeEpoch),
        }),
{
    match ms {
        Some(m) => Ok(m as u64),
        None => Err(ClockError::BeforeEpoch),
    }
}

/// Milliseconds since the Unix epoch, cut to 64 bits. The one error is a
/// clock that reads before the epoch.
pub fn current_time_ms() -> (r: Result<u64, ClockError>)
    ensures
        r is Err ==> r == Err::<u64, ClockError>(ClockError::BeforeEpoch),
{
    let ms: Option<u128> = match since_epoch() {
        Some(d) => Some(d.as_millis()),
        None => None,
    };
    timestamp_from(ms)
}

/// A random value below 1024: the low ten bits (see `low_ten_bits`) of a
/// hash, under fresh random keys, of the current sub-second nanoseconds.
pub fn generate_random_10bit() -> (r: u16)
    ensures
        r < 1024,
{
    let nanos: u32 = match since_epoch() {
        Some(d) => d.subsec_nanos(),
        None => 0,
    };
    let mut hasher = random_hasher();
    let bytes: [u8; 4] = [
        (nanos & 0xFF) as u8,
        ((nanos >> 8) & 0xFF) as u8,
        ((nanos >> 16) & 0xFF) as u8,
        (nanos >> 24) as u8,
    ];
    hasher.write(&bytes);
    low_ten_bits(hasher.finish())
}

/// The low ten bits of `hash`.
pub fn low_ten_bits(hash: u64) -> (r: u16)
    ensures
        r as u64 == hash & 0x3FF,
        r < 1024,
{
    proof {
        assert(hash & 0x3FF < 1024) by (bit_vector);
    }
    (hash & 0x3FF) as u16
}

/// What the wait does with the reading `now`, taken after `readings` earlier
/// readings that all showed `current`: it ends with `now` when the clock has
/// moved on, gives up when the readings are used up, and otherwise goes on
/// (`None`).
pub fn wait_step(current: u64, now: u64, readings: u64) -> (r: Option<Result<u64, ClockError>>)
    ensures
        now != current ==> r == Some(Ok::<u64, ClockError>(now)),
        now == current && readings == u64::MAX ==> r == Some(
            Err::<u64, ClockError>(ClockError::Stalled),
        ),
        now == current && readings < u64::MAX ==> r is None,
{
    if now != current {
        Some(Ok(now))
    } else if readings == u64::MAX {
        Some(Err(ClockError::Stalled))
    } else {
        None
    }
}

/// Reads the clock until it shows a millisecond other than `current`, with a
/// spin hint between readings; gives up after 2^64 readings.
pub fn wait_next_millisecond(current: u64) -> (r: Result<u64, ClockError>)
    ensures
        r is Ok ==> r->Ok_0 != current,
{
    let mut readings: u64 = 0;
    loop
        decreases u64::MAX - readings,
    {
        let now = current_time_ms()?;
        if let Some(r) = wait_step(current, now, readings) {
            return r;
        }
        readings += 1;
        core::hint::spin_loop();
    }
}

} // verus!
