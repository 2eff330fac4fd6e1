//! The metadata accessor: when an entry was last modified, as an instant in
//! UTC, with the current time standing in where no usable time was recorded.
//!
//! Whether an instant can be held is asked of the `chrono` crate, and so is
//! the current time.

use vstd::prelude::*;

verus! {

/// The number of nanoseconds in a second.
pub const NANOS_PER_SECOND: u32 = 1_000_000_000;

/// An instant in UTC: `secs` whole seconds after the epoch (before it where
/// negative), and `nanos` nanoseconds after that second.
#[derive(Clone, Copy, Debug, PartialEq, Eq, Structural)]
pub struct Timestamp {
    pub secs: i64,
    pub nanos: u32,
}

/// The modification time that the filesystem recorded for an entry, as a
/// distance from the epoch.
#[derive(Clone, Copy, Debug, PartialEq, Eq, Structural)]
pub enum ModifiedTime {
    /// None could be read: the entry is missing, its metadata is unreadable,
    /// or the platform records no modification time.
    Unavailable,
    /// This long after the epoch.
    SinceEpoch { secs: u64, nanos: u32 },
    /// This long before the epoch.
    BeforeEpoch { secs: u64, nanos: u32 },
}

impl Timestamp {
    /// The nanoseconds are less than a second.
    pub open spec fn wf(self) -> bool {
        self.nanos < NANOS_PER_SECOND
    }
}

/// The first second that `chrono` has an instant for: the start of the
/// year -262143 (`DateTime::<Utc>::MIN_UTC`).
pub const UTC_FIRST_SECOND: i64 = -8_334_601_228_800;

/// The last second that `chrono` has an instant for: the end of the year
/// 262142 (`DateTime::<Utc>::MAX_UTC`).
pub const UTC_LAST_SECOND: i64 = 8_210_266_876_799;

/// Whether `chrono` has an instant in UTC that lies `secs` seconds and
/// `nanos` nanoseconds after the epoch: the second lies in its range, and
/// the nanoseconds are less than a second, or less than two in the last
/// second of a minute, where they stand for a leap second.
pub open spec fn utc_has_instant(secs: int, nanos: int) -> bool {
    &&& UTC_FIRST_SECOND <= secs <= UTC_LAST_SECOND
    &&& (nanos < 1_000_000_000 || (nanos < 2_000_000_000 && secs % 60 == 59))
}

/// Whether `chrono` has an instant in UTC that lies `millis` milliseconds
/// after the epoch: its second lies in the range.
pub open spec fn utc_has_millis(millis: int) -> bool {
    UTC_FIRST_SECOND <= millis / 1000 <= UTC_LAST_SECOND
}

/// How many whole milliseconds after the epoch `t` lies.
pub open spec fn millis_of(t: Timestamp) -> int {
    t.secs * 1000 + t.nanos / 1_000_000
}

/// How many nanoseconds after the epoch `t` lies.
pub open spec fn nanos_of(t: Timestamp) -> int {
    t.secs * 1_000_000_000 + t.nanos
}

/// How many nanoseconds after the epoch a reading lies, negative where it
/// lies before it; `None` where no time was recorded, and where the reading
/// holds a second or more of nanoseconds.
pub open spec fn nanos_after_epoch(reading: ModifiedTime) -> Option<int> {
    match reading {
        ModifiedTime::Unavailable => None,
        ModifiedTime::SinceEpoch { secs, nanos } => if nanos < NANOS_PER_SECOND {
            Some(secs * 1_000_000_000 + nanos)
        } else {
            None
        },
        ModifiedTime::BeforeEpoch { secs, nanos } => if nanos < NANOS_PER_SECOND {
            Some(-(secs * 1_000_000_000 + nanos))
        } else {
            None
        },
    }
}

/// The instant that lies `total` nanoseconds after the epoch: the whole
/// seconds, rounded down, and the nanoseconds after them. `None` where the
/// seconds do not fit in 64 bits.
pub open spec fn instant_at(total: int) -> Option<Timestamp> {
    let secs = total / 1_000_000_000;
    if i64::MIN <= secs <= i64::MAX {
        Some(Timestamp { secs: secs as i64, nanos: (total % 1_000_000_000) as u32 })
    } else {
        None
    }
}

/// The instant that a reading states, to the nanosecond; `None` where none
/// was recorded, and where the count of seconds does not fit in 64 bits.
pub open spec fn stated_instant(reading: ModifiedTime) -> Option<Timestamp> {
    match nanos_after_epoch(reading) {
        Some(total) => instant_at(total),
        None => None,
    }
}

/// The instant that a reading states, to the millisecond: its whole
/// milliseconds after the epoch. `None` where none was recorded, where the
/// reading lies before the epoch, and where the count of milliseconds does
/// not fit in 64 bits.
pub open spec fn stated_instant_millis(reading: ModifiedTime) -> Option<Timestamp> {
    match nanos_after_epoch(reading) {
        Some(total) => if reading is SinceEpoch && total / 1_000_000 <= i64::MAX {
            instant_at((total / 1_000_000) * 1_000_000)
        } else {
            None
        },
        None => None,
    }
}

/// An instant that a reading states lies as many nanoseconds after the epoch
/// as the reading does, with less than a second of them in `nanos`.
pub proof fn lemma_stated_instant(reading: ModifiedTime)
    ensures
        stated_instant(reading) matches Some(t) ==> t.wf() && Some(nanos_of(t))
            == nanos_after_epoch(reading),
{
}

/// An instant that a reading states to the millisecond lies as many whole
/// milliseconds after the epoch as the reading does, and holds no part of a
/// millisecond.
pub proof fn lemma_stated_instant_millis(reading: ModifiedTime)
    ensures
        stated_instant_millis(reading) matches Some(t) ==> {
            &&& t.wf()
            &&& t.nanos % 1_000_000 == 0
            &&& millis_of(t) == nanos_after_epoch(reading)->0 / 1_000_000
        },
{
}

/// The recorded time as an instant, to the millisecond; `None` where the
/// reading states none, and where `chrono` cannot hold the instant.
pub open spec fn recorded_instant_millis(reading: ModifiedTime) -> Option<Timestamp> {
    match stated_instant_millis(reading) {
        Some(t) => if utc_has_millis(millis_of(t)) {
            Some(t)
        } else {
            None
        },
        None => None,
    }
}

/// The recorded time as an instant, to the nanosecond; `None` where the
/// reading states none, and where `chrono` cannot hold the instant.
pub open spec fn recorded_instant(reading: ModifiedTime) -> Option<Timestamp> {
    match stated_instant(reading) {
        Some(t) => if utc_has_instant(t.secs as int, t.nanos as int) {
            Some(t)
        } else {
            None
        },
        None => None,
    }
}

/// `DateTime::<Utc>::from_timestamp_millis` of the `chrono` crate: whether
/// it gives an instant. It gives one where the second of the millisecond,
/// rounded down, lies from `DateTime::<Utc>::MIN_UTC` to `MAX_UTC`.
#[verifier::external_body]
fn utc_holds_millis(millis: i64) -> (held: bool)
    ensures
        held == utc_has_millis(millis as int),
{
    chrono::DateTime::<chrono::Utc>::from_timestamp_millis(millis).is_some()
}

/// `DateTime::<Utc>::from_timestamp` of the `chrono` crate: whether it gives
/// an instant. It gives one where the second lies from
/// `DateTime::<Utc>::MIN_UTC` to `MAX_UTC` and the nanoseconds are less than
/// a second, or less than two in the last second of a minute.
#[verifier::external_body]
fn utc_holds_instant(secs: i64, nanos: u32) -> (held: bool)
    ensures
        held == utc_has_instant(secs as int, nanos as int),
{
    chrono::DateTime::<chrono::Utc>::from_timestamp(secs, nanos).is_some()
}

/// `DateTime::<Utc>::from` of the `chrono` crate on `SystemTime::now`, as
/// seconds and nanoseconds: the current time. A clock that stands before the
/// epoch is counted back from it. The nanoseconds are those of a `Duration`,
/// or a second less those, and so less than a second. (The conversion needs
/// a time within the range of `chrono`, which reaches further than the
/// clock of any system that `std` runs on.)
#[verifier::external_body]
fn current_time() -> (now: Timestamp)
    ensures
        now.wf(),
{
    let now = chrono::DateTime::<chrono::Utc>::from(std::time::SystemTime::now());
    Timestamp { secs: now.timestamp(), nanos: now.timestamp_subsec_nanos() }
}

/// The instant that `reading` states, to the millisecond: whole
/// milliseconds after the epoch, as seconds and nanoseconds. `None` where no
/// time was recorded, where it lies before the epoch, and where the count of
/// milliseconds does not fit in 64 bits.
pub fn instant_of_reading_millis(reading: &ModifiedTime) -> (stated: Option<Timestamp>)
    ensures
        stated == stated_instant_millis(*reading),
        stated matches Some(t) ==> t.wf() && 0 <= millis_of(t) <= i64::MAX,
{
    match reading {
        ModifiedTime::SinceEpoch { secs, nanos } => {
            if *nanos >= NANOS_PER_SECOND {
                return None;
            }
            let millis: u128 = (*secs as u128) * 1000 + (*nanos as u128) / 1_000_000;
            if millis > i64::MAX as u128 {
                return None;
            }
            let millis: i64 = millis as i64;
            proof {
                let total = *secs * 1_000_000_000 + *nanos;
                assert(total == (*secs * 1000) * 1_000_000 + *nanos);
                assert(total / 1_000_000 == millis);
                assert(millis * 1_000_000 == (millis / 1000) * 1_000_000_000 + (millis % 1000)
                    * 1_000_000);
            }
            Some(Timestamp { secs: millis / 1000, nanos: ((millis % 1000) as u32) * 1_000_000 })
        },
        _ => None,
    }
}

/// The instant that `reading` states, to the nanosecond. A time before the
/// epoch is counted back from it: the seconds are negative, the nanoseconds
/// count forward from the second. `None` where no time was recorded, and
/// where the count of seconds does not fit in 64 bits.
pub fn instant_of_reading(reading: &ModifiedTime) -> (stated: Option<Timestamp>)
    ensures
        stated == stated_instant(*reading),
        stated matches Some(t) ==> t.wf(),
{
    match reading {
        ModifiedTime::Unavailable => None,
        ModifiedTime::SinceEpoch { secs, nanos } => {
            if *nanos >= NANOS_PER_SECOND || *secs > i64::MAX as u64 {
                return None;
            }
            Some(Timestamp { secs: *secs as i64, nanos: *nanos })
        },
        ModifiedTime::BeforeEpoch { secs, nanos } => {
            if *nanos >= NANOS_PER_SECOND {
                return None;
            }
            if *nanos == 0 {
                if *secs > (i64::MAX as u64) + 1 {
                    None
                } else if *secs == (i64::MAX as u64) + 1 {
                    Some(Timestamp { secs: i64::MIN, nanos: 0 })
                } else {
                    Some(Timestamp { secs: -(*secs as i64), nanos: 0 })
                }
            } else if *secs > i64::MAX as u64 {
                None
            } else {
                Some(Timestamp { secs: -(*secs as i64) - 1, nanos: NANOS_PER_SECOND - *nanos })
            }
        },
    }
}

/// The recorded modification time to the millisecond, where there is one
/// that can be held: the reading states an instant at or after the epoch,
/// and it is an instant that `chrono` has.
pub fn recorded_time_millis(reading: &ModifiedTime) -> (recorded: Option<Timestamp>)
    ensures
        recorded == recorded_instant_millis(*reading),
        recorded matches Some(t) ==> t.wf(),
{
    match instant_of_reading_millis(reading) {
        Some(t) => {
            let millis: i64 = t.secs * 1000 + (t.nanos / 1_000_000) as i64;
            if utc_holds_millis(millis) {
                Some(t)
            } else {
                None
            }
        },
        None => None,
    }
}

/// The recorded modification time to the nanosecond, where there is one that
/// can be held: the reading states an instant, and it is one that `chrono`
/// has.
pub fn recorded_time(reading: &ModifiedTime) -> (recorded: Option<Timestamp>)
    ensures
        recorded == recorded_instant(*reading),
        recorded matches Some(t) ==> t.wf(),
{
    match instant_of_reading(reading) {
        Some(t) => if utc_holds_instant(t.secs, t.nanos) {
            Some(t)
        } else {
            None
        },
        None => None,
    }
}

/// `recorded` where there is one, and `now` where there is none.
fn or_now(recorded: Option<Timestamp>, now: Timestamp) -> (t: Timestamp)
    ensures
        t == match recorded {
            Some(instant) => instant,
            None => now,
        },
{
    match recorded {
        Some(instant) => instant,
        None => now,
    }
}

/// When the entry was last modified, to the nanosecond, for a caller that
/// has read the clock: the recorded time where it can be held, else `now`.
pub fn last_modified_time_for_path_at(reading: &ModifiedTime, now: Timestamp) -> (t: Timestamp)
    ensures
        t == match recorded_instant(*reading) {
            Some(instant) => instant,
            None => now,
        },
{
    or_now(recorded_time(reading), now)
}

/// When the entry was last modified, to the millisecond, for a caller that
/// has read the clock: the recorded time where it lies at or after the epoch
/// and can be held, else `now`.
pub fn last_modified_time_at(reading: &ModifiedTime, now: Timestamp) -> (t: Timestamp)
    ensures
        t == match recorded_instant_millis(*reading) {
            Some(instant) => instant,
            None => now,
        },
{
    or_now(recorded_time_millis(reading), now)
}

/// When the entry was last modified, to the nanosecond. Where no time was
/// recorded or the recorded time cannot be held, the current time is given
/// instead.
pub fn last_modified_time_for_path(reading: &ModifiedTime) -> (t: Timestamp)
    ensures
        recorded_instant(*reading) matches Some(instant) ==> t == instant,
        t.wf(),
{
    match recorded_time(reading) {
        Some(instant) => instant,
        None => current_time(),
    }
}

/// When the entry was last modified, to the millisecond. Where no time was
/// recorded, the recorded time lies before the epoch, or it cannot be held,
/// the current time is given instead.
pub fn last_modified_time(reading: &ModifiedTime) -> (t: Timestamp)
    ensures
        recorded_instant_millis(*reading) matches Some(instant) ==> t == instant,
        t.wf(),
{
    match recorded_time_millis(reading) {
        Some(instant) => instant,
        None => current_time(),
    }
}

} // verus!
