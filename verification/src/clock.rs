//! Points in time, read from the system clock.
use std::time::SystemTime;
use vstd::prelude::*;

use crate::text::{decimal, decimal_string, signed_decimal, signed_decimal_string};

verus! {

/// `std::time::SystemTime`, an opaque reading of the system clock.
#[verifier::external_type_specification]
#[verifier::external_body]
pub struct ExSystemTime(SystemTime);

/// `SystemTime::now`: the clock's current reading; nothing is claimed of it.
pub assume_specification[ SystemTime::now ]() -> SystemTime;

/// `SystemTime::duration_since(UNIX_EPOCH)`: how far `t` lies after the Unix
/// epoch (`Ok`) or before it (`Err`, from the error's `duration()`), each
/// duration given as its whole seconds and its nanoseconds into the last
/// second (`as_secs`, `subsec_nanos`). The nanoseconds are below one billion,
/// as std documents for `subsec_nanos`; nothing else is claimed, as `t` is
/// opaque.
#[verifier::external_body]
fn since_unix_epoch(t: &SystemTime) -> (r: Result<(u64, u32), (u64, u32)>)
    ensures
        match r {
            Ok((_, nanos)) => nanos < 1_000_000_000,
            Err((_, nanos)) => nanos < 1_000_000_000,
        },
{
    match t.duration_since(std::time::UNIX_EPOCH) {
        Ok(d) => Ok((d.as_secs(), d.subsec_nanos())),
        Err(e) => Err((e.duration().as_secs(), e.duration().subsec_nanos())),
    }
}

/// A point in time as the Unix clock keeps it: whole seconds since the epoch
/// (negative before it) and nanoseconds into that second.
#[derive(Clone, Copy, Debug, PartialEq, Eq)]
pub struct Timestamp {
    pub tv_sec: i64,
    pub tv_nsec: u32,
}

/// The seconds value of a timespec, saturated to the range of `i64`.
pub open spec fn clamp_seconds(s: int) -> i64 {
    if s > i64::MAX {
        i64::MAX
    } else if s < i64::MIN {
        i64::MIN
    } else {
        s as i64
    }
}

/// The timespec of the instant that lies `secs` seconds and `nanos`
/// nanoseconds after the epoch, or before it when `before` holds.
pub open spec fn epoch_offset(before: bool, secs: u64, nanos: u32) -> Timestamp {
    if !before {
        Timestamp { tv_sec: clamp_seconds(secs as int), tv_nsec: nanos }
    } else if nanos == 0 {
        Timestamp { tv_sec: clamp_seconds(-(secs as int)), tv_nsec: 0 }
    } else {
        Timestamp {
            tv_sec: clamp_seconds(-(secs as int) - 1),
            tv_nsec: (1_000_000_000 - nanos) as u32,
        }
    }
}

/// The timespec of a clock reading: an offset after the epoch (`Ok`) or before
/// it (`Err`), as whole seconds and nanoseconds.
pub open spec fn reading_timestamp(r: Result<(u64, u32), (u64, u32)>) -> Timestamp {
    match r {
        Ok((secs, nanos)) => epoch_offset(false, secs, nanos),
        Err((secs, nanos)) => epoch_offset(true, secs, nanos),
    }
}

/// How `{:?}` shows a system time on Unix.
pub open spec fn time_text(t: Timestamp) -> Seq<char> {
    "SystemTime { tv_sec: "@ + signed_decimal(t.tv_sec as int) + ", tv_nsec: "@ + decimal(
        t.tv_nsec as nat,
    ) + " }"@
}

impl Timestamp {
    /// The timespec of an offset from the epoch: `secs` seconds and `nanos`
    /// nanoseconds after it, or before it when `before` holds.
    pub fn from_epoch_offset(before: bool, secs: u64, nanos: u32) -> (t: Timestamp)
        requires
            nanos < 1_000_000_000,
        ensures
            t == epoch_offset(before, secs, nanos),
    {
        if !before {
            let s: i64 = if secs <= 9223372036854775807u64 {
                secs as i64
            } else {
                i64::MAX
            };
            Timestamp { tv_sec: s, tv_nsec: nanos }
        } else if nanos == 0 {
            let s: i64 = if secs <= 9223372036854775808u64 {
                (0i128 - (secs as i128)) as i64
            } else {
                i64::MIN
            };
            Timestamp { tv_sec: s, tv_nsec: 0 }
        } else {
            let s: i64 = if secs <= 9223372036854775807u64 {
                (0i128 - (secs as i128) - 1) as i64
            } else {
                i64::MIN
            };
            Timestamp { tv_sec: s, tv_nsec: 1_000_000_000 - nanos }
        }
    }

    /// The timespec of a clock reading: `Ok((secs, nanos))` lies after the
    /// epoch, `Err((secs, nanos))` before it.
    pub fn from_reading(r: Result<(u64, u32), (u64, u32)>) -> (t: Timestamp)
        requires
            match r {
                Ok((_, nanos)) => nanos < 1_000_000_000,
                Err((_, nanos)) => nanos < 1_000_000_000,
            },
        ensures
            t == reading_timestamp(r),
    {
        match r {
            Ok((secs, nanos)) => Timestamp::from_epoch_offset(false, secs, nanos),
            Err((secs, nanos)) => Timestamp::from_epoch_offset(true, secs, nanos),
        }
    }

    /// The current time of the system clock.
    pub fn now() -> (t: Timestamp)
        ensures
            t.tv_nsec < 1_000_000_000,
    {
        let clock = SystemTime::now();
        Timestamp::from_reading(since_unix_epoch(&clock))
    }
}

/// `{:?}` of a timestamp, as a system time shows on Unix.
pub(crate) fn time_debug(t: &Timestamp) -> (s: String)
    ensures
        s@ == time_text(*t),
{
    let mut s = String::new();
    s.append("SystemTime { tv_sec: ");
    s.append(signed_decimal_string(t.tv_sec).as_str());
    s.append(", tv_nsec: ");
    s.append(decimal_string(t.tv_nsec as u128).as_str());
    s.append(" }");
    s
}

} // verus!
