//! Durations and sizes as short human-readable text.

use vstd::prelude::*;
use crate::text::{decimal, decimal_text};
use core::time::Duration;

verus! {

/// A number of seconds as text: seconds under a minute, minutes and seconds
/// under an hour, hours and minutes under a day, else days and hours.
pub open spec fn duration_text(s: nat) -> Seq<char> {
    if s < 60 {
        decimal_text(s) + "s"@
    } else if s < 3600 {
        decimal_text(s / 60) + "m "@ + decimal_text(s % 60) + "s"@
    } else if s < 86400 {
        decimal_text(s / 3600) + "h "@ + decimal_text((s % 3600) / 60) + "m"@
    } else {
        decimal_text(s / 86400) + "d "@ + decimal_text((s % 86400) / 3600) + "h"@
    }
}

/// Relies on `Duration::as_secs`: the whole seconds of a duration.
#[verifier::external_body]
fn whole_seconds(d: &Duration) -> (r: u64) {
    d.as_secs()
}

/// Relies on `Duration::from_secs`: a duration of whole seconds.
#[verifier::external_body]
fn duration_of_seconds(secs: u64) -> (r: Duration) {
    Duration::from_secs(secs)
}

/// A number of seconds as text, such as `1m 30s` or `1d 1h`.
pub fn format_seconds(secs: u64) -> (r: String)
    ensures
        r@ == duration_text(secs as nat),
{
    if secs < 60 {
        let mut r = decimal(secs);
        r.append("s");
        r
    } else if secs < 3600 {
        let mut r = decimal(secs / 60);
        r.append("m ");
        r.append(decimal(secs % 60).as_str());
        r.append("s");
        r
    } else if secs < 86400 {
        let mut r = decimal(secs / 3600);
        r.append("h ");
        r.append(decimal((secs % 3600) / 60).as_str());
        r.append("m");
        r
    } else {
        let mut r = decimal(secs / 86400);
        r.append("d ");
        r.append(decimal((secs % 86400) / 3600).as_str());
        r.append("h");
        r
    }
}

/// A duration, in whole seconds, as text.
pub fn format_duration(duration: Duration) -> (r: String)
    ensures
        exists|s: u64| r@ == duration_text(s as nat),
{
    let secs = whole_seconds(&duration);
    format_seconds(secs)
}

/// The number of seconds between two timestamps, in either order.
pub fn seconds_between(start: i64, end: i64) -> (r: u64)
    ensures
        r as int == if end >= start {
            end - start
        } else {
            start - end
        },
{
    if end >= start {
        ((end as i128) - (start as i128)) as u64
    } else {
        ((start as i128) - (end as i128)) as u64
    }
}

/// The time between two timestamps, in either order.
pub fn time_diff(start: i64, end: i64) -> (r: Duration) {
    duration_of_seconds(seconds_between(start, end))
}

/// The divisor of the `k`-th size unit: B, KB, MB, GB, TB.
pub open spec fn unit_divisor(k: nat) -> nat {
    if k == 0 {
        1
    } else if k == 1 {
        1024
    } else if k == 2 {
        1048576
    } else if k == 3 {
        1073741824
    } else {
        1099511627776
    }
}

/// The name of the `k`-th size unit.
pub open spec fn unit_name(k: nat) -> Seq<char> {
    if k == 0 {
        "B"@
    } else if k == 1 {
        "KB"@
    } else if k == 2 {
        "MB"@
    } else if k == 3 {
        "GB"@
    } else {
        "TB"@
    }
}

/// The largest unit, up to TB, of which `size` holds at least one.
pub open spec fn size_unit(size: nat) -> nat {
    if size >= 1099511627776 {
        4
    } else if size >= 1073741824 {
        3
    } else if size >= 1048576 {
        2
    } else if size >= 1024 {
        1
    } else {
        0
    }
}

/// `size` in hundredths of the unit with divisor `d`, rounded to nearest,
/// ties to even.
pub open spec fn hundredths(size: nat, d: nat) -> nat {
    let q = size * 100 / d;
    let rem = size * 100 % d;
    if 2 * rem > d || (2 * rem == d && q % 2 == 1) {
        q + 1
    } else {
        q
    }
}

/// A size as text: whole bytes under a kilobyte, else the largest unit up
/// to TB with two decimals.
pub open spec fn size_text(size: nat) -> Seq<char> {
    let k = size_unit(size);
    if k == 0 {
        decimal_text(size) + " B"@
    } else {
        let h = hundredths(size, unit_divisor(k));
        decimal_text(h / 100) + "."@ + decimal_text((h % 100) / 10) + decimal_text(h % 10) + " "@
            + unit_name(k)
    }
}

/// A size in bytes as text, such as `500 B` or `1.50 MB`.
pub fn format_size(size: u64) -> (r: String)
    ensures
        r@ == size_text(size as nat),
{
    let (k, d, unit): (u64, u128, &str) = if size >= 1099511627776 {
        (4, 1099511627776, "TB")
    } else if size >= 1073741824 {
        (3, 1073741824, "GB")
    } else if size >= 1048576 {
        (2, 1048576, "MB")
    } else if size >= 1024 {
        (1, 1024, "KB")
    } else {
        (0, 1, "B")
    };
    assert(d == unit_divisor(k as nat) && k == size_unit(size as nat) && unit@ == unit_name(
        k as nat,
    ));
    if k == 0 {
        let mut r = decimal(size);
        r.append(" B");
        return r;
    }
    let scaled: u128 = (size as u128) * 100;
    let q = scaled / d;
    let rem = scaled % d;
    let h: u128 = if 2 * rem > d || (2 * rem == d && q % 2 == 1) {
        q + 1
    } else {
        q
    };
    assert(h == hundredths(size as nat, d as nat));
    assert(h <= 0xffff_ffff_ffff_ffffu128 * 100 + 1);
    let whole = (h / 100) as u64;
    let tens = ((h % 100) / 10) as u64;
    let ones = (h % 10) as u64;
    let mut r = decimal(whole);
    r.append(".");
    r.append(decimal(tens).as_str());
    r.append(decimal(ones).as_str());
    r.append(" ");
    r.append(unit);
    r
}

} // verus!
