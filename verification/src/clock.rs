//! Local time as the application writes it: in task records, log lines,
//! log directories and backup names.

use vstd::prelude::*;
use crate::text::{decimal, push_decimal, push_padded, string_of, zero_pad};
use crate::trusted::local_now;

verus! {

/// A local date and time, as chrono's `Datelike` and `Timelike` give it.
#[derive(Debug, Clone, Copy, PartialEq, Eq)]
pub struct LocalTimestamp {
    pub year: i32,
    pub month: u32,
    pub day: u32,
    pub hour: u32,
    pub minute: u32,
    pub second: u32,
    pub nanosecond: u32,
}

impl LocalTimestamp {
    /// The ranges that chrono documents for each field.
    pub open spec fn well_formed(&self) -> bool {
        &&& 1 <= self.month <= 12
        &&& 1 <= self.day <= 31
        &&& self.hour < 24
        &&& self.minute < 60
        &&& self.second < 60
        &&& self.nanosecond < 2_000_000_000
    }
}

/// chrono's `%Y`: four digits for the years 0 to 9999, otherwise a sign and
/// at least four digits.
pub open spec fn year_text(y: int) -> Seq<char> {
    if 0 <= y <= 9999 {
        zero_pad(decimal(y as nat), 4)
    } else if y < 0 {
        seq!['-'] + zero_pad(decimal((-y) as nat), 4)
    } else {
        seq!['+'] + zero_pad(decimal(y as nat), 4)
    }
}

/// Two digits, zero first.
pub open spec fn two(v: nat) -> Seq<char> {
    zero_pad(decimal(v), 2)
}

/// chrono's `%S`: a leap second shows as 60.
pub open spec fn second_shown(t: LocalTimestamp) -> nat {
    (t.second + t.nanosecond / 1_000_000_000) as nat
}

/// `%Y-%m-%d %H:%M:%S`.
pub open spec fn datetime_text(t: LocalTimestamp) -> Seq<char> {
    year_text(t.year as int) + seq!['-'] + two(t.month as nat) + seq!['-'] + two(t.day as nat) + seq![' ']
        + two(t.hour as nat) + seq![':'] + two(t.minute as nat) + seq![':'] + two(second_shown(t))
}

/// `%Y-%m-%d %H:%M:%S%.3f`: with the milliseconds.
pub open spec fn datetime_millis_text(t: LocalTimestamp) -> Seq<char> {
    datetime_text(t) + seq!['.'] + zero_pad(decimal(((t.nanosecond / 1_000_000) % 1000) as nat), 3)
}

/// `%Y%m%d-%H%M%S`.
pub open spec fn compact_datetime_text(t: LocalTimestamp) -> Seq<char> {
    year_text(t.year as int) + two(t.month as nat) + two(t.day as nat) + seq!['-'] + two(t.hour as nat)
        + two(t.minute as nat) + two(second_shown(t))
}

/// Rust's `{:04}` for a signed number: the sign counts toward the width.
pub open spec fn signed_width4(y: int) -> Seq<char> {
    if y < 0 {
        seq!['-'] + zero_pad(decimal((-y) as nat), 3)
    } else {
        zero_pad(decimal(y as nat), 4)
    }
}

fn push_year(out: &mut Vec<char>, y: i32)
    ensures
        final(out)@ == old(out)@ + year_text(y as int),
{
    if 0 <= y && y <= 9999 {
        push_padded(out, y as u64, 4);
    } else if y < 0 {
        out.push('-');
        let m: u64 = if y == i32::MIN { 2147483648u64 } else { (-y) as u64 };
        push_padded(out, m, 4);
        assert(final(out)@ =~= old(out)@ + year_text(y as int));
    } else {
        out.push('+');
        push_padded(out, y as u64, 4);
        assert(final(out)@ =~= old(out)@ + year_text(y as int));
    }
}

fn push_seconds(out: &mut Vec<char>, t: &LocalTimestamp)
    requires
        t.well_formed(),
    ensures
        final(out)@ == old(out)@ + two(second_shown(*t)),
{
    let s: u64 = t.second as u64 + (t.nanosecond / 1_000_000_000) as u64;
    push_padded(out, s, 2);
}

fn push_date_time(out: &mut Vec<char>, t: &LocalTimestamp)
    requires
        t.well_formed(),
    ensures
        final(out)@ == old(out)@ + datetime_text(*t),
{
    let ghost start = out@;
    push_year(out, t.year);
    out.push('-');
    push_padded(out, t.month as u64, 2);
    out.push('-');
    push_padded(out, t.day as u64, 2);
    let ghost date = out@;
    assert(date =~= start + year_text(t.year as int) + seq!['-'] + two(t.month as nat) + seq!['-'] + two(t.day as nat));
    out.push(' ');
    push_padded(out, t.hour as u64, 2);
    out.push(':');
    push_padded(out, t.minute as u64, 2);
    out.push(':');
    push_seconds(out, t);
    assert(out@ =~= date + seq![' '] + two(t.hour as nat) + seq![':'] + two(t.minute as nat) + seq![':'] + two(second_shown(*t)));
    assert(out@ =~= start + datetime_text(*t));
}

fn push_compact_date_time(out: &mut Vec<char>, t: &LocalTimestamp)
    requires
        t.well_formed(),
    ensures
        final(out)@ == old(out)@ + compact_datetime_text(*t),
{
    let ghost start = out@;
    push_year(out, t.year);
    push_padded(out, t.month as u64, 2);
    push_padded(out, t.day as u64, 2);
    let ghost date = out@;
    assert(date =~= start + year_text(t.year as int) + two(t.month as nat) + two(t.day as nat));
    out.push('-');
    push_padded(out, t.hour as u64, 2);
    push_padded(out, t.minute as u64, 2);
    push_seconds(out, t);
    assert(out@ =~= date + seq!['-'] + two(t.hour as nat) + two(t.minute as nat) + two(second_shown(*t)));
    assert(out@ =~= start + compact_datetime_text(*t));
}

/// The time `t` as `%Y-%m-%d %H:%M:%S`.
pub fn format_datetime(t: &LocalTimestamp) -> (r: String)
    requires
        t.well_formed(),
    ensures
        r@ == datetime_text(*t),
{
    let mut v: Vec<char> = Vec::new();
    push_date_time(&mut v, t);
    assert(v@ =~= datetime_text(*t));
    string_of(v.as_slice())
}

/// The time `t` as `%Y-%m-%d %H:%M:%S%.3f`, as log lines begin.
pub fn format_datetime_millis(t: &LocalTimestamp) -> (r: String)
    requires
        t.well_formed(),
    ensures
        r@ == datetime_millis_text(*t),
{
    let mut v: Vec<char> = Vec::new();
    push_date_time(&mut v, t);
    v.push('.');
    push_padded(&mut v, ((t.nanosecond / 1_000_000) % 1000) as u64, 3);
    assert(v@ =~= datetime_millis_text(*t));
    string_of(v.as_slice())
}

/// The time `t` as `%Y%m%d-%H%M%S`, as database backups are named.
pub fn format_compact_datetime(t: &LocalTimestamp) -> (r: String)
    requires
        t.well_formed(),
    ensures
        r@ == compact_datetime_text(*t),
{
    let mut v: Vec<char> = Vec::new();
    push_compact_date_time(&mut v, t);
    assert(v@ =~= compact_datetime_text(*t));
    string_of(v.as_slice())
}

/// A year as `{:04}` writes it.
pub fn format_year_width4(y: i32) -> (r: String)
    ensures
        r@ == signed_width4(y as int),
{
    let mut v: Vec<char> = Vec::new();
    if y < 0 {
        v.push('-');
        let m: u64 = if y == i32::MIN { 2147483648u64 } else { (-y) as u64 };
        push_padded(&mut v, m, 3);
    } else {
        push_padded(&mut v, y as u64, 4);
    }
    assert(v@ =~= signed_width4(y as int));
    string_of(v.as_slice())
}

/// A month or day as `{:02}` writes it.
pub fn format_two_digits(v: u32) -> (r: String)
    ensures
        r@ == two(v as nat),
{
    let mut out: Vec<char> = Vec::new();
    push_padded(&mut out, v as u64, 2);
    assert(out@ =~= two(v as nat));
    string_of(out.as_slice())
}

/// The current local time as `%Y-%m-%d %H:%M:%S`, as task records store it.
/// The time itself comes from the system clock.
/// The local date and time now, field by field. Which moment it is depends
/// on the clock and the time zone; the fields are in chrono's ranges.
pub fn current_local_timestamp() -> (t: LocalTimestamp)
    ensures
        t.well_formed(),
{
    local_now()
}

pub fn now_string() -> (r: String)
    ensures
        exists|t: LocalTimestamp| t.well_formed() && r@ == datetime_text(t),
{
    let t = local_now();
    format_datetime(&t)
}

} // verus!
