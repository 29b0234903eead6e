use vstd::prelude::*;
use chrono::{Datelike, Timelike};
use core::fmt::Write;
use crate::text::string_from_chars;

verus! {

/// A UTC date and time, held as its Unix timestamp together with the civil
/// fields the calendar gives it. The fields are plain values, so everything
/// that reads them is verified; only the calendar arithmetic itself is the
/// calendar library's.
#[derive(Debug, Clone, Copy, PartialEq)]
pub struct AetherDateTime {
    pub ts: i64,
    pub year: i32,
    pub month: u32,
    pub day: u32,
    pub hour: u32,
    pub minute: u32,
    pub second: u32,
}

impl AetherDateTime {
    /// The documented ranges of the civil fields.
    pub open spec fn wf(self) -> bool {
        &&& 1 <= self.month <= 12
        &&& 1 <= self.day <= 31
        &&& self.hour < 24
        &&& self.minute < 60
        &&& self.second < 60
        &&& -1000000 < self.year < 1000000
    }
}

/// The civil UTC date and time a Unix timestamp denotes — year, month, day,
/// hour, minute, second — as chrono's proleptic Gregorian calendar computes
/// it: a fixed function of the timestamp alone, `None` exactly outside the
/// representable range.
pub uninterp spec fn civil_of(ts: i64) -> Option<(i32, u32, u32, u32, u32, u32)>;

/// Relies on chrono's `DateTime::from_timestamp` and its calendar accessors
/// (`year`, `month`, `day`, `hour`, `minute`, `second`): the civil UTC date
/// and time of a Unix timestamp. chrono documents months in 1..=12, days in
/// 1..=31, hours below 24, minutes and seconds below 60, years within
/// ±262000, and `None` exactly when the timestamp falls outside its
/// representable range.
#[verifier::external_body]
fn civil_from_unix(ts: i64) -> (r: Option<(i32, u32, u32, u32, u32, u32)>)
    ensures
        r == civil_of(ts),
        r matches Some(c) ==> 1 <= c.1 <= 12 && 1 <= c.2 <= 31 && c.3 < 24 && c.4 < 60 && c.5
            < 60 && -1000000 < c.0 < 1000000,
{
    chrono::DateTime::from_timestamp(ts, 0).map(
        |d| (d.year(), d.month(), d.day(), d.hour(), d.minute(), d.second()),
    )
}

/// Relies on chrono's `Utc::now` and the same calendar accessors: the
/// current UTC time as a Unix timestamp with its civil fields. The instant
/// depends on the clock, but the fields are the calendar's reading of the
/// returned timestamp (a leap second only raises the nanosecond count, so
/// the whole-second fields agree with `civil_of`).
#[verifier::external_body]
fn now_civil() -> (r: (i64, i32, u32, u32, u32, u32, u32))
    ensures
        civil_of(r.0) == Some((r.1, r.2, r.3, r.4, r.5, r.6)),
        1 <= r.2 <= 12 && 1 <= r.3 <= 31 && r.4 < 24 && r.5 < 60 && r.6 < 60 && -1000000 < r.1
            < 1000000,
{
    let d = chrono::Utc::now();
    (d.timestamp(), d.year(), d.month(), d.day(), d.hour(), d.minute(), d.second())
}

/// What formatting a timestamp yields: chrono's strftime-style rendering in
/// UTC (locale-independent), with the empty string for a rejected format —
/// a fixed function of the timestamp and the format text.
pub uninterp spec fn format_of(ts: i64, fmt: Seq<char>) -> Seq<char>;

/// Relies on chrono's strftime-style formatting, applied to the timestamp
/// in UTC. A format string chrono rejects yields the empty string rather
/// than a fault.
#[verifier::external_body]
fn format_unix(ts: i64, fmt: &str) -> (r: String)
    ensures
        r@ == format_of(ts, fmt@),
{
    match chrono::DateTime::from_timestamp(ts, 0) {
        Some(d) => {
            let mut s = String::new();
            if write!(s, "{}", d.format(fmt)).is_ok() {
                s
            } else {
                String::new()
            }
        },
        None => String::new(),
    }
}

/// The decimal digits of a number, most significant first.
pub open spec fn spec_dec(n: nat) -> Seq<char>
    decreases n,
{
    if n < 10 {
        seq![((48 + n) as u8) as char]
    } else {
        spec_dec(n / 10).push(((48 + n % 10) as u8) as char)
    }
}

/// The decimal digits, left-padded with zeros to the given width.
pub open spec fn spec_pad(n: nat, width: nat) -> Seq<char> {
    if spec_dec(n).len() >= width {
        spec_dec(n)
    } else {
        Seq::new((width - spec_dec(n).len()) as nat, |i: int| '0') + spec_dec(n)
    }
}

/// The decimal digits of a number, as characters.
fn dec_chars(n: u32) -> (r: Vec<char>)
    ensures
        r@ == spec_dec(n as nat),
    decreases n,
{
    if n < 10 {
        let mut v: Vec<char> = Vec::new();
        v.push((48 + (n as u8)) as char);
        proof {
            assert(v@ =~= spec_dec(n as nat));
        }
        v
    } else {
        let mut v = dec_chars(n / 10);
        v.push((48 + ((n % 10) as u8)) as char);
        v
    }
}

/// The decimal digits, left-padded with zeros to the given width.
fn padded(n: u32, width: usize) -> (r: Vec<char>)
    requires
        width <= 8,
    ensures
        r@ == spec_pad(n as nat, width as nat),
{
    let d = dec_chars(n);
    if d.len() >= width {
        d
    } else {
        let mut v: Vec<char> = Vec::new();
        let k = width - d.len();
        let mut i: usize = 0;
        while i < k
            invariant
                i <= k,
                v@ == Seq::new(i as nat, |j: int| '0'),
            decreases k - i,
        {
            v.push('0');
            proof {
                assert(v@ =~= Seq::new(i as nat + 1, |j: int| '0'));
            }
            i = i + 1;
        }
        let mut j: usize = 0;
        let ghost zeros = v@;
        while j < d.len()
            invariant
                j <= d@.len(),
                d@ == spec_dec(n as nat),
                v@ == zeros + d@.take(j as int),
            decreases d@.len() - j,
        {
            v.push(d[j]);
            proof {
                assert(v@ =~= zeros + d@.take(j as int + 1));
            }
            j = j + 1;
        }
        proof {
            assert(d@.take(d@.len() as int) =~= d@);
            assert(v@ =~= spec_pad(n as nat, width as nat));
        }
        v
    }
}

/// The fixed rendering of a date and time: `YYYY-MM-DD HH:MM:SS UTC`,
/// with a leading minus sign for years before year zero.
pub open spec fn spec_datetime_display(d: AetherDateTime) -> Seq<char> {
    let y = if d.year >= 0 {
        spec_pad(d.year as nat, 4)
    } else {
        seq!['-'] + spec_pad((-(d.year as int)) as nat, 4)
    };
    y + "-"@ + spec_pad(d.month as nat, 2) + "-"@ + spec_pad(d.day as nat, 2) + " "@ + spec_pad(
        d.hour as nat,
        2,
    ) + ":"@ + spec_pad(d.minute as nat, 2) + ":"@ + spec_pad(d.second as nat, 2) + " UTC"@
}

impl AetherDateTime {
    /// The current UTC date and time, read from the clock; the civil fields
    /// are the calendar's reading of the held timestamp.
    pub fn now() -> (r: AetherDateTime)
        ensures
            r.wf(),
            civil_of(r.ts) == Some((r.year, r.month, r.day, r.hour, r.minute, r.second)),
    {
        let (ts, year, month, day, hour, minute, second) = now_civil();
        AetherDateTime { ts, year, month, day, hour, minute, second }
    }

    /// The date and time of a Unix timestamp: exactly the calendar's reading
    /// of it, or nothing exactly when the calendar cannot represent it.
    pub fn from_timestamp(timestamp: i64) -> (r: Option<AetherDateTime>)
        ensures
            r is Some <==> civil_of(timestamp) is Some,
            r matches Some(d) ==> d.wf() && d.ts == timestamp && civil_of(timestamp) == Some(
                (d.year, d.month, d.day, d.hour, d.minute, d.second),
            ),
    {
        match civil_from_unix(timestamp) {
            Some(c) => Some(
                AetherDateTime {
                    ts: timestamp,
                    year: c.0,
                    month: c.1,
                    day: c.2,
                    hour: c.3,
                    minute: c.4,
                    second: c.5,
                },
            ),
            None => None,
        }
    }

    pub fn year(&self) -> (r: i32)
        ensures
            r == self.year,
    {
        self.year
    }

    pub fn month(&self) -> (r: u32)
        ensures
            r == self.month,
    {
        self.month
    }

    pub fn day(&self) -> (r: u32)
        ensures
            r == self.day,
    {
        self.day
    }

    pub fn hour(&self) -> (r: u32)
        ensures
            r == self.hour,
    {
        self.hour
    }

    pub fn minute(&self) -> (r: u32)
        ensures
            r == self.minute,
    {
        self.minute
    }

    pub fn second(&self) -> (r: u32)
        ensures
            r == self.second,
    {
        self.second
    }

    /// The timestamp rendered with a strftime-style format, in UTC; a
    /// rejected format yields the empty string.
    pub fn format(&self, fmt: &str) -> (r: String)
        ensures
            r@ == format_of(self.ts, fmt@),
    {
        format_unix(self.ts, fmt)
    }

    pub fn timestamp(&self) -> (r: i64)
        ensures
            r == self.ts,
    {
        self.ts
    }

    /// The fixed `YYYY-MM-DD HH:MM:SS UTC` rendering of the fields.
    pub fn to_string(&self) -> (r: String)
        ensures
            r@ == spec_datetime_display(*self),
    {
        let mut v: Vec<char>;
        if self.year >= 0 {
            v = padded(self.year as u32, 4);
        } else {
            v = Vec::new();
            v.push('-');
            let ghost pre = v@;
            let mag = padded((-(self.year as i64)) as u32, 4);
            let mut i: usize = 0;
            while i < mag.len()
                invariant
                    i <= mag@.len(),
                    v@ == pre + mag@.take(i as int),
                decreases mag@.len() - i,
            {
                v.push(mag[i]);
                proof {
                    assert(v@ =~= pre + mag@.take(i as int + 1));
                }
                i = i + 1;
            }
            proof {
                assert(mag@.take(mag@.len() as int) =~= mag@);
            }
        }
        push_sep_pad(&mut v, '-', self.month, 2);
        push_sep_pad(&mut v, '-', self.day, 2);
        push_sep_pad(&mut v, ' ', self.hour, 2);
        push_sep_pad(&mut v, ':', self.minute, 2);
        push_sep_pad(&mut v, ':', self.second, 2);
        v.push(' ');
        v.push('U');
        v.push('T');
        v.push('C');
        proof {
            reveal_strlit("-");
            reveal_strlit(" ");
            reveal_strlit(":");
            reveal_strlit(" UTC");
            assert(v@ =~= spec_datetime_display(*self));
        }
        string_from_chars(&v)
    }
}

/// Push a separator and a zero-padded number.
fn push_sep_pad(v: &mut Vec<char>, sep: char, n: u32, width: usize)
    requires
        width <= 8,
    ensures
        final(v)@ == old(v)@ + seq![sep] + spec_pad(n as nat, width as nat),
{
    let ghost pre = v@;
    v.push(sep);
    let p = padded(n, width);
    let mut i: usize = 0;
    while i < p.len()
        invariant
            i <= p@.len(),
            p@ == spec_pad(n as nat, width as nat),
            v@ == pre + seq![sep] + p@.take(i as int),
        decreases p@.len() - i,
    {
        v.push(p[i]);
        proof {
            assert(v@ =~= pre + seq![sep] + p@.take(i as int + 1));
        }
        i = i + 1;
    }
    proof {
        assert(p@.take(p@.len() as int) =~= p@);
        assert(v@ =~= pre + seq![sep] + p@);
    }
}

} // verus!
