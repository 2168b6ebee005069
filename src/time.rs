//! UTC timestamps: parsed from RFC 3339 text, shown at millisecond precision.
use crate::style::decimal;
use crate::text::{append, nat_text, push_char};
use vstd::prelude::*;

verus! {

/// A UTC date and time of day. A leap second shows as a nanosecond count of a second or more.
#[derive(Clone, Copy, Debug, PartialEq, Eq, Structural)]
pub struct Timestamp {
    pub year: i32,
    pub month: u32,
    pub day: u32,
    pub hour: u32,
    pub minute: u32,
    pub second: u32,
    pub nanosecond: u32,
}

/// The UTC time that a text denotes under `chrono`'s relaxed RFC 3339 reading, if any.
pub uninterp spec fn utc_time(text: Seq<char>) -> Option<Timestamp>;

impl Timestamp {
    pub open spec fn wf(self) -> bool {
        &&& 1 <= self.month <= 12
        &&& 1 <= self.day <= 31
        &&& self.hour < 24
        &&& self.minute < 60
        &&& self.second < 60
        &&& self.nanosecond < 2_000_000_000
    }
}

/// Relies on `chrono`'s `FromStr for DateTime<Utc>` (relaxed RFC 3339, converted to UTC), which
/// depends on the text alone, and on the documented ranges of its `Datelike` and `Timelike`
/// accessors.
#[verifier::external_body]
pub fn parse_utc(text: &str) -> (r: Option<Timestamp>)
    ensures
        r == utc_time(text@),
        r matches Some(t) ==> t.wf(),
{
    let t = text.parse::<chrono::DateTime<chrono::Utc>>().ok()?;
    Some(Timestamp {
        year: chrono::Datelike::year(&t),
        month: chrono::Datelike::month(&t),
        day: chrono::Datelike::day(&t),
        hour: chrono::Timelike::hour(&t),
        minute: chrono::Timelike::minute(&t),
        second: chrono::Timelike::second(&t),
        nanosecond: chrono::Timelike::nanosecond(&t),
    })
}

/// `t` with zeros in front, to at least `w` characters.
pub open spec fn zero_pad(t: Seq<char>, w: nat) -> Seq<char> {
    if t.len() >= w {
        t
    } else {
        Seq::new((w - t.len()) as nat, |i: int| '0') + t
    }
}

pub open spec fn padded(n: nat, w: nat) -> Seq<char> {
    zero_pad(nat_text(n), w)
}

/// The year: four digits, with a sign when outside 0 to 9999.
pub open spec fn year_text(y: int) -> Seq<char> {
    if y < 0 {
        seq!['-'] + padded((-y) as nat, 4)
    } else if y > 9999 {
        seq!['+'] + nat_text(y as nat)
    } else {
        padded(y as nat, 4)
    }
}

/// `HH:MM:SS.mmmZ`.
pub open spec fn clock_text(t: Timestamp) -> Seq<char> {
    padded(t.hour as nat, 2) + seq![':'] + padded(t.minute as nat, 2) + seq![':'] + padded(
        (t.second + t.nanosecond / 1_000_000_000) as nat,
        2,
    ) + seq!['.'] + padded((t.nanosecond / 1_000_000 % 1000) as nat, 3) + seq!['Z']
}

/// `YYYY-MM-DD HH:MM:SS.mmmZ`.
pub open spec fn date_time_text(t: Timestamp) -> Seq<char> {
    year_text(t.year as int) + seq!['-'] + padded(t.month as nat, 2) + seq!['-'] + padded(
        t.day as nat,
        2,
    ) + seq![' '] + clock_text(t)
}

fn push_padded(out: &mut String, n: u64, w: usize)
    ensures
        final(out)@ == old(out)@ + padded(n as nat, w as nat),
{
    let d = decimal(n);
    let len = crate::text::text_len(d.as_str());
    let mut k: usize = len;
    let ghost start = out@;
    while k < w
        invariant
            len == nat_text(n as nat).len(),
            len <= k <= w || (k == len && len >= w),
            out@ == start + Seq::new((k - len) as nat, |i: int| '0'),
        decreases w - k,
    {
        push_char(out, '0');
        assert(out@ =~= start + Seq::new((k + 1 - len) as nat, |i: int| '0'));
        k = k + 1;
    }
    append(out, d.as_str());
    assert(final(out)@ =~= old(out)@ + padded(n as nat, w as nat));
}

impl Timestamp {
    /// The time of day as `HH:MM:SS.mmmZ`.
    pub fn clock(&self) -> (r: String)
        requires
            self.wf(),
        ensures
            r@ == clock_text(*self),
    {
        let mut s = String::new();
        push_padded(&mut s, self.hour as u64, 2);
        push_char(&mut s, ':');
        push_padded(&mut s, self.minute as u64, 2);
        push_char(&mut s, ':');
        push_padded(&mut s, (self.second + self.nanosecond / 1_000_000_000) as u64, 2);
        push_char(&mut s, '.');
        push_padded(&mut s, (self.nanosecond / 1_000_000 % 1000) as u64, 3);
        push_char(&mut s, 'Z');
        assert(s@ =~= clock_text(*self));
        s
    }

    /// The date and time as `YYYY-MM-DD HH:MM:SS.mmmZ`.
    pub fn date_time(&self) -> (r: String)
        requires
            self.wf(),
        ensures
            r@ == date_time_text(*self),
    {
        let mut s = String::new();
        let y = self.year as i64;
        if y < 0 {
            push_char(&mut s, '-');
            push_padded(&mut s, (-y) as u64, 4);
        } else if y > 9999 {
            push_char(&mut s, '+');
            let d = decimal(y as u64);
            append(&mut s, d.as_str());
        } else {
            push_padded(&mut s, y as u64, 4);
        }
        assert(s@ =~= year_text(self.year as int));
        push_char(&mut s, '-');
        push_padded(&mut s, self.month as u64, 2);
        push_char(&mut s, '-');
        push_padded(&mut s, self.day as u64, 2);
        push_char(&mut s, ' ');
        let c = self.clock();
        append(&mut s, c.as_str());
        assert(s@ =~= date_time_text(*self));
        s
    }
}

} // verus!
