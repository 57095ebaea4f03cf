//! Points in time and identifiers drawn from the clock.

use crate::text;
use chrono::DateTime;
use chrono::Utc;
use std::time::Duration;
use std::time::SystemTime;
use std::time::SystemTimeError;
use vstd::prelude::*;
use vstd::string::StringExecFns;

verus! {

/// The pairs of seconds since 1970 and nanoseconds that name a point in time:
/// the years from 262144 BCE to 262142 CE, with nanoseconds beyond a full
/// second only in the last second of a minute (a leap second).
pub open spec fn is_time(secs: int, nanos: int) -> bool {
    &&& -8_334_601_228_800 <= secs <= 8_210_266_876_799
    &&& (0 <= nanos < 1_000_000_000 || (1_000_000_000 <= nanos < 2_000_000_000 && secs % 60 == 59))
}

/// A point in time (UTC).
#[derive(Debug, Clone, Copy)]
pub struct Timestamp {
    secs: i64,
    nanos: u32,
}

/// The text of a point in time in UTC, as chrono's `DateTime::format` writes
/// it for a strftime pattern.
pub uninterp spec fn utc_text(secs: i64, nanos: u32, pattern: Seq<char>) -> Seq<char>;

/// A number below 100, with two digits.
pub open spec fn two_digits(n: int) -> Seq<char> {
    seq![text::digit((n / 10) as nat), text::digit((n % 10) as nat)]
}

/// The time of day in UTC, `HH:MM:SS`. A leap second is the second 60.
pub open spec fn time_of_day(secs: int, nanos: int) -> Seq<char> {
    two_digits(secs % 86400 / 3600) + ":"@ + two_digits(secs % 3600 / 60) + ":"@ + two_digits(
        secs % 60 + nanos / 1_000_000_000,
    )
}

/// Day and time of day in UTC, `MM-DD HH:MM:SS`; the day is as chrono writes
/// it.
pub open spec fn day_and_time(secs: i64, nanos: u32) -> Seq<char> {
    utc_text(secs, nanos, "%m-%d"@) + " "@ + time_of_day(secs as int, nanos as int)
}

/// chrono's `DateTime::from_timestamp` and `DateTime::format` on a valid point
/// in time, for the two patterns that are used here.
///
/// Claimed: the text is a function of the point in time and the pattern; hours,
/// minutes and seconds are written with two digits each; and the longer text is
/// the day's text, a space and the time of day. How the day is written is left
/// unsaid.
#[verifier::external_body]
fn format_utc(secs: i64, nanos: u32, pattern: &str) -> (r: String)
    requires
        is_time(secs as int, nanos as int),
        pattern@ == "%H:%M:%S"@ || pattern@ == "%m-%d %H:%M:%S"@,
    ensures
        r@ == utc_text(secs, nanos, pattern@),
        pattern@ == "%H:%M:%S"@ ==> r@ == time_of_day(secs as int, nanos as int),
        pattern@ == "%m-%d %H:%M:%S"@ ==> r@ == day_and_time(secs, nanos),
{
    DateTime::<Utc>::from_timestamp(secs, nanos).unwrap().format(pattern).to_string()
}

/// chrono's `Utc::now`, as seconds since 1970 and nanoseconds. Claimed: the
/// reading is a point in time, and never a leap second. What the clock shows is
/// left unsaid; the call does not return when the system clock stands before
/// 1970.
#[verifier::external_body]
fn read_clock() -> (r: (i64, u32))
    ensures
        is_time(r.0 as int, r.1 as int),
        r.1 < 1_000_000_000,
{
    let now = Utc::now();
    (now.timestamp(), now.timestamp_subsec_nanos())
}

impl Timestamp {
    #[verifier::type_invariant]
    spec fn inv(&self) -> bool {
        is_time(self.secs as int, self.nanos as int)
    }

    /// Seconds since 1970-01-01 00:00:00 UTC.
    pub closed spec fn spec_secs(&self) -> i64 {
        self.secs
    }

    /// Nanoseconds since the last full second.
    pub closed spec fn spec_nanos(&self) -> u32 {
        self.nanos
    }

    /// The point in time at `secs` seconds and `nanos` nanoseconds, if there
    /// is one.
    pub fn from_parts(secs: i64, nanos: u32) -> (r: Option<Timestamp>)
        ensures
            r is Some <==> is_time(secs as int, nanos as int),
            r matches Some(t) ==> t.spec_secs() == secs && t.spec_nanos() == nanos,
    {
        if secs < -8_334_601_228_800 || secs > 8_210_266_876_799 {
            return None;
        }
        if nanos >= 1_000_000_000 {
            if nanos >= 2_000_000_000 {
                return None;
            }
            let shifted: u64 = (secs + 8_334_601_228_800) as u64;
            assert(shifted % 60 == (secs as int) % 60);
            if shifted % 60 != 59 {
                return None;
            }
        }
        Some(Timestamp { secs, nanos })
    }

    pub fn secs(&self) -> (r: i64)
        ensures
            r == self.spec_secs(),
    {
        self.secs
    }

    pub fn nanos(&self) -> (r: u32)
        ensures
            r == self.spec_nanos(),
    {
        self.nanos
    }

    /// The current time. What the clock shows is not known beforehand, but it
    /// is never a leap second.
    pub fn now() -> (t: Timestamp)
        ensures
            is_time(t.spec_secs() as int, t.spec_nanos() as int),
            t.spec_nanos() < 1_000_000_000,
    {
        let (secs, nanos) = read_clock();
        Timestamp { secs, nanos }
    }

    /// Time of day, `HH:MM:SS` in UTC.
    pub fn time_text(&self) -> (r: String)
        ensures
            r@ == time_of_day(self.spec_secs() as int, self.spec_nanos() as int),
    {
        proof {
            use_type_invariant(self);
        }
        format_utc(self.secs, self.nanos, "%H:%M:%S")
    }

    /// Day and time of day, `MM-DD HH:MM:SS` in UTC.
    pub fn day_time_text(&self) -> (r: String)
        ensures
            r@ == day_and_time(self.spec_secs(), self.spec_nanos()),
    {
        proof {
            use_type_invariant(self);
        }
        format_utc(self.secs, self.nanos, "%m-%d %H:%M:%S")
    }
}

// ── Identifiers ────────────────────────────────────────────────────────────

/// `std::time::SystemTime`, carried through only.
#[verifier::external_type_specification]
#[verifier::external_body]
pub struct ExSystemTime(SystemTime);

/// `std::time::SystemTimeError`, carried through only.
#[verifier::external_type_specification]
#[verifier::external_body]
pub struct ExSystemTimeError(SystemTimeError);

/// `SystemTime::now`: nothing is claimed of what the clock shows.
pub assume_specification[ SystemTime::now ]() -> SystemTime;

/// `SystemTime::duration_since`: nothing is claimed of the two readings.
pub assume_specification[ SystemTime::duration_since ](
    this: &SystemTime,
    earlier: SystemTime,
) -> Result<Duration, SystemTimeError>;

/// `Duration::subsec_nanos`: the fractional part is below one second.
pub assume_specification[ Duration::subsec_nanos ](this: &Duration) -> (n: u32)
    ensures
        n < 1_000_000_000,
;

/// The constant `SystemTime::UNIX_EPOCH`.
#[verifier::external_body]
fn unix_epoch() -> SystemTime {
    SystemTime::UNIX_EPOCH
}

/// The identifier for a reading of the clock's nanoseconds: five groups of
/// hexadecimal digits, with the version digit 4 and the variant bits 10.
pub open spec fn uuid_text(t: u32) -> Seq<char> {
    text::hex(t as nat, 8) + "-"@ + text::hex(((t >> 16) & 0xffff) as nat, 4) + "-4"@ + text::hex(
        ((t >> 4) & 0x0fff) as nat,
        3,
    ) + "-"@ + text::hex((0x8000 | ((t >> 2) & 0x3fff)) as nat, 4) + "-"@ + text::hex(
        (t * 0x1000000) as nat,
        12,
    )
}

/// The identifier for a reading of the clock's nanoseconds.
pub fn uuid_from_nanos(t: u32) -> (s: String)
    ensures
        s@ == uuid_text(t),
{
    let mut s = String::new();
    text::push_hex(&mut s, t as u64, 8);
    s.append("-");
    text::push_hex(&mut s, ((t >> 16) & 0xffff) as u64, 4);
    s.append("-4");
    text::push_hex(&mut s, ((t >> 4) & 0x0fff) as u64, 3);
    s.append("-");
    text::push_hex(&mut s, (0x8000 | ((t >> 2) & 0x3fff)) as u64, 4);
    s.append("-");
    text::push_hex(&mut s, t as u64 * 0x1000000, 12);
    assert(s@ =~= uuid_text(t));
    s
}

/// An identifier drawn from the clock.
pub fn uuid_v4() -> (s: String)
    ensures
        exists|t: u32| t < 1_000_000_000 && s@ == #[trigger] uuid_text(t),
{
    let t: u32 = match SystemTime::now().duration_since(unix_epoch()) {
        Ok(d) => d.subsec_nanos(),
        Err(_) => 0,
    };
    uuid_from_nanos(t)
}

/// An identifier is five groups of hexadecimal digits separated by dashes: 8,
/// 4, 4 and 4 digits, then at least 12. The third group starts with the
/// version 4, the fourth with the variant (8, 9, a or b).
pub proof fn law_uuid_shape(t: u32)
    requires
        t < 1_000_000_000,
    ensures
        uuid_text(t).len() >= 36,
        uuid_text(t)[8] == '-' && uuid_text(t)[13] == '-' && uuid_text(t)[18] == '-' && uuid_text(
            t,
        )[23] == '-',
        uuid_text(t)[14] == '4',
        uuid_text(t)[19] == '8' || uuid_text(t)[19] == '9' || uuid_text(t)[19] == 'a' || uuid_text(
            t,
        )[19] == 'b',
        forall|i: int|
            0 <= i < uuid_text(t).len() && i != 8 && i != 13 && i != 18 && i != 23
                ==> text::is_hex_digit(#[trigger] uuid_text(t)[i]),
{
    let b = (t >> 16) & 0xffff;
    let c = (t >> 4) & 0x0fff;
    let d = 0x8000 | ((t >> 2) & 0x3fff);
    assert(b <= 0xffff && c <= 0x0fff && 0x8000 <= d <= 0xbfff) by (bit_vector)
        requires
            b == (t >> 16) & 0xffff,
            c == (t >> 4) & 0x0fff,
            d == 0x8000u32 | ((t >> 2) & 0x3fff),
    ;
    reveal_strlit("-");
    reveal_strlit("-4");
    let g1 = text::hex(t as nat, 8);
    let g2 = text::hex(b as nat, 4);
    let g3 = text::hex(c as nat, 3);
    let g4 = text::hex(d as nat, 4);
    let g5 = text::hex((t * 0x1000000) as nat, 12);
    assert(g1.len() == 8 && g2.len() == 4 && g3.len() == 3 && g4.len() == 4 && g4[0] == text::digit(
        (d / 4096) as nat,
    )) by {
        reveal_with_fuel(text::hex, 9);
    }
    text::lemma_hex_len((t * 0x1000000) as nat, 12);
    text::lemma_hex_digits(t as nat, 8);
    text::lemma_hex_digits(b as nat, 4);
    text::lemma_hex_digits(c as nat, 3);
    text::lemma_hex_digits(d as nat, 4);
    text::lemma_hex_digits((t * 0x1000000) as nat, 12);
    let u = uuid_text(t);
    assert(u =~= g1 + "-"@ + g2 + "-4"@ + g3 + "-"@ + g4 + "-"@ + g5);
    assert forall|i: int| 0 <= i < u.len() && i != 8 && i != 13 && i != 18 && i
        != 23 implies text::is_hex_digit(#[trigger] u[i]) by {
        if i < 8 {
            assert(u[i] == g1[i]);
        } else if i < 13 {
            assert(u[i] == g2[i - 9]);
        } else if i == 14 {
        } else if i < 18 {
            assert(u[i] == g3[i - 15]);
        } else if i < 23 {
            assert(u[i] == g4[i - 19]);
        } else {
            assert(u[i] == g5[i - 24]);
        }
    }
    assert(u[19] == g4[0]);
}

/// The time of day counts the seconds since midnight: hours, minutes and
/// seconds make them up again.
pub proof fn law_time_of_day(secs: int, nanos: int)
    requires
        0 <= nanos < 1_000_000_000,
    ensures
        ({
            let t = time_of_day(secs, nanos);
            let hours = text::number_of(t.take(2), 10);
            let minutes = text::number_of(t.subrange(3, 5), 10);
            let seconds = text::number_of(t.subrange(6, 8), 10);
            &&& t.len() == 8 && t[2] == ':' && t[5] == ':'
            &&& 3600 * hours + 60 * minutes + seconds == secs % 86400
            &&& 0 <= hours < 24 && 0 <= minutes < 60 && 0 <= seconds < 60
        }),
{
    reveal_strlit(":");
    let h = secs % 86400 / 3600;
    let m = secs % 3600 / 60;
    let s = secs % 60;
    lemma_two_digits(h);
    lemma_two_digits(m);
    lemma_two_digits(s);
    let t = time_of_day(secs, nanos);
    assert(t.take(2) =~= two_digits(h));
    assert(t.subrange(3, 5) =~= two_digits(m));
    assert(t.subrange(6, 8) =~= two_digits(s));
    assert(3600 * h + 60 * m + s == secs % 86400);
}

proof fn lemma_two_digits(n: int)
    requires
        0 <= n < 100,
    ensures
        two_digits(n).len() == 2,
        text::number_of(two_digits(n), 10) == n,
{
    reveal_with_fuel(text::number_of, 3);
    let s = two_digits(n);
    assert(s.drop_last() =~= seq![s[0]]);
    assert(s.drop_last().drop_last() =~= Seq::empty());
}

/// Different readings of the clock give different identifiers: the first group
/// is the reading itself.
pub proof fn law_uuids_differ(t: u32)
    requires
        t < 1_000_000_000,
    ensures
        text::number_of(uuid_text(t).take(8), 16) == t,
{
    reveal_strlit("-");
    reveal_strlit("-4");
    text::law_hexadecimal(t as nat, 8);
    assert(text::hex(t as nat, 8).len() == 8) by {
        reveal_with_fuel(text::hex, 9);
    }
    assert(uuid_text(t).take(8) =~= text::hex(t as nat, 8));
}

/// Every group of an identifier is a part of the reading: its upper half, its
/// bits from the fourth on, and its bits from the second on behind the variant;
/// the last group is the reading 24 bits higher.
pub proof fn law_uuid_groups(t: u32)
    requires
        t < 1_000_000_000,
    ensures
        text::number_of(uuid_text(t).subrange(9, 13), 16) == t as int / 0x10000,
        text::number_of(uuid_text(t).subrange(15, 18), 16) == t as int / 16 % 0x1000,
        text::number_of(uuid_text(t).subrange(19, 23), 16) == 0x8000 + t as int / 4 % 0x4000,
        text::number_of(uuid_text(t).skip(24), 16) == t * 0x1000000,
{
    let b = (t >> 16) & 0xffff;
    let c = (t >> 4) & 0x0fff;
    let d = 0x8000 | ((t >> 2) & 0x3fff);
    assert(b == t / 0x10000 && c == t / 16 % 0x1000 && d == 0x8000 + t / 4 % 0x4000) by (bit_vector)
        requires
            b == (t >> 16) & 0xffff,
            c == (t >> 4) & 0x0fff,
            d == 0x8000u32 | ((t >> 2) & 0x3fff),
    ;
    reveal_strlit("-");
    reveal_strlit("-4");
    let g1 = text::hex(t as nat, 8);
    let g2 = text::hex(b as nat, 4);
    let g3 = text::hex(c as nat, 3);
    let g4 = text::hex(d as nat, 4);
    let g5 = text::hex((t * 0x1000000) as nat, 12);
    text::law_hexadecimal(b as nat, 4);
    text::law_hexadecimal(c as nat, 3);
    text::law_hexadecimal(d as nat, 4);
    text::law_hexadecimal((t * 0x1000000) as nat, 12);
    assert(g1.len() == 8 && g2.len() == 4 && g3.len() == 3 && g4.len() == 4) by {
        reveal_with_fuel(text::hex, 9);
    }
    let u = uuid_text(t);
    assert(u =~= g1 + "-"@ + g2 + "-4"@ + g3 + "-"@ + g4 + "-"@ + g5);
    assert(u.subrange(9, 13) =~= g2);
    assert(u.subrange(15, 18) =~= g3);
    assert(u.subrange(19, 23) =~= g4);
    assert(u.skip(24) =~= g5);
}

} // verus!
