//! The assistant chat panel: its width while dragged, timestamps of
//! messages (a small ISO 8601 reader and relative times), and the
//! decisions of the reply polling.

use vstd::prelude::*;
use crate::num::{nat_dec, parse_unsigned};
use crate::text::{chars_of, first_index_of, push_all, push_str, split_chars, split_on, string_of, trim, trim_exec};

verus! {

// ---------------------------------------------------------------------------
// Panel width
// ---------------------------------------------------------------------------

/// The narrowest the panel can be dragged.
pub const CHAT_MIN_WIDTH: i32 = 280;

/// The widest the panel can be dragged.
pub const CHAT_MAX_WIDTH: i32 = 800;

/// The width the panel starts with.
pub const CHAT_DEFAULT_WIDTH: i32 = 380;

/// The panel width while dragging: the width at the start of the drag
/// plus how far the pointer moved left, kept within the bounds.
pub fn drag_width(start_width: i32, start_x: i32, mouse_x: i32) -> (r: i32)
    requires
        i32::MIN <= start_x - mouse_x <= i32::MAX,
        i32::MIN <= start_width + (start_x - mouse_x) <= i32::MAX,
    ensures
        r == (if start_width + (start_x - mouse_x) < CHAT_MIN_WIDTH {
            CHAT_MIN_WIDTH as int
        } else if start_width + (start_x - mouse_x) > CHAT_MAX_WIDTH {
            CHAT_MAX_WIDTH as int
        } else {
            start_width + (start_x - mouse_x)
        }),
        CHAT_MIN_WIDTH <= r <= CHAT_MAX_WIDTH,
{
    let w = start_width + (start_x - mouse_x);
    if w < CHAT_MIN_WIDTH {
        CHAT_MIN_WIDTH
    } else if w > CHAT_MAX_WIDTH {
        CHAT_MAX_WIDTH
    } else {
        w
    }
}

// ---------------------------------------------------------------------------
// Timestamps
// ---------------------------------------------------------------------------

/// A Gregorian leap year.
pub open spec fn leap(y: nat) -> bool {
    (y % 4 == 0 && y % 100 != 0) || y % 400 == 0
}

/// Whether `y` is a leap year.
pub fn is_leap_year(y: u64) -> (r: bool)
    ensures
        r == leap(y as nat),
{
    (y % 4 == 0 && y % 100 != 0) || y % 400 == 0
}

/// Days in year `y`.
pub open spec fn year_days(y: nat) -> nat {
    if leap(y) { 366 } else { 365 }
}

/// Days from 1970 to the start of year `y` (0 for earlier years).
pub open spec fn days_before_year(y: nat) -> nat
    decreases y,
{
    if y <= 1970 { 0 } else { days_before_year((y - 1) as nat) + year_days((y - 1) as nat) }
}

/// Days in month `m` (0-based) of year `y`; months past December count 30.
pub open spec fn month_days(y: nat, m: nat) -> nat {
    if m == 1 {
        if leap(y) { 29 } else { 28 }
    } else if m == 3 || m == 5 || m == 8 || m == 10 {
        30
    } else if m < 12 {
        31
    } else {
        30
    }
}

/// Days of the first `k` months of year `y`.
pub open spec fn days_before_month(y: nat, k: nat) -> nat
    decreases k,
{
    if k == 0 { 0 } else { days_before_month(y, (k - 1) as nat) + month_days(y, (k - 1) as nat) }
}

/// `a - 1`, at least 0.
pub open spec fn pred_sat(a: nat) -> nat {
    if a > 0 { (a - 1) as nat } else { 0 }
}

/// The characters before the first `+` or `Z`.
pub open spec fn before_offset(s: Seq<char>) -> Seq<char>
    decreases s.len(),
{
    if s.len() == 0 || s[0] == '+' || s[0] == 'Z' {
        Seq::empty()
    } else {
        seq![s[0]] + before_offset(s.drop_first())
    }
}

/// The time of day part: trailing `Z`s removed, then up to the first `+`,
/// then up to the first `-`.
pub open spec fn time_text(t: Seq<char>) -> Seq<char> {
    split_on(split_on(crate::nodes::strip_end(t, "Z"@), '+')[0], '-')[0]
}

/// The fields of an ISO 8601 timestamp `YYYY-MM-DDTHH:MM[:SS[.fff]][Z|±hh:mm]`
/// (year, month, day, hour, minute, second), if it has that shape; the
/// offset is ignored.
pub open spec fn iso_fields(iso: Seq<char>) -> Option<(nat, nat, nat, nat, nat, nat)> {
    let clean = trim(iso);
    let dt = split_on(clean, 'T');
    let date = split_on(dt[0], '-');
    let max = u64::MAX as nat;
    if split_on(before_offset(clean), '-').len() < 3 || dt.len() != 2 || date.len() != 3 {
        None
    } else {
        let tp = split_on(time_text(dt[1]), ':');
        match (parse_unsigned(date[0], max), parse_unsigned(date[1], max), parse_unsigned(date[2], max)) {
            (Some(y), Some(mo), Some(d)) => if tp.len() < 2 {
                None
            } else {
                match (parse_unsigned(tp[0], max), parse_unsigned(tp[1], max)) {
                    (Some(h), Some(mi)) => {
                        let sec = if tp.len() > 2 {
                            match parse_unsigned(split_on(tp[2], '.')[0], max) {
                                Some(x) => x,
                                None => 0,
                            }
                        } else {
                            0
                        };
                        Some((y, mo, d, h, mi, sec))
                    },
                    _ => None,
                }
            },
            _ => None,
        }
    }
}

/// Unix seconds of the fields, ignoring leap seconds and offsets.
pub open spec fn fields_seconds(f: (nat, nat, nat, nat, nat, nat)) -> nat {
    let (y, mo, d, h, mi, s) = f;
    (days_before_year(y) + days_before_month(y, pred_sat(mo)) + pred_sat(d)) * 86400 + h * 3600 + mi * 60 + s
}

/// What `parse_iso_timestamp` yields: `None` where the arithmetic
/// overflows (the parser panics there), else the Unix seconds, if the text
/// has the shape.
pub open spec fn iso_seconds(iso: Seq<char>) -> Option<Option<nat>> {
    match iso_fields(iso) {
        None => Some(None),
        Some(f) => if fields_seconds(f) <= u64::MAX { Some(Some(fields_seconds(f))) } else { None },
    }
}

proof fn lemma_div_step(n: int, k: int)
    requires
        n >= 1,
        k > 0,
    ensures
        n / k - (n - 1) / k == (if n % k == 0 { 1int } else { 0int }),
{
    vstd::arithmetic::div_mod::lemma_fundamental_div_mod(n, k);
    vstd::arithmetic::div_mod::lemma_fundamental_div_mod(n - 1, k);
    let q = n / k;
    let r = n % k;
    let q1 = (n - 1) / k;
    let r1 = (n - 1) % k;
    assert(0 <= r < k && 0 <= r1 < k);
    assert(k * q + r == k * q1 + r1 + 1);
    if r == 0 {
        assert(q - q1 == 1) by (nonlinear_arith)
            requires
                k * q + r == k * q1 + r1 + 1,
                r == 0,
                0 <= r1 < k,
        ;
    } else {
        assert(q - q1 == 0) by (nonlinear_arith)
            requires
                k * q + r == k * q1 + r1 + 1,
                0 <= r1 < k,
                0 < r < k,
        ;
    }
}

proof fn lemma_leap_divisors(n: int)
    ensures
        n % 400 == 0 ==> n % 100 == 0,
        n % 100 == 0 ==> n % 4 == 0,
{
}

/// Days from 1970 to the start of year `y` count 365 a year plus one for
/// each Gregorian leap year before `y` (divisible by 4, not by 100 unless
/// by 400).
proof fn lemma_days_before_year_closed(y: nat)
    requires
        y >= 1970,
    ensures
        days_before_year(y) == 365 * (y - 1970) + ((y - 1) / 4 - (y - 1) / 100 + (y - 1) / 400 - 477),
    decreases y,
{
    if y > 1970 {
        lemma_days_before_year_closed((y - 1) as nat);
        let n: int = y - 1;
        lemma_div_step(n, 4);
        lemma_div_step(n, 100);
        lemma_div_step(n, 400);
        lemma_leap_divisors(n);
    }
}

/// Days before each month of a year: January 0, February 31, and from
/// March on 59 (60 in a leap year) plus `(153 * (month - 3) + 2) / 5`.
proof fn lemma_days_before_month_closed(y: nat, mo: nat)
    requires
        1 <= mo <= 12,
    ensures
        days_before_month(y, (mo - 1) as nat) == (if mo == 1 { 0 } else if mo == 2 { 31 } else {
            59 + (if (y % 4 == 0 && y % 100 != 0) || y % 400 == 0 { 1int } else { 0int }) + (153 * (mo - 3) + 2) / 5
        }),
{
    reveal_with_fuel(days_before_month, 13);
}

/// The seconds of a timestamp `y-mo-dTh:mi:sZ` (from 1970, a month from 1
/// to 12, a day from 1) are the Gregorian days since 1970-01-01 times
/// 86400 plus the time of day: 365 days a year, one more for each leap
/// year before, and the month lengths 31, 28 (29), 31, 30, 31, 30, 31, 31,
/// 30, 31, 30, 31 before the day.
pub proof fn lemma_iso_civil_seconds(y: nat, mo: nat, d: nat, h: nat, mi: nat, s: nat)
    requires
        y >= 1970,
        1 <= mo <= 12,
        d >= 1,
    ensures
        fields_seconds((y, mo, d, h, mi, s)) == (365 * (y - 1970) + ((y - 1) / 4 - (y - 1) / 100 + (y - 1) / 400 - 477)
            + (if mo == 1 { 0 } else if mo == 2 { 31 } else {
                59 + (if (y % 4 == 0 && y % 100 != 0) || y % 400 == 0 { 1int } else { 0int }) + (153 * (mo - 3) + 2) / 5
            }) + d - 1) * 86400 + h * 3600 + mi * 60 + s,
{
    lemma_days_before_year_closed(y);
    lemma_days_before_month_closed(y, mo);
}

/// What `try_parse_iso_timestamp` reads from a timestamp with the fields
/// `y-mo-dTh:mi:s` (from 1970, a month from 1 to 12, a day from 1): the
/// Gregorian days since 1970-01-01 times 86400 plus the time of day.
pub proof fn lemma_iso_seconds_civil(iso: Seq<char>, y: nat, mo: nat, d: nat, h: nat, mi: nat, s: nat)
    requires
        iso_fields(iso) == Some((y, mo, d, h, mi, s)),
        y >= 1970,
        1 <= mo <= 12,
        d >= 1,
    ensures
        ({
            let secs = (365 * (y - 1970) + ((y - 1) / 4 - (y - 1) / 100 + (y - 1) / 400 - 477)
                + (if mo == 1 { 0 } else if mo == 2 { 31 } else {
                    59 + (if (y % 4 == 0 && y % 100 != 0) || y % 400 == 0 { 1int } else { 0int }) + (153 * (mo - 3) + 2) / 5
                }) + d - 1) * 86400 + h * 3600 + mi * 60 + s;
            &&& secs <= u64::MAX ==> iso_seconds(iso) == Some(Some(secs as nat))
            &&& secs > u64::MAX ==> iso_seconds(iso) is None
        }),
{
    lemma_iso_civil_seconds(y, mo, d, h, mi, s);
}

proof fn lemma_days_before_year_mono(a: nat, b: nat)
    requires
        a <= b,
    ensures
        days_before_year(a) <= days_before_year(b),
    decreases b,
{
    if a < b {
        lemma_days_before_year_mono(a, (b - 1) as nat);
    }
}

proof fn lemma_days_before_month_mono(y: nat, a: nat, b: nat)
    requires
        a <= b,
    ensures
        days_before_month(y, a) <= days_before_month(y, b),
    decreases b,
{
    if a < b {
        lemma_days_before_month_mono(y, a, (b - 1) as nat);
    }
}

fn parse_u64_chars(v: &Vec<char>) -> (r: Option<u64>)
    ensures
        match r {
            Some(x) => parse_unsigned(v@, u64::MAX as nat) == Some(x as nat),
            None => parse_unsigned(v@, u64::MAX as nat) is None,
        },
{
    crate::num::parse_u64(v.as_slice())
}

fn before_offset_exec(s: &[char]) -> (r: Vec<char>)
    ensures
        r@ == before_offset(s@),
{
    let mut r: Vec<char> = Vec::new();
    let mut i: usize = 0;
    assert(s@.skip(0) =~= s@);
    while i < s.len() && s[i] != '+' && s[i] != 'Z'
        invariant
            i <= s@.len(),
            before_offset(s@) == r@ + before_offset(s@.skip(i as int)),
        decreases s@.len() - i,
    {
        assert(s@.skip(i as int).drop_first() =~= s@.skip(i + 1));
        assert(s@.skip(i as int)[0] == s@[i as int]);
        let ghost old_r = r@;
        r.push(s[i]);
        assert(old_r + (seq![s@[i as int]] + before_offset(s@.skip(i + 1))) =~= r@ + before_offset(s@.skip(i + 1)));
        i += 1;
    }
    proof {
        if i < s@.len() {
            assert(s@.skip(i as int)[0] == s@[i as int]);
        }
        assert(before_offset(s@.skip(i as int)) =~= Seq::<char>::empty());
        assert(r@ + Seq::<char>::empty() =~= r@);
    }
    r
}

proof fn lemma_total_bound(f: (nat, nat, nat, nat, nat, nat), total_days: nat)
    requires
        total_days == days_before_year(f.0) + days_before_month(f.0, pred_sat(f.1)) + pred_sat(f.2),
    ensures
        fields_seconds(f) >= total_days * 86400,
        total_days * 86400 >= total_days,
{
    assert(total_days * 86400 >= total_days) by (nonlinear_arith);
}

/// Parses an ISO 8601 timestamp (`2025-01-15T10:30:00Z`, with optional
/// fraction or offset) into Unix seconds: `Some(None)` where the text does
/// not have the shape, `None` where the seconds overflow `u64` (where
/// `parse_iso_timestamp` would panic).
pub fn try_parse_iso_timestamp(iso: &str) -> (r: Option<Option<u64>>)
    ensures
        match r {
            Some(Some(t)) => iso_seconds(iso@) == Some(Some(t as nat)),
            Some(None) => iso_seconds(iso@) == Some(None::<nat>),
            None => iso_seconds(iso@) is None,
        },
{
    let clean = trim_exec(chars_of(iso).as_slice());
    let pre = before_offset_exec(clean.as_slice());
    if split_chars(pre.as_slice(), '-').len() < 3 {
        return Some(None);
    }
    let dt = split_chars(clean.as_slice(), 'T');
    if dt.len() != 2 {
        return Some(None);
    }
    let date = split_chars(dt[0].as_slice(), '-');
    if date.len() != 3 {
        return Some(None);
    }
    proof {
        assert(dt@[0]@ == split_on(clean@, 'T')[0]);
        assert(dt@[1]@ == split_on(clean@, 'T')[1]);
        assert(date@[0]@ == split_on(dt@[0]@, '-')[0]);
        assert(date@[1]@ == split_on(dt@[0]@, '-')[1]);
        assert(date@[2]@ == split_on(dt@[0]@, '-')[2]);
    }
    let year = match parse_u64_chars(&date[0]) {
        Some(v) => v,
        None => {
            return Some(None);
        },
    };
    let month = match parse_u64_chars(&date[1]) {
        Some(v) => v,
        None => {
            return Some(None);
        },
    };
    let day = match parse_u64_chars(&date[2]) {
        Some(v) => v,
        None => {
            return Some(None);
        },
    };
    let stripped = crate::nodes::strip_end_exec(dt[1].as_slice(), "Z");
    let plus = split_chars(stripped.as_slice(), '+');
    let minus = split_chars(plus[0].as_slice(), '-');
    let tp = split_chars(minus[0].as_slice(), ':');
    proof {
        assert(plus@[0]@ == split_on(stripped@, '+')[0]);
        assert(minus@[0]@ == split_on(plus@[0]@, '-')[0]);
        assert(minus@[0]@ == time_text(dt@[1]@));
    }
    if tp.len() < 2 {
        return Some(None);
    }
    proof {
        assert(tp@[0]@ == split_on(minus@[0]@, ':')[0]);
        assert(tp@[1]@ == split_on(minus@[0]@, ':')[1]);
    }
    let hour = match parse_u64_chars(&tp[0]) {
        Some(v) => v,
        None => {
            return Some(None);
        },
    };
    let min = match parse_u64_chars(&tp[1]) {
        Some(v) => v,
        None => {
            return Some(None);
        },
    };
    let sec: u64 = if tp.len() > 2 {
        let parts = split_chars(tp[2].as_slice(), '.');
        proof {
            assert(tp@[2]@ == split_on(minus@[0]@, ':')[2]);
            assert(parts@[0]@ == split_on(tp@[2]@, '.')[0]);
        }
        match parse_u64_chars(&parts[0]) {
            Some(v) => v,
            None => 0,
        }
    } else {
        0
    };
    let ghost f = (year as nat, month as nat, day as nat, hour as nat, min as nat, sec as nat);
    assert(iso_fields(iso@) == Some(f));
    let ghost total_days = days_before_year(year as nat) + days_before_month(year as nat, pred_sat(month as nat)) + pred_sat(day as nat);
    let mut days: u64 = 0;
    let mut y: u64 = 1970;
    if year > 1970 {
        while y < year
            invariant
                1970 <= y <= year,
                days == days_before_year(y as nat),
                total_days == days_before_year(year as nat) + days_before_month(year as nat, pred_sat(month as nat)) + pred_sat(day as nat),
                f == (year as nat, month as nat, day as nat, hour as nat, min as nat, sec as nat),
                iso_fields(iso@) == Some(f),
            decreases year - y,
        {
            proof {
                lemma_days_before_year_mono((y + 1) as nat, year as nat);
            }
            let add: u64 = if is_leap_year(y) { 366 } else { 365 };
            if days > u64::MAX - add {
                proof {
                    assert(days_before_year((y + 1) as nat) == days + add);
                    lemma_total_bound(f, total_days);
                }
                return None;
            }
            days = days + add;
            y += 1;
        }
    }
    assert(days == days_before_year(year as nat));
    let leap_add: u64 = if is_leap_year(year) { 1 } else { 0 };
    let k: u64 = if month > 0 { month - 1 } else { 0 };
    let mut m: u64 = 0;
    while m < k
        invariant
            m <= k,
            k == pred_sat(month as nat),
            leap_add == (if leap(year as nat) { 1u64 } else { 0u64 }),
            days == days_before_year(year as nat) + days_before_month(year as nat, m as nat),
            total_days == days_before_year(year as nat) + days_before_month(year as nat, pred_sat(month as nat)) + pred_sat(day as nat),
            f == (year as nat, month as nat, day as nat, hour as nat, min as nat, sec as nat),
            iso_fields(iso@) == Some(f),
        decreases k - m,
    {
        proof {
            lemma_days_before_month_mono(year as nat, (m + 1) as nat, k as nat);
        }
        let md: u64 = if m == 1 {
            28 + leap_add
        } else if m == 3 || m == 5 || m == 8 || m == 10 {
            30
        } else if m < 12 {
            31
        } else {
            30
        };
        if days > u64::MAX - md {
            proof {
                assert(days_before_month(year as nat, (m + 1) as nat) == days_before_month(year as nat, m as nat) + md);
                lemma_total_bound(f, total_days);
            }
            return None;
        }
        days = days + md;
        m += 1;
    }
    let dd: u64 = if day > 0 { day - 1 } else { 0 };
    if days > u64::MAX - dd {
        proof {
            lemma_total_bound(f, total_days);
        }
        return None;
    }
    days = days + dd;
    assert(days == total_days);
    let a = match days.checked_mul(86400) {
        Some(v) => v,
        None => {
            assert(fields_seconds(f) > u64::MAX);
            return None;
        },
    };
    let b = match hour.checked_mul(3600) {
        Some(v) => v,
        None => {
            assert(fields_seconds(f) > u64::MAX);
            return None;
        },
    };
    let c = match min.checked_mul(60) {
        Some(v) => v,
        None => {
            assert(fields_seconds(f) > u64::MAX);
            return None;
        },
    };
    if a > u64::MAX - b || a + b > u64::MAX - c || a + b + c > u64::MAX - sec {
        assert(fields_seconds(f) > u64::MAX);
        return None;
    }
    assert(fields_seconds(f) == a + b + c + sec);
    Some(Some(a + b + c + sec))
}

/// Parses an ISO 8601 timestamp (`2025-01-15T10:30:00Z`, with optional
/// fraction or offset) into Unix seconds.
pub fn parse_iso_timestamp(iso: &str) -> (r: Option<u64>)
    requires
        iso_seconds(iso@) is Some,
    ensures
        match r {
            Some(t) => iso_seconds(iso@) == Some(Some(t as nat)),
            None => iso_seconds(iso@) == Some(None::<nat>),
        },
{
    match try_parse_iso_timestamp(iso) {
        Some(r) => r,
        None => None,
    }
}

/// A relative time: `now` where the time is not in the past, else the
/// largest whole unit of seconds, minutes, hours or days.
pub open spec fn relative_text(ts: nat, now: nat) -> Seq<char> {
    if ts >= now {
        "now"@
    } else {
        let diff = (now - ts) as nat;
        if diff < 60 {
            nat_dec(diff) + "s ago"@
        } else if diff / 60 < 60 {
            nat_dec(diff / 60) + "m ago"@
        } else if diff / 3600 < 24 {
            nat_dec(diff / 3600) + "h ago"@
        } else {
            nat_dec(diff / 86400) + "d ago"@
        }
    }
}

/// The relative time names the largest unit that fits the elapsed time
/// `d` and the whole count of it: seconds under a minute, minutes under an
/// hour, hours under a day, else days; a stamp not before `now` is "now".
pub proof fn lemma_relative_units(ts: nat, now: nat)
    ensures
        ts >= now ==> relative_text(ts, now) == "now"@,
        ts < now ==> {
            let d = (now - ts) as nat;
            &&& d < 60 ==> relative_text(ts, now) == nat_dec(d) + "s ago"@
            &&& 60 <= d < 3600 ==> exists|q: nat| #![trigger nat_dec(q)]
                relative_text(ts, now) == nat_dec(q) + "m ago"@ && q * 60 <= d < q * 60 + 60
            &&& 3600 <= d < 86400 ==> exists|q: nat| #![trigger nat_dec(q)]
                relative_text(ts, now) == nat_dec(q) + "h ago"@ && q * 3600 <= d < q * 3600 + 3600
            &&& 86400 <= d ==> exists|q: nat| #![trigger nat_dec(q)]
                relative_text(ts, now) == nat_dec(q) + "d ago"@ && q * 86400 <= d < q * 86400 + 86400
        },
{
    if ts < now {
        let d = (now - ts) as nat;
        if 60 <= d < 3600 {
            assert(nat_dec(d / 60) == nat_dec(d / 60));
        } else if 3600 <= d < 86400 {
            assert(d / 60 >= 60);
            assert(nat_dec(d / 3600) == nat_dec(d / 3600));
        } else if 86400 <= d {
            assert(d / 60 >= 60);
            assert(d / 3600 >= 24);
            assert(nat_dec(d / 86400) == nat_dec(d / 86400));
        }
    }
}

/// The relative time of a stamp seen at `now`; a stamp that does not
/// parse counts as now.
pub open spec fn relative_for(iso: Seq<char>, now: nat) -> Seq<char> {
    relative_text(
        match iso_seconds(iso) {
            Some(Some(t)) => t,
            _ => now,
        },
        now,
    )
}

/// The relative time of a message stamped `iso`, seen at `now` (Unix
/// seconds); a stamp that does not parse counts as now.
pub fn relative_time_at(iso: &str, now: u64) -> (r: String)
    requires
        iso_seconds(iso@) is Some,
    ensures
        r@ == relative_for(iso@, now as nat),
{
    let ts = match parse_iso_timestamp(iso) {
        Some(t) => t,
        None => now,
    };
    let mut v: Vec<char> = Vec::new();
    if ts >= now {
        return String::from_str("now");
    }
    let diff = now - ts;
    if diff < 60 {
        push_all(&mut v, crate::num::u64_dec(diff).as_slice());
        push_str(&mut v, "s ago");
    } else if diff / 60 < 60 {
        push_all(&mut v, crate::num::u64_dec(diff / 60).as_slice());
        push_str(&mut v, "m ago");
    } else if diff / 60 / 60 < 24 {
        assert(diff / 60 / 60 == diff / 3600);
        push_all(&mut v, crate::num::u64_dec(diff / 60 / 60).as_slice());
        push_str(&mut v, "h ago");
    } else {
        assert(diff / 60 / 60 / 24 == diff / 86400);
        assert(diff / 60 / 60 == diff / 3600);
        push_all(&mut v, crate::num::u64_dec(diff / 60 / 60 / 24).as_slice());
        push_str(&mut v, "d ago");
    }
    string_of(v.as_slice())
}

/// The clock in whole seconds from the Unix epoch
/// (`SystemTime::now().duration_since(UNIX_EPOCH)`): `Ok` with the seconds
/// after it, `Err` with the seconds before it where the clock reads before
/// the epoch. It depends on the clock, so nothing is stated of it.
#[verifier::external_body]
pub(crate) fn system_clock() -> Result<u64, u64> {
    match std::time::SystemTime::now().duration_since(std::time::UNIX_EPOCH) {
        Ok(d) => Ok(d.as_secs()),
        Err(e) => Err(e.duration().as_secs()),
    }
}

/// Formats a message timestamp relative to now (`5m ago`).
pub fn format_relative_time(iso: &str) -> (r: String)
    requires
        iso_seconds(iso@) is Some,
    ensures
        exists|now: nat| r@ == #[trigger] relative_for(iso@, now),
{
    let now = match system_clock() {
        Ok(n) => n,
        Err(_) => 0,
    };
    relative_time_at(iso, now)
}

// ---------------------------------------------------------------------------
// Reply polling
// ---------------------------------------------------------------------------

/// Milliseconds between two polls of a conversation.
pub const POLL_INTERVAL_MS: u64 = 800;

/// Polls before giving up.
pub const MAX_POLLS: u32 = 150;

/// The agent has stopped working on the reply.
pub open spec fn agent_done(status: Seq<char>) -> bool {
    status == "IDLE"@ || status == "STREAM_END"@ || status == "ERROR"@
}

/// The label shown while the agent works.
pub open spec fn status_label_spec(status: Seq<char>) -> Seq<char> {
    if status == "STREAMING"@ {
        "Responding..."@
    } else if status == "EXECUTING_TOOLS"@ {
        "Running tools..."@
    } else if status == "AWAITING_CONSENT"@ {
        "Waiting for approval..."@
    } else if status == "AWAITING_CLIENT_TOOLS"@ {
        "Running client tools..."@
    } else {
        "Thinking..."@
    }
}

/// The label shown while the agent works.
pub fn agent_status_label(status: &str) -> (r: &'static str)
    ensures
        r@ == status_label_spec(status@),
{
    let s = chars_of(status);
    if crate::text::eq_str(s.as_slice(), "STREAMING") {
        "Responding..."
    } else if crate::text::eq_str(s.as_slice(), "EXECUTING_TOOLS") {
        "Running tools..."
    } else if crate::text::eq_str(s.as_slice(), "AWAITING_CONSENT") {
        "Waiting for approval..."
    } else if crate::text::eq_str(s.as_slice(), "AWAITING_CLIENT_TOOLS") {
        "Running client tools..."
    } else {
        "Thinking..."
    }
}

/// A chat message as the poller reads it.
pub struct PolledMessage {
    pub sender_type: String,
    pub text: String,
}

/// Some message is from the agent (not the user) and has text.
pub open spec fn has_agent_message(ms: Seq<PolledMessage>) -> bool {
    exists|i: int| 0 <= i < ms.len() && ms[i].sender_type@ != "USER"@ && ms[i].text@.len() > 0
}

/// What one poll of a conversation does.
#[derive(Clone, Copy, PartialEq, Eq, Structural, Debug)]
pub struct PollStep {
    /// Show the status label (the conversation is on screen).
    pub show_status: bool,
    /// Replace the shown messages with the polled ones.
    pub show_messages: bool,
    /// The reply is complete: stop polling, clear the thinking state.
    pub finish: bool,
    /// Stop polling without touching the screen.
    pub stop: bool,
}

/// One poll: on screen, the label and any messages are shown and a done
/// reply with an agent message finishes; off screen, such a reply just
/// stops the polling.
pub open spec fn poll_step_spec(active: bool, status: Seq<char>, ms: Seq<PolledMessage>) -> PollStep {
    let complete = agent_done(status) && has_agent_message(ms);
    PollStep {
        show_status: active,
        show_messages: active && ms.len() > 0,
        finish: active && complete,
        stop: !active && complete,
    }
}

/// Decides what a successful poll does.
pub fn poll_step(active: bool, status: &str, messages: &Vec<PolledMessage>) -> (r: PollStep)
    ensures
        r == poll_step_spec(active, status@, messages@),
{
    let s = chars_of(status);
    let done = crate::text::eq_str(s.as_slice(), "IDLE") || crate::text::eq_str(s.as_slice(), "STREAM_END")
        || crate::text::eq_str(s.as_slice(), "ERROR");
    let mut has = false;
    let mut i: usize = 0;
    while i < messages.len()
        invariant
            i <= messages@.len(),
            has == exists|j: int| 0 <= j < i && messages@[j].sender_type@ != "USER"@ && messages@[j].text@.len() > 0,
        decreases messages@.len() - i,
    {
        let m = &messages[i];
        let is_user = crate::text::eq_str(chars_of(m.sender_type.as_str()).as_slice(), "USER");
        if !is_user && !m.text.as_str().is_empty() {
            has = true;
        }
        i += 1;
    }
    let complete = done && has;
    PollStep {
        show_status: active,
        show_messages: active && messages.len() > 0,
        finish: active && complete,
        stop: !active && complete,
    }
}

// ---------------------------------------------------------------------------
// Messages
// ---------------------------------------------------------------------------

/// A tool call shown in a message.
pub struct ToolCallInfo {
    pub id: String,
    pub name: String,
    pub status: String,
    pub arguments: Option<String>,
    pub result: Option<String>,
    pub error: Option<String>,
}

/// A part of a message.
pub enum MessagePart {
    Text(String),
    Thinking(String),
    ToolCall(ToolCallInfo),
}

/// A chat message.
pub struct ChatMessage {
    pub id: String,
    pub sender_type: String,
    pub sender_name: String,
    pub text: String,
    pub parts: Vec<MessagePart>,
}

/// Markdown rendered as HTML with strikethrough and tables enabled.
pub uninterp spec fn markdown_html(s: Seq<char>) -> Seq<char>;

/// `pulldown_cmark::html::push_html` over `Parser::new_ext` with
/// strikethrough and tables; the contract names the rendering and states
/// no more of it.
#[verifier::external_body]
fn render_markdown(input: &str) -> (r: String)
    ensures
        r@ == markdown_html(input@),
{
    let mut options = pulldown_cmark::Options::empty();
    options.insert(pulldown_cmark::Options::ENABLE_STRIKETHROUGH);
    options.insert(pulldown_cmark::Options::ENABLE_TABLES);
    let mut html_output = String::new();
    pulldown_cmark::html::push_html(&mut html_output, pulldown_cmark::Parser::new_ext(input, options));
    html_output
}

/// The style class of a tool call's status.
pub open spec fn tool_status_spec(status: Seq<char>) -> Seq<char> {
    if status == "completed"@ || status == "success"@ {
        "tool-status-success"@
    } else if status == "error"@ || status == "failed"@ {
        "tool-status-error"@
    } else {
        "tool-status-pending"@
    }
}

/// The style class of a tool call's status.
pub fn tool_status_class(status: &str) -> (r: &'static str)
    ensures
        r@ == tool_status_spec(status@),
{
    let s = chars_of(status);
    if crate::text::eq_str(s.as_slice(), "completed") || crate::text::eq_str(s.as_slice(), "success") {
        "tool-status-success"
    } else if crate::text::eq_str(s.as_slice(), "error") || crate::text::eq_str(s.as_slice(), "failed") {
        "tool-status-error"
    } else {
        "tool-status-pending"
    }
}

/// A block of a rendered message.
pub enum MessageBlock {
    /// Markdown rendered as HTML.
    Html(String),
    /// The agent's reasoning, shown as plain text.
    Thinking(String),
    /// The tool call at this index of the message's parts, and its status
    /// class.
    Tool(usize, &'static str),
}

/// How a message is shown: its bubble's class, the sender shown, and its
/// blocks.
pub struct MessageLayout {
    pub bubble_class: &'static str,
    pub sender: String,
    pub blocks: Vec<MessageBlock>,
}

/// The block of a message part.
pub open spec fn block_ok(b: MessageBlock, p: MessagePart, i: int) -> bool {
    match p {
        MessagePart::Text(t) => b matches MessageBlock::Html(h) && h@ == markdown_html(t@),
        MessagePart::Thinking(t) => b matches MessageBlock::Thinking(x) && x@ == t@,
        MessagePart::ToolCall(tc) => b matches MessageBlock::Tool(k, c) && k == i && c@ == tool_status_spec(tc.status@),
    }
}

/// The layout of a message: the user's messages are marked as theirs and
/// sent by `You`; a message without parts is its text as markdown, else
/// one block per part.
pub open spec fn layout_ok(l: MessageLayout, m: ChatMessage) -> bool {
    let user = m.sender_type@ == "USER"@;
    &&& l.bubble_class@ == (if user { "chat-bubble chat-bubble-user"@ } else { "chat-bubble chat-bubble-agent"@ })
    &&& l.sender@ == (if user { "You"@ } else { m.sender_name@ })
    &&& if m.parts@.len() == 0 {
        l.blocks@.len() == 1 && (l.blocks@[0] matches MessageBlock::Html(h) && h@ == markdown_html(m.text@))
    } else {
        l.blocks@.len() == m.parts@.len()
            && forall|i: int| 0 <= i < m.parts@.len() ==> block_ok(#[trigger] l.blocks@[i], m.parts@[i], i)
    }
}

/// Lays out a message for the chat panel.
pub fn message_layout(m: &ChatMessage) -> (r: MessageLayout)
    ensures
        layout_ok(r, *m),
{
    let user = crate::text::eq_str(chars_of(m.sender_type.as_str()).as_slice(), "USER");
    let bubble_class = if user { "chat-bubble chat-bubble-user" } else { "chat-bubble chat-bubble-agent" };
    let sender = if user { String::from_str("You") } else { string_of(chars_of(m.sender_name.as_str()).as_slice()) };
    let mut blocks: Vec<MessageBlock> = Vec::new();
    if m.parts.len() == 0 {
        blocks.push(MessageBlock::Html(render_markdown(m.text.as_str())));
    } else {
        let mut i: usize = 0;
        while i < m.parts.len()
            invariant
                i <= m.parts@.len(),
                blocks@.len() == i,
                forall|j: int| 0 <= j < i ==> block_ok(#[trigger] blocks@[j], m.parts@[j], j),
            decreases m.parts@.len() - i,
        {
            let b = match &m.parts[i] {
                MessagePart::Text(t) => MessageBlock::Html(render_markdown(t.as_str())),
                MessagePart::Thinking(t) => MessageBlock::Thinking(string_of(chars_of(t.as_str()).as_slice())),
                MessagePart::ToolCall(tc) => MessageBlock::Tool(i, tool_status_class(tc.status.as_str())),
            };
            blocks.push(b);
            i += 1;
        }
    }
    MessageLayout { bubble_class, sender, blocks }
}

/// Texts of a list of strings.
pub open spec fn ids_view(v: Seq<String>) -> Seq<Seq<char>> {
    Seq::new(v.len(), |i: int| v[i]@)
}

/// The first position of `id` in the list.
pub open spec fn first_pos(ids: Seq<Seq<char>>, id: Seq<char>) -> Option<int>
    decreases ids.len(),
{
    if ids.len() == 0 {
        None
    } else if ids[0] == id {
        Some(0)
    } else {
        match first_pos(ids.drop_first(), id) {
            Some(i) => Some(i + 1),
            None => None,
        }
    }
}

proof fn lemma_first_pos(ids: Seq<Seq<char>>, id: Seq<char>)
    ensures
        match first_pos(ids, id) {
            Some(i) => 0 <= i < ids.len() && ids[i] == id && forall|j: int| 0 <= j < i ==> ids[j] != id,
            None => forall|j: int| 0 <= j < ids.len() ==> ids[j] != id,
        },
    decreases ids.len(),
{
    if ids.len() > 0 {
        lemma_first_pos(ids.drop_first(), id);
        if ids[0] != id {
            match first_pos(ids.drop_first(), id) {
                Some(i) => {
                    assert forall|j: int| 0 <= j < i + 1 implies ids[j] != id by {
                        if j > 0 {
                            assert(ids[j] == ids.drop_first()[j - 1]);
                        }
                    }
                },
                None => {
                    assert forall|j: int| 0 <= j < ids.len() implies ids[j] != id by {
                        if j > 0 {
                            assert(ids[j] == ids.drop_first()[j - 1]);
                        }
                    }
                },
            }
        }
    }
}

/// Toggling a tool call: its first occurrence is removed, or, absent, it
/// is appended.
pub open spec fn toggle_spec(ids: Seq<Seq<char>>, id: Seq<char>) -> Seq<Seq<char>> {
    match first_pos(ids, id) {
        Some(i) => ids.remove(i),
        None => ids.push(id),
    }
}

/// Expands or collapses the tool call `id`.
pub fn toggle_expanded(list: &mut Vec<String>, id: &str)
    ensures
        ids_view(final(list)@) == toggle_spec(ids_view(old(list)@), id@),
{
    let ghost before = ids_view(list@);
    let want = chars_of(id);
    let mut i: usize = 0;
    proof {
        lemma_first_pos(before, id@);
    }
    while i < list.len()
        invariant
            i <= list@.len(),
            list@ == old(list)@,
            before == ids_view(list@),
            want@ == id@,
            forall|j: int| 0 <= j < i ==> before[j] != id@,
        decreases list@.len() - i,
    {
        if crate::text::chars_eq(chars_of(list[i].as_str()).as_slice(), want.as_slice()) {
            proof {
                lemma_first_pos(before, id@);
                match first_pos(before, id@) {
                    Some(k) => {
                        if k < i {
                        } else if k > i {
                            assert(before[i as int] == id@);
                        }
                    },
                    None => {
                        assert(before[i as int] == id@);
                    },
                }
            }
            list.remove(i);
            proof {
                assert(ids_view(list@) =~= before.remove(i as int));
            }
            return;
        }
        i += 1;
    }
    proof {
        lemma_first_pos(before, id@);
        if first_pos(before, id@) is Some {
            let k = first_pos(before, id@)->Some_0;
            assert(before[k] == id@);
        }
    }
    list.push(string_of(want.as_slice()));
    proof {
        assert(ids_view(list@) =~= before.push(id@));
    }
}

/// A tool call that was not expanded is expanded by a toggle, and a
/// second toggle collapses it again, leaving the list as it was.
pub proof fn lemma_toggle_twice(ids: Seq<Seq<char>>, id: Seq<char>)
    requires
        first_pos(ids, id) is None,
    ensures
        first_pos(toggle_spec(ids, id), id) is Some,
        toggle_spec(toggle_spec(ids, id), id) == ids,
{
    let t = ids.push(id);
    lemma_first_pos(ids, id);
    lemma_first_pos(t, id);
    assert(t[ids.len() as int] == id);
    match first_pos(t, id) {
        Some(k) => {
            if k < ids.len() {
                assert(t[k] == ids[k]);
            }
            assert(k == ids.len());
            assert(t.remove(k) =~= ids);
        },
        None => {},
    }
}

/// The token the chat client uses: the session's (refreshed) token, else
/// the one the panel was given.
pub fn chat_token(session_token: &str, prop_token: &str) -> (r: String)
    ensures
        r@ == (if session_token@.len() == 0 { prop_token@ } else { session_token@ }),
{
    if session_token.is_empty() {
        String::from_str(prop_token)
    } else {
        String::from_str(session_token)
    }
}

/// The dashboard's own agent: the first whose lowercase name contains
/// `kubestudio`.
pub fn find_kubestudio_agent(names: &Vec<String>) -> (r: Option<usize>)
    ensures
        match r {
            Some(i) => i < names@.len() && crate::text::contains_seq(crate::text::lowercase(names@[i as int]@), "kubestudio"@)
                && forall|j: int| 0 <= j < i ==> !crate::text::contains_seq(crate::text::lowercase(names@[j]@), "kubestudio"@),
            None => forall|j: int| 0 <= j < names@.len() ==> !crate::text::contains_seq(crate::text::lowercase(names@[j]@), "kubestudio"@),
        },
{
    let needle = chars_of("kubestudio");
    let mut i: usize = 0;
    while i < names.len()
        invariant
            i <= names@.len(),
            needle@ == "kubestudio"@,
            forall|j: int| 0 <= j < i ==> !crate::text::contains_seq(crate::text::lowercase(names@[j]@), "kubestudio"@),
        decreases names@.len() - i,
    {
        let n = chars_of(crate::text::to_lowercase(names[i].as_str()).as_str());
        if crate::text::contains_exec(n.as_slice(), needle.as_slice()) {
            return Some(i);
        }
        i += 1;
    }
    None
}

/// The text to send: the input trimmed, unless it is empty or a message
/// is being sent.
pub fn outgoing_text(input: &str, sending: bool) -> (r: Option<String>)
    ensures
        match r {
            Some(t) => !sending && t@ == trim(input@) && t@.len() > 0,
            None => sending || trim(input@).len() == 0,
        },
{
    let t = trim_exec(chars_of(input).as_slice());
    if t.len() == 0 || sending {
        None
    } else {
        Some(string_of(t.as_slice()))
    }
}

/// Enter without Shift sends; Shift+Enter makes a new line.
pub fn is_send_key(e: &crate::hotkeys::KeyEvent) -> (r: bool)
    ensures
        r == (e.key is Enter && !e.shift),
{
    match e.key {
        crate::hotkeys::KeyName::Enter => !e.shift,
        _ => false,
    }
}

/// The title of a past conversation: `Untitled` when empty, else its
/// first 37 bytes and `...` when longer than 40 bytes.
pub open spec fn conversation_title_spec(title: Seq<char>) -> Seq<char> {
    if title.len() == 0 {
        "Untitled"@
    } else if crate::terminal::blen(title) > 40 {
        title.take(crate::terminal::char_idx(title, 37)->Some_0) + "..."@
    } else {
        title
    }
}

/// The shortened title; slicing at byte 37 must fall on a character
/// boundary, since the text is sliced there by byte.
pub fn conversation_title(title: &str) -> (r: String)
    requires
        crate::terminal::blen(title@) > 40 ==> crate::terminal::char_idx(title@, 37) is Some,
    ensures
        r@ == conversation_title_spec(title@),
{
    let t = chars_of(title);
    if t.len() == 0 {
        return String::from_str("Untitled");
    }
    if crate::terminal::blen_exec(t.as_slice()) > 40 {
        match crate::terminal::char_idx_exec(t.as_slice(), 37) {
            Some(k) => {
                proof {
                    crate::terminal::lemma_char_idx_le(t@, 37);
                }
                let mut v = crate::json::slice_chars(t.as_slice(), 0, k);
                assert(v@ =~= t@.take(k as int));
                push_str(&mut v, "...");
                string_of(v.as_slice())
            },
            None => String::new(),
        }
    } else {
        String::from_str(title)
    }
}

} // verus!
