//! The node table: its sort state, the parsing of CPU, memory and age
//! columns, the formatting of node capacities, and the stable sort of
//! rows by a column.

use vstd::prelude::*;
use crate::num::{all_digits, dec_value, digit_char, is_digit, nat_dec, parse_signed, parse_unsigned};
use crate::text::{chars_of, push_all, push_str, string_of, trim, trim_exec};

verus! {

// ---------------------------------------------------------------------------
// Sort state
// ---------------------------------------------------------------------------

/// The sortable columns of the node table.
#[derive(Clone, Copy, PartialEq, Eq, Structural, Debug)]
pub enum NodeSortColumn {
    Name,
    Roles,
    Cpu,
    Memory,
    Version,
    Status,
    Age,
}

/// A sort direction.
#[derive(Clone, Copy, PartialEq, Eq, Structural, Debug)]
pub enum SortDirection {
    Ascending,
    Descending,
}

/// The column the table is sorted by and in which direction, if any.
#[derive(Clone, Copy, PartialEq, Eq, Structural, Debug)]
pub struct NodeSortState {
    pub column: Option<NodeSortColumn>,
    pub direction: Option<SortDirection>,
}

/// The unsorted state.
pub open spec fn unsorted() -> NodeSortState {
    NodeSortState { column: None, direction: None }
}

/// The state after a click on the header of `column`: a new column sorts
/// ascending; the same column goes ascending, descending, then unsorted.
pub open spec fn cycle_spec(s: NodeSortState, column: NodeSortColumn) -> NodeSortState {
    if s.column == Some(column) {
        match s.direction {
            Some(SortDirection::Ascending) => NodeSortState {
                column: Some(column),
                direction: Some(SortDirection::Descending),
            },
            Some(SortDirection::Descending) => unsorted(),
            None => NodeSortState { column: Some(column), direction: Some(SortDirection::Ascending) },
        }
    } else {
        NodeSortState { column: Some(column), direction: Some(SortDirection::Ascending) }
    }
}

impl Default for NodeSortState {
    /// Unsorted.
    fn default() -> (r: Self)
        ensures
            r == unsorted(),
    {
        NodeSortState { column: None, direction: None }
    }
}

impl NodeSortState {
    /// The state after a click on the header of `column`.
    pub fn cycle(self, column: NodeSortColumn) -> (r: Self)
        ensures
            r == cycle_spec(self, column),
    {
        let same = match self.column {
            Some(c) => c == column,
            None => false,
        };
        if same {
            match self.direction {
                Some(SortDirection::Ascending) => NodeSortState {
                    column: Some(column),
                    direction: Some(SortDirection::Descending),
                },
                Some(SortDirection::Descending) => NodeSortState::default(),
                None => NodeSortState { column: Some(column), direction: Some(SortDirection::Ascending) },
            }
        } else {
            NodeSortState { column: Some(column), direction: Some(SortDirection::Ascending) }
        }
    }

    /// Sorted ascending by `column`.
    pub fn is_asc(&self, column: NodeSortColumn) -> (r: bool)
        ensures
            r == (self.column == Some(column) && self.direction == Some(SortDirection::Ascending)),
    {
        let same = match self.column {
            Some(c) => c == column,
            None => false,
        };
        same && match self.direction {
            Some(SortDirection::Ascending) => true,
            _ => false,
        }
    }

    /// Sorted descending by `column`.
    pub fn is_desc(&self, column: NodeSortColumn) -> (r: bool)
        ensures
            r == (self.column == Some(column) && self.direction == Some(SortDirection::Descending)),
    {
        let same = match self.column {
            Some(c) => c == column,
            None => false,
        };
        same && match self.direction {
            Some(SortDirection::Descending) => true,
            _ => false,
        }
    }
}

/// Three clicks on the same header bring any state back to unsorted, and
/// from unsorted the clicks go ascending, descending, unsorted.
pub proof fn lemma_cycle_three(s: NodeSortState, column: NodeSortColumn)
    ensures
        cycle_spec(cycle_spec(cycle_spec(unsorted(), column), column), column) == unsorted(),
        cycle_spec(unsorted(), column).direction == Some(SortDirection::Ascending),
        cycle_spec(cycle_spec(unsorted(), column), column).direction == Some(SortDirection::Descending),
        s.column != Some(column) ==> cycle_spec(s, column) == (NodeSortState {
            column: Some(column),
            direction: Some(SortDirection::Ascending),
        }),
{
}

/// A header shows at most one of the two arrows.
pub proof fn lemma_asc_desc_exclusive(s: NodeSortState, column: NodeSortColumn)
    ensures
        !((s.column == Some(column) && s.direction == Some(SortDirection::Ascending)) && (s.column
            == Some(column) && s.direction == Some(SortDirection::Descending))),
{
}

// ---------------------------------------------------------------------------
// Column values
// ---------------------------------------------------------------------------

/// Sort rank of a node status: `Ready`, then `NotReady`, then the rest.
pub open spec fn severity(status: Seq<char>) -> u8 {
    if status == "Ready"@ {
        0
    } else if status == "NotReady"@ {
        1
    } else {
        2
    }
}

/// Sort rank of a node status.
pub fn node_status_severity(status: &str) -> (r: u8)
    ensures
        r == severity(status@),
{
    let c = chars_of(status);
    if crate::text::eq_str(c.as_slice(), "Ready") {
        0
    } else if crate::text::eq_str(c.as_slice(), "NotReady") {
        1
    } else {
        2
    }
}

/// Seconds in a unit of an age text (`d`, `h`, `m`, `s`), 0 for others.
pub open spec fn unit_seconds(c: char) -> int {
    if c == 'd' {
        86400
    } else if c == 'h' {
        3600
    } else if c == 'm' {
        60
    } else if c == 's' {
        1
    } else {
        0
    }
}

/// Reads an age text such as `2d5h` from the start: `None` where the
/// running total overflows `i64` (the parser panics there), `Some(None)` where
/// the text is rejected, else the total.
pub open spec fn age_scan(s: Seq<char>, total: int, buf: Seq<char>) -> Option<Option<int>>
    decreases s.len(),
{
    if s.len() == 0 {
        Some(Some(total))
    } else if is_digit(s[0]) {
        age_scan(s.drop_first(), total, buf.push(s[0]))
    } else {
        match parse_signed(buf, i64::MIN as int, i64::MAX as int) {
            None => Some(None),
            Some(n) => {
                let m = unit_seconds(s[0]);
                if m == 0 {
                    Some(None)
                } else if n * m > i64::MAX || total + n * m > i64::MAX {
                    None
                } else {
                    age_scan(s.drop_first(), total + n * m, Seq::empty())
                }
            },
        }
    }
}

/// What `parse_age_to_seconds` yields: `None` where it panics.
pub open spec fn age_seconds_of(age: Seq<char>) -> Option<Option<int>> {
    let t = trim(age);
    if t.len() == 0 || t == "-"@ {
        Some(None)
    } else {
        match age_scan(t, 0, Seq::empty()) {
            None => None,
            Some(None) => Some(None),
            Some(Some(total)) => if total > 0 { Some(Some(total)) } else { Some(None) },
        }
    }
}

/// Parses an age text such as `3d`, `5h30m` or `45s` into seconds:
/// `Some(None)` for `-`, malformed text or a total that is not positive,
/// `None` where the total overflows `i64` (where `parse_age_to_seconds`
/// would panic).
pub fn try_parse_age_to_seconds(age: &str) -> (r: Option<Option<i64>>)
    ensures
        match r {
            Some(Some(v)) => age_seconds_of(age@) == Some(Some(v as int)),
            Some(None) => age_seconds_of(age@) == Some(None::<int>),
            None => age_seconds_of(age@) is None,
        },
{
    let s = trim_exec(chars_of(age).as_slice());
    if s.len() == 0 || crate::text::eq_str(s.as_slice(), "-") {
        return Some(None);
    }
    let mut total: i64 = 0;
    let mut buf: Vec<char> = Vec::new();
    let mut i: usize = 0;
    assert(s@.skip(0) =~= s@);
    while i < s.len()
        invariant
            i <= s@.len(),
            s@ == trim(age@),
            s@.len() > 0,
            s@ != "-"@,
            age_scan(s@, 0, Seq::empty()) == age_scan(s@.skip(i as int), total as int, buf@),
            total >= 0,
            all_digits(buf@),
        decreases s@.len() - i,
    {
        let c = s[i];
        let ghost rest = s@.skip(i as int);
        assert(rest.drop_first() =~= s@.skip(i + 1));
        assert(rest[0] == c);
        if '0' <= c && c <= '9' {
            buf.push(c);
            i += 1;
        } else {
            let n = match crate::num::parse_i64(buf.as_slice()) {
                Some(n) => n,
                None => {
                    return Some(None);
                },
            };
            let m: i64 = if c == 'd' {
                86400
            } else if c == 'h' {
                3600
            } else if c == 'm' {
                60
            } else if c == 's' {
                1
            } else {
                0
            };
            if m == 0 {
                return Some(None);
            }
            assert(n >= 0) by {
                assert(buf@.len() == 0 || buf@[0] != '-');
            }
            assert(unit_seconds(c) == m);
            assert(!is_digit(rest[0]));
            if n > i64::MAX / m {
                assert(n * m > i64::MAX) by (nonlinear_arith)
                    requires
                        n > i64::MAX / m,
                        m > 0,
                ;
                assert(age_scan(rest, total as int, buf@) is None);
                return None;
            }
            assert(n * m <= i64::MAX) by (nonlinear_arith)
                requires
                    n <= i64::MAX / m,
                    m > 0,
                    n >= 0,
            ;
            let nm = n * m;
            if total > i64::MAX - nm {
                assert(age_scan(rest, total as int, buf@) is None);
                return None;
            }
            total = total + nm;
            buf = Vec::new();
            assert(buf@ =~= Seq::<char>::empty());
            i += 1;
        }
    }
    if total > 0 {
        Some(Some(total))
    } else {
        Some(None)
    }
}

/// Parses an age text such as `3d`, `5h30m` or `45s` into seconds; `None`
/// for `-`, malformed text or a total that is not positive.
pub fn parse_age_to_seconds(age: &str) -> (r: Option<i64>)
    requires
        age_seconds_of(age@) is Some,
    ensures
        match r {
            Some(v) => age_seconds_of(age@) == Some(Some(v as int)),
            None => age_seconds_of(age@) == Some(None::<int>),
        },
{
    match try_parse_age_to_seconds(age) {
        Some(r) => r,
        None => None,
    }
}

// ---------------------------------------------------------------------------
// Capacities
// ---------------------------------------------------------------------------

/// `str::trim_end_matches(p)`: removes every trailing repetition of `p`.
pub open spec fn strip_end(s: Seq<char>, p: Seq<char>) -> Seq<char>
    decreases s.len(),
{
    if p.len() > 0 && crate::text::ends_with(s, p) {
        strip_end(s.take(s.len() - p.len()), p)
    } else {
        s
    }
}

/// `str::trim_end_matches(p)`.
pub fn strip_end_exec(s: &[char], p: &str) -> (r: Vec<char>)
    ensures
        r@ == strip_end(s@, p@),
{
    let pc = chars_of(p);
    let mut n = s.len();
    assert(s@.take(n as int) =~= s@);
    while pc.len() > 0 && n >= pc.len() && crate::text::ends_with_exec(crate::json::slice_chars(s, 0, n).as_slice(), pc.as_slice())
        invariant
            n <= s@.len(),
            pc@ == p@,
            strip_end(s@, p@) == strip_end(s@.take(n as int), p@),
        decreases n,
    {
        assert(s@.take(n as int).take(n - pc@.len()) =~= s@.take(n - pc@.len()));
        n = n - pc.len();
    }
    proof {
        if pc@.len() > 0 && n >= pc@.len() {
        } else if pc@.len() > 0 {
            assert(!crate::text::ends_with(s@.take(n as int), p@));
        }
    }
    crate::json::slice_chars(s, 0, n)
}

/// CPU text in cores or millicores for a millicore count.
pub open spec fn millis_text(m: nat) -> Seq<char> {
    if m >= 1000 {
        nat_dec(m / 1000)
    } else {
        nat_dec(m) + "m"@
    }
}

/// The display form of a CPU quantity: millicores (`500m`) and nanocores
/// (`250000000n`) become whole cores where at least one, else
/// millicores; anything else is kept.
pub open spec fn cpu_text(s: Seq<char>) -> Seq<char> {
    if crate::text::ends_with(s, "m"@) {
        match parse_unsigned(strip_end(s, "m"@), u64::MAX as nat) {
            Some(m) => millis_text(m),
            None => s,
        }
    } else if crate::text::ends_with(s, "n"@) {
        match parse_unsigned(strip_end(s, "n"@), u64::MAX as nat) {
            Some(n) => millis_text(n / 1000000),
            None => s,
        }
    } else {
        s
    }
}

fn millis_label(m: u64) -> (r: Vec<char>)
    ensures
        r@ == millis_text(m as nat),
{
    if m >= 1000 {
        crate::num::u64_dec(m / 1000)
    } else {
        let mut v = crate::num::u64_dec(m);
        push_str(&mut v, "m");
        v
    }
}

/// Formats a CPU quantity (`4` cores, `500m` = half a core).
pub fn format_cpu(cpu: &str) -> (r: String)
    ensures
        r@ == cpu_text(cpu@),
{
    let s = chars_of(cpu);
    if crate::text::ends_with_str(s.as_slice(), "m") {
        match crate::num::parse_u64(strip_end_exec(s.as_slice(), "m").as_slice()) {
            Some(m) => string_of(millis_label(m).as_slice()),
            None => String::from_str(cpu),
        }
    } else if crate::text::ends_with_str(s.as_slice(), "n") {
        match crate::num::parse_u64(strip_end_exec(s.as_slice(), "n").as_slice()) {
            Some(n) => string_of(millis_label(n / 1000000).as_slice()),
            None => String::from_str(cpu),
        }
    } else {
        String::from_str(cpu)
    }
}

/// Extra bits a `u64` value needs beyond the 53 of a double's significand.
pub open spec fn excess_bits(v: nat) -> nat {
    if v < 0x20000000000000 { 0 }
    else if v < 0x40000000000000 { 1 }
    else if v < 0x80000000000000 { 2 }
    else if v < 0x100000000000000 { 3 }
    else if v < 0x200000000000000 { 4 }
    else if v < 0x400000000000000 { 5 }
    else if v < 0x800000000000000 { 6 }
    else if v < 0x1000000000000000 { 7 }
    else if v < 0x2000000000000000 { 8 }
    else if v < 0x4000000000000000 { 9 }
    else if v < 0x8000000000000000 { 10 }
    else { 11 }
}

/// Two to the power `e`, for `e <= 11`.
pub open spec fn pow2_small(e: nat) -> nat {
    if e == 0 { 1 }
    else if e == 1 { 2 }
    else if e == 2 { 4 }
    else if e == 3 { 8 }
    else if e == 4 { 16 }
    else if e == 5 { 32 }
    else if e == 6 { 64 }
    else if e == 7 { 128 }
    else if e == 8 { 256 }
    else if e == 9 { 512 }
    else if e == 10 { 1024 }
    else { 2048 }
}

/// `t / d` rounded to the nearest integer, ties to even.
pub open spec fn round_half_even(t: nat, d: nat) -> nat {
    let q = t / d;
    let r = t % d;
    if 2 * r > d || (2 * r == d && q % 2 == 1) {
        q + 1
    } else {
        q
    }
}

/// `v as f64`: the nearest double, ties to even (exact below 2^53).
pub open spec fn f64_of(v: nat) -> nat {
    let u = pow2_small(excess_bits(v));
    round_half_even(v, u) * u
}

/// `{:.1}` of `q / 10`.
pub open spec fn tenths_text(q: nat) -> Seq<char> {
    nat_dec(q / 10) + "."@ + seq![digit_char(q % 10)]
}

/// The display form of a memory quantity (`Ki`, `Mi`, `Gi`, `Ti`, or bytes)
/// in `Ki`, `Mi` or `Gi`; quantities it cannot read are kept as they are.
pub open spec fn memory_text(s: Seq<char>) -> Seq<char> {
    let unit: int = if crate::text::ends_with(s, "Ki"@) { 0 }
        else if crate::text::ends_with(s, "Mi"@) { 1 }
        else if crate::text::ends_with(s, "Gi"@) { 2 }
        else if crate::text::ends_with(s, "Ti"@) { 3 }
        else if crate::text::ends_with(s, "K"@) { 4 }
        else if crate::text::ends_with(s, "M"@) { 5 }
        else if crate::text::ends_with(s, "G"@) { 6 }
        else if crate::text::ends_with(s, "T"@) { 7 }
        else { 8 };
    let digits = if unit == 0 { strip_end(s, "Ki"@) }
        else if unit == 1 { strip_end(s, "Mi"@) }
        else if unit == 2 { strip_end(s, "Gi"@) }
        else if unit == 3 { strip_end(s, "Ti"@) }
        else if unit == 4 { strip_end(s, "K"@) }
        else if unit == 5 { strip_end(s, "M"@) }
        else if unit == 6 { strip_end(s, "G"@) }
        else if unit == 7 { strip_end(s, "T"@) }
        else { s };
    match parse_unsigned(digits, u64::MAX as nat) {
        None => s,
        Some(v) => if unit == 0 {
            if v >= 1048576 {
                tenths_text(round_half_even(f64_of(v) * 10, 1048576)) + "Gi"@
            } else if v >= 1024 {
                nat_dec(round_half_even(f64_of(v), 1024)) + "Mi"@
            } else {
                nat_dec(v) + "Ki"@
            }
        } else if unit == 1 {
            if v >= 1024 {
                tenths_text(round_half_even(f64_of(v) * 10, 1024)) + "Gi"@
            } else {
                nat_dec(v) + "Mi"@
            }
        } else if unit == 2 {
            nat_dec(v) + "Gi"@
        } else if unit == 3 {
            nat_dec(v) + "Ti"@
        } else if unit == 8 {
            if f64_of(v) >= 1073741824 {
                tenths_text(round_half_even(f64_of(v) * 10, 1073741824)) + "Gi"@
            } else {
                nat_dec(round_half_even(f64_of(v), 1048576)) + "Mi"@
            }
        } else {
            s
        },
    }
}

fn excess_bits_exec(v: u64) -> (e: u64)
    ensures
        e == excess_bits(v as nat),
{
    if v < 0x20000000000000 { 0 }
    else if v < 0x40000000000000 { 1 }
    else if v < 0x80000000000000 { 2 }
    else if v < 0x100000000000000 { 3 }
    else if v < 0x200000000000000 { 4 }
    else if v < 0x400000000000000 { 5 }
    else if v < 0x800000000000000 { 6 }
    else if v < 0x1000000000000000 { 7 }
    else if v < 0x2000000000000000 { 8 }
    else if v < 0x4000000000000000 { 9 }
    else if v < 0x8000000000000000 { 10 }
    else { 11 }
}

fn pow2_small_exec(e: u64) -> (r: u128)
    ensures
        r == pow2_small(e as nat),
        1 <= r <= 2048,
{
    if e == 0 { 1 }
    else if e == 1 { 2 }
    else if e == 2 { 4 }
    else if e == 3 { 8 }
    else if e == 4 { 16 }
    else if e == 5 { 32 }
    else if e == 6 { 64 }
    else if e == 7 { 128 }
    else if e == 8 { 256 }
    else if e == 9 { 512 }
    else if e == 10 { 1024 }
    else { 2048 }
}

fn round_half_even_exec(t: u128, d: u128) -> (r: u128)
    requires
        0 < d <= 0x10000000000,
        t < 0x1000000000000000000000,
    ensures
        r == round_half_even(t as nat, d as nat),
        r <= t / d + 1,
{
    let q = t / d;
    let r = t % d;
    if 2 * r > d || (2 * r == d && q % 2 == 1) {
        q + 1
    } else {
        q
    }
}

proof fn lemma_rounded_fits(v: nat, u: nat, q: nat)
    requires
        v < 0x10000000000000000,
        u == 1 || u == 2 || u == 4 || u == 8 || u == 16 || u == 32 || u == 64 || u == 128
            || u == 256 || u == 512 || u == 1024 || u == 2048,
        q <= v / u + 1,
        u == 1 ==> q <= v,
    ensures
        q * u <= 0x10000000000000000,
{
    if u == 1 {
    } else if u == 2 {
        assert(q * 2 <= 0x10000000000000000);
    } else if u == 4 {
        assert(q * 4 <= 0x10000000000000000);
    } else if u == 8 {
        assert(q * 8 <= 0x10000000000000000);
    } else if u == 16 {
        assert(q * 16 <= 0x10000000000000000);
    } else if u == 32 {
        assert(q * 32 <= 0x10000000000000000);
    } else if u == 64 {
        assert(q * 64 <= 0x10000000000000000);
    } else if u == 128 {
        assert(q * 128 <= 0x10000000000000000);
    } else if u == 256 {
        assert(q * 256 <= 0x10000000000000000);
    } else if u == 512 {
        assert(q * 512 <= 0x10000000000000000);
    } else if u == 1024 {
        assert(q * 1024 <= 0x10000000000000000);
    } else {
        assert(q * 2048 <= 0x10000000000000000);
    }
}

/// `v as f64`, as an integer.
fn f64_of_exec(v: u64) -> (r: u128)
    ensures
        r == f64_of(v as nat),
        r <= 0x10000000000000000,
{
    let u = pow2_small_exec(excess_bits_exec(v));
    let q = round_half_even_exec(v as u128, u);
    proof {
        lemma_rounded_fits(v as nat, u as nat, q as nat);
    }
    q * u
}

/// Appends `{:.1}` of `q / 10`.
fn push_tenths(out: &mut Vec<char>, q: u128)
    requires
        q / 10 <= u64::MAX,
    ensures
        final(out)@ == old(out)@ + tenths_text(q as nat),
{
    let ghost start = out@;
    crate::num::push_u64(out, (q / 10) as u64);
    out.push('.');
    let d = (q % 10) as u64;
    out.push(crate::num::digit_char_exec(d));
    proof {
        reveal_strlit(".");
        assert(out@ =~= start + tenths_text(q as nat));
    }
}

/// Formats a memory quantity for display (`16Gi`, `512Mi`, `1.5Gi`).
pub fn format_memory(mem: &str) -> (r: String)
    ensures
        r@ == memory_text(mem@),
{
    let s = chars_of(mem);
    let ss = s.as_slice();
    let unit: u8 = if crate::text::ends_with_str(ss, "Ki") { 0 }
        else if crate::text::ends_with_str(ss, "Mi") { 1 }
        else if crate::text::ends_with_str(ss, "Gi") { 2 }
        else if crate::text::ends_with_str(ss, "Ti") { 3 }
        else if crate::text::ends_with_str(ss, "K") { 4 }
        else if crate::text::ends_with_str(ss, "M") { 5 }
        else if crate::text::ends_with_str(ss, "G") { 6 }
        else if crate::text::ends_with_str(ss, "T") { 7 }
        else { 8 };
    let digits = if unit == 0 { strip_end_exec(ss, "Ki") }
        else if unit == 1 { strip_end_exec(ss, "Mi") }
        else if unit == 2 { strip_end_exec(ss, "Gi") }
        else if unit == 3 { strip_end_exec(ss, "Ti") }
        else if unit == 4 { strip_end_exec(ss, "K") }
        else if unit == 5 { strip_end_exec(ss, "M") }
        else if unit == 6 { strip_end_exec(ss, "G") }
        else if unit == 7 { strip_end_exec(ss, "T") }
        else { crate::json::slice_chars(ss, 0, ss.len()) };
    assert(unit == 8 ==> digits@ =~= s@);
    let v = match crate::num::parse_u64(digits.as_slice()) {
        Some(v) => v,
        None => {
            return String::from_str(mem);
        },
    };
    let mut out: Vec<char> = Vec::new();
    if unit == 0 {
        if v >= 1048576 {
            let f = f64_of_exec(v);
            push_tenths(&mut out, round_half_even_exec(f * 10, 1048576));
            push_str(&mut out, "Gi");
        } else if v >= 1024 {
            let f = f64_of_exec(v);
            let q = round_half_even_exec(f, 1024);
            crate::num::push_u64(&mut out, q as u64);
            push_str(&mut out, "Mi");
        } else {
            crate::num::push_u64(&mut out, v);
            push_str(&mut out, "Ki");
        }
    } else if unit == 1 {
        if v >= 1024 {
            let f = f64_of_exec(v);
            push_tenths(&mut out, round_half_even_exec(f * 10, 1024));
            push_str(&mut out, "Gi");
        } else {
            crate::num::push_u64(&mut out, v);
            push_str(&mut out, "Mi");
        }
    } else if unit == 2 {
        crate::num::push_u64(&mut out, v);
        push_str(&mut out, "Gi");
    } else if unit == 3 {
        crate::num::push_u64(&mut out, v);
        push_str(&mut out, "Ti");
    } else if unit == 8 {
        let f = f64_of_exec(v);
        if f >= 1073741824 {
            push_tenths(&mut out, round_half_even_exec(f * 10, 1073741824));
            push_str(&mut out, "Gi");
        } else {
            let q = round_half_even_exec(f, 1048576);
            crate::num::push_u64(&mut out, q as u64);
            push_str(&mut out, "Mi");
        }
    } else {
        return String::from_str(mem);
    }
    string_of(out.as_slice())
}

// ---------------------------------------------------------------------------
// Reading CPU and memory quantities for sorting
// ---------------------------------------------------------------------------

/// `a / b` rounded toward zero (Rust's integer division).
pub open spec fn div_trunc(a: int, b: int) -> int {
    if a >= 0 { a / b } else { -((-a) / b) }
}

/// A CPU quantity as far as integers can read it: absent, a millicore
/// value (from `m` or `n` suffixes; `None` where the digits do not parse),
/// or a decimal number of cores, whose text is left to a floating-point
/// reading.
pub enum CpuQuantity {
    Missing,
    Millicores(Option<i64>),
    Cores(String),
}

/// The reading of a CPU quantity.
pub open spec fn cpu_quantity_spec(s: Seq<char>) -> (Option<Option<int>>, Seq<char>) {
    let t = trim(s);
    if t == "-"@ || t.len() == 0 {
        (None, t)
    } else if crate::text::ends_with(t, "m"@) {
        (Some(parse_signed(strip_end(t, "m"@), i64::MIN as int, i64::MAX as int)), t)
    } else if crate::text::ends_with(t, "n"@) {
        (Some(match parse_signed(strip_end(t, "n"@), i64::MIN as int, i64::MAX as int) {
            Some(n) => Some(div_trunc(n, 1000000)),
            None => None,
        }), t)
    } else {
        (None, t)
    }
}

/// Reads a CPU quantity (the integer part of `parse_cpu_to_millicores`).
pub fn cpu_quantity(cpu: &str) -> (r: CpuQuantity)
    ensures
        ({
            let (v, t) = cpu_quantity_spec(cpu@);
            match r {
                CpuQuantity::Missing => v is None && (t == "-"@ || t.len() == 0),
                CpuQuantity::Millicores(m) => v == Some(match m {
                    Some(x) => Some(x as int),
                    None => None::<int>,
                }),
                CpuQuantity::Cores(text) => v is None && text@ == t && t != "-"@ && t.len() > 0,
            }
        }),
{
    let t = trim_exec(chars_of(cpu).as_slice());
    if crate::text::eq_str(t.as_slice(), "-") || t.len() == 0 {
        return CpuQuantity::Missing;
    }
    if crate::text::ends_with_str(t.as_slice(), "m") {
        CpuQuantity::Millicores(crate::num::parse_i64(strip_end_exec(t.as_slice(), "m").as_slice()))
    } else if crate::text::ends_with_str(t.as_slice(), "n") {
        CpuQuantity::Millicores(match crate::num::parse_i64(strip_end_exec(t.as_slice(), "n").as_slice()) {
            Some(n) => Some(n / 1000000),
            None => None,
        })
    } else {
        CpuQuantity::Cores(string_of(t.as_slice()))
    }
}

/// The binary prefix of a memory quantity that needs a decimal reading.
#[derive(Clone, Copy, PartialEq, Eq, Structural, Debug)]
pub enum MemoryScale {
    Tebi,
    Gibi,
    Mebi,
    Bytes,
}

/// A memory quantity as far as integers can read it: absent, a kibibyte
/// value (`Ki` suffix; `None` where the digits do not parse), or a decimal
/// number with its prefix, left to a floating-point reading.
pub enum MemoryQuantity {
    Missing,
    Kibibytes(Option<i64>),
    Scaled(String, MemoryScale),
}

/// Reads a memory quantity (the integer part of `parse_memory_to_ki`).
pub fn memory_quantity(mem: &str) -> (r: MemoryQuantity)
    ensures
        ({
            let t = trim(mem@);
            match r {
                MemoryQuantity::Missing => t == "-"@ || t.len() == 0,
                MemoryQuantity::Kibibytes(k) => t != "-"@ && t.len() > 0 && !crate::text::ends_with(t, "Ti"@)
                    && !crate::text::ends_with(t, "Gi"@) && !crate::text::ends_with(t, "Mi"@)
                    && crate::text::ends_with(t, "Ki"@)
                    && parse_signed(strip_end(t, "Ki"@), i64::MIN as int, i64::MAX as int) == match k {
                        Some(x) => Some(x as int),
                        None => None::<int>,
                    },
                MemoryQuantity::Scaled(text, scale) => t != "-"@ && t.len() > 0
                    && match scale {
                        MemoryScale::Tebi => crate::text::ends_with(t, "Ti"@) && text@ == strip_end(t, "Ti"@),
                        MemoryScale::Gibi => !crate::text::ends_with(t, "Ti"@) && crate::text::ends_with(t, "Gi"@)
                            && text@ == strip_end(t, "Gi"@),
                        MemoryScale::Mebi => !crate::text::ends_with(t, "Ti"@) && !crate::text::ends_with(t, "Gi"@)
                            && crate::text::ends_with(t, "Mi"@) && text@ == strip_end(t, "Mi"@),
                        MemoryScale::Bytes => !crate::text::ends_with(t, "Ti"@) && !crate::text::ends_with(t, "Gi"@)
                            && !crate::text::ends_with(t, "Mi"@) && !crate::text::ends_with(t, "Ki"@) && text@ == t,
                    },
            }
        }),
{
    let t = trim_exec(chars_of(mem).as_slice());
    let ts = t.as_slice();
    if crate::text::eq_str(ts, "-") || t.len() == 0 {
        MemoryQuantity::Missing
    } else if crate::text::ends_with_str(ts, "Ti") {
        MemoryQuantity::Scaled(string_of(strip_end_exec(ts, "Ti").as_slice()), MemoryScale::Tebi)
    } else if crate::text::ends_with_str(ts, "Gi") {
        MemoryQuantity::Scaled(string_of(strip_end_exec(ts, "Gi").as_slice()), MemoryScale::Gibi)
    } else if crate::text::ends_with_str(ts, "Mi") {
        MemoryQuantity::Scaled(string_of(strip_end_exec(ts, "Mi").as_slice()), MemoryScale::Mebi)
    } else if crate::text::ends_with_str(ts, "Ki") {
        MemoryQuantity::Kibibytes(crate::num::parse_i64(strip_end_exec(ts, "Ki").as_slice()))
    } else {
        MemoryQuantity::Scaled(string_of(ts), MemoryScale::Bytes)
    }
}

// ---------------------------------------------------------------------------
// Sorting rows
// ---------------------------------------------------------------------------

/// The result of comparing two values.
#[derive(Clone, Copy, PartialEq, Eq, Structural, Debug)]
pub enum Order {
    Less,
    Equal,
    Greater,
}

/// The opposite result.
pub open spec fn flip(o: Order) -> Order {
    match o {
        Order::Less => Order::Greater,
        Order::Equal => Order::Equal,
        Order::Greater => Order::Less,
    }
}

/// Integer order.
pub open spec fn int_order(a: int, b: int) -> Order {
    if a < b { Order::Less } else if a == b { Order::Equal } else { Order::Greater }
}

/// Order of optional numbers: present values first, by value.
pub open spec fn opt_order(a: Option<int>, b: Option<int>) -> Order {
    match (a, b) {
        (Some(x), Some(y)) => int_order(x, y),
        (Some(_), None) => Order::Less,
        (None, Some(_)) => Order::Greater,
        (None, None) => Order::Equal,
    }
}

/// Lexicographic order of texts by code point (the order of `str`).
pub open spec fn text_order(a: Seq<char>, b: Seq<char>) -> Order
    decreases a.len(),
{
    if a.len() == 0 {
        if b.len() == 0 { Order::Equal } else { Order::Less }
    } else if b.len() == 0 {
        Order::Greater
    } else if a[0] != b[0] {
        if a[0] < b[0] { Order::Less } else { Order::Greater }
    } else {
        text_order(a.drop_first(), b.drop_first())
    }
}

/// The precomputed sort keys of a node row. `cpu_millis` and `memory_ki`
/// hold the CPU and memory columns read as millicores and kibibytes.
pub struct NodeSortKeys {
    pub name: String,
    pub roles: String,
    pub cpu: String,
    pub memory: String,
    pub version: String,
    pub status: String,
    pub age: String,
    pub cpu_millis: Option<i64>,
    pub memory_ki: Option<i64>,
}

/// `Option<i64>` as optional integers.
pub open spec fn opt_int(o: Option<i64>) -> Option<int> {
    match o {
        Some(x) => Some(x as int),
        None => None,
    }
}

/// The age column in seconds (its text parses without overflow).
pub open spec fn age_key(k: NodeSortKeys) -> Option<int> {
    match age_seconds_of(k.age@) {
        Some(v) => v,
        None => None,
    }
}

/// Order of two rows by a column, ascending.
pub open spec fn key_order(col: NodeSortColumn, a: NodeSortKeys, b: NodeSortKeys) -> Order {
    match col {
        NodeSortColumn::Name => text_order(crate::text::lowercase(a.name@), crate::text::lowercase(b.name@)),
        NodeSortColumn::Roles => text_order(crate::text::lowercase(a.roles@), crate::text::lowercase(b.roles@)),
        NodeSortColumn::Cpu => opt_order(opt_int(a.cpu_millis), opt_int(b.cpu_millis)),
        NodeSortColumn::Memory => opt_order(opt_int(a.memory_ki), opt_int(b.memory_ki)),
        NodeSortColumn::Version => text_order(a.version@, b.version@),
        NodeSortColumn::Status => int_order(severity(a.status@) as int, severity(b.status@) as int),
        NodeSortColumn::Age => opt_order(age_key(a), age_key(b)),
    }
}

/// Order of two rows by a column in a direction.
pub open spec fn row_order(col: NodeSortColumn, dir: SortDirection, a: NodeSortKeys, b: NodeSortKeys) -> Order {
    match dir {
        SortDirection::Ascending => key_order(col, a, b),
        SortDirection::Descending => flip(key_order(col, a, b)),
    }
}

proof fn lemma_text_order(a: Seq<char>, b: Seq<char>, c: Seq<char>)
    ensures
        text_order(b, a) == flip(text_order(a, b)),
        text_order(a, b) == Order::Equal ==> a == b,
        text_order(a, b) != Order::Greater && text_order(b, c) != Order::Greater ==> text_order(a, c) != Order::Greater,
        text_order(a, b) == Order::Less && text_order(b, c) != Order::Greater ==> text_order(a, c) == Order::Less,
    decreases a.len(),
{
    if a.len() > 0 && b.len() > 0 && c.len() > 0 {
        lemma_text_order(a.drop_first(), b.drop_first(), c.drop_first());
        if a[0] == b[0] && text_order(a.drop_first(), b.drop_first()) == Order::Equal {
            assert(a =~= b) by {
                assert(a.drop_first() == b.drop_first());
                assert forall|i: int| 0 <= i < a.len() implies a[i] == b[i] by {
                    if i > 0 {
                        assert(a[i] == a.drop_first()[i - 1]);
                    }
                }
            }
        }
    } else if a.len() > 0 && b.len() > 0 {
        lemma_text_order(a.drop_first(), b.drop_first(), c);
        if a[0] == b[0] && text_order(a.drop_first(), b.drop_first()) == Order::Equal {
            assert(a =~= b) by {
                assert(a.drop_first() == b.drop_first());
                assert forall|i: int| 0 <= i < a.len() implies a[i] == b[i] by {
                    if i > 0 {
                        assert(a[i] == a.drop_first()[i - 1]);
                    }
                }
            }
        }
    }
}

/// The row order is a total preorder in either direction: swapping the
/// rows flips the result, and "not after" and "before" chain.
pub proof fn lemma_row_order(col: NodeSortColumn, dir: SortDirection, a: NodeSortKeys, b: NodeSortKeys, c: NodeSortKeys)
    ensures
        row_order(col, dir, b, a) == flip(row_order(col, dir, a, b)),
        row_order(col, dir, a, b) != Order::Greater && row_order(col, dir, b, c) != Order::Greater
            ==> row_order(col, dir, a, c) != Order::Greater,
        row_order(col, dir, a, b) == Order::Less && row_order(col, dir, b, c) != Order::Greater
            ==> row_order(col, dir, a, c) == Order::Less,
{
    let la = crate::text::lowercase(a.name@);
    let lb = crate::text::lowercase(b.name@);
    let lc = crate::text::lowercase(c.name@);
    let ra = crate::text::lowercase(a.roles@);
    let rb = crate::text::lowercase(b.roles@);
    let rc = crate::text::lowercase(c.roles@);
    match col {
        NodeSortColumn::Name => {
            lemma_text_order(la, lb, lc);
            lemma_text_order(lc, lb, la);
            lemma_text_order(lb, la, lc);
            lemma_text_order(la, lc, lb);
        },
        NodeSortColumn::Roles => {
            lemma_text_order(ra, rb, rc);
            lemma_text_order(rc, rb, ra);
            lemma_text_order(rb, ra, rc);
            lemma_text_order(ra, rc, rb);
        },
        NodeSortColumn::Version => {
            lemma_text_order(a.version@, b.version@, c.version@);
            lemma_text_order(c.version@, b.version@, a.version@);
            lemma_text_order(b.version@, a.version@, c.version@);
            lemma_text_order(a.version@, c.version@, b.version@);
        },
        _ => {},
    }
}

/// Lexicographic order of two character slices.
fn text_order_exec(a: &[char], b: &[char]) -> (r: Order)
    ensures
        r == text_order(a@, b@),
{
    let mut i: usize = 0;
    assert(a@.skip(0) =~= a@);
    assert(b@.skip(0) =~= b@);
    while i < a.len() && i < b.len() && a[i] == b[i]
        invariant
            i <= a@.len(),
            i <= b@.len(),
            text_order(a@, b@) == text_order(a@.skip(i as int), b@.skip(i as int)),
        decreases a@.len() - i,
    {
        assert(a@.skip(i as int).drop_first() =~= a@.skip(i + 1));
        assert(b@.skip(i as int).drop_first() =~= b@.skip(i + 1));
        i += 1;
    }
    if i == a.len() {
        if i == b.len() { Order::Equal } else { Order::Less }
    } else if i == b.len() {
        Order::Greater
    } else {
        assert(a@.skip(i as int)[0] == a@[i as int]);
        assert(b@.skip(i as int)[0] == b@[i as int]);
        if a[i] < b[i] { Order::Less } else { Order::Greater }
    }
}

fn int_order_exec(a: i64, b: i64) -> (r: Order)
    ensures
        r == int_order(a as int, b as int),
{
    if a < b { Order::Less } else if a == b { Order::Equal } else { Order::Greater }
}

fn opt_order_exec(a: Option<i64>, b: Option<i64>) -> (r: Order)
    ensures
        r == opt_order(opt_int(a), opt_int(b)),
{
    match (a, b) {
        (Some(x), Some(y)) => int_order_exec(x, y),
        (Some(_), None) => Order::Less,
        (None, Some(_)) => Order::Greater,
        (None, None) => Order::Equal,
    }
}

fn lower_order_exec(a: &String, b: &String) -> (r: Order)
    ensures
        r == text_order(crate::text::lowercase(a@), crate::text::lowercase(b@)),
{
    let la = chars_of(crate::text::to_lowercase(a.as_str()).as_str());
    let lb = chars_of(crate::text::to_lowercase(b.as_str()).as_str());
    text_order_exec(la.as_slice(), lb.as_slice())
}

/// Every age text of the rows parses without overflow.
pub open spec fn ages_ok<T>(rows: Seq<(T, NodeSortKeys)>) -> bool {
    forall|i: int| 0 <= i < rows.len() ==> age_seconds_of((#[trigger] rows[i]).1.age@) is Some
}

fn row_order_exec(col: NodeSortColumn, dir: SortDirection, a: &NodeSortKeys, b: &NodeSortKeys) -> (r: Order)
    requires
        col == NodeSortColumn::Age ==> age_seconds_of(a.age@) is Some && age_seconds_of(b.age@) is Some,
    ensures
        r == row_order(col, dir, *a, *b),
{
    let o = match col {
        NodeSortColumn::Name => lower_order_exec(&a.name, &b.name),
        NodeSortColumn::Roles => lower_order_exec(&a.roles, &b.roles),
        NodeSortColumn::Cpu => opt_order_exec(a.cpu_millis, b.cpu_millis),
        NodeSortColumn::Memory => opt_order_exec(a.memory_ki, b.memory_ki),
        NodeSortColumn::Version => text_order_exec(chars_of(a.version.as_str()).as_slice(), chars_of(b.version.as_str()).as_slice()),
        NodeSortColumn::Status => {
            let x = node_status_severity(a.status.as_str());
            let y = node_status_severity(b.status.as_str());
            int_order_exec(x as i64, y as i64)
        },
        NodeSortColumn::Age => opt_order_exec(parse_age_to_seconds(a.age.as_str()), parse_age_to_seconds(b.age.as_str())),
    };
    match dir {
        SortDirection::Ascending => o,
        SortDirection::Descending => match o {
            Order::Less => Order::Greater,
            Order::Equal => Order::Equal,
            Order::Greater => Order::Less,
        },
    }
}

/// `p` is a permutation of `0..n`.
pub open spec fn is_permutation(p: Seq<int>, n: nat) -> bool {
    &&& p.len() == n
    &&& forall|i: int| 0 <= i < n ==> 0 <= #[trigger] p[i] < n
    &&& forall|i: int, j: int| 0 <= i < j < n ==> p[i] != p[j]
}

/// `after` is `before` stably sorted by the order of `col` and `dir`,
/// with `p` saying where each row came from.
pub open spec fn stably_sorted<T>(
    before: Seq<(T, NodeSortKeys)>,
    after: Seq<(T, NodeSortKeys)>,
    p: Seq<int>,
    col: NodeSortColumn,
    dir: SortDirection,
) -> bool {
    &&& is_permutation(p, before.len())
    &&& after.len() == before.len()
    &&& forall|i: int| 0 <= i < after.len() ==> #[trigger] after[i] == before[p[i]]
    &&& forall|i: int, j: int| 0 <= i < j < after.len() ==> row_order(col, dir, after[i].1, after[j].1) != Order::Greater
    &&& forall|i: int, j: int| 0 <= i < j < after.len() && row_order(col, dir, after[i].1, after[j].1) == Order::Equal
        ==> p[i] < p[j]
}

/// Sorts the rows by the state's column and direction, keeping rows that
/// compare equal in their order; without a column or direction the rows
/// stay as they are.
/// After sorting by CPU, memory or age (in seconds), the rows with a value
/// come before the rows without (after them when descending), and the
/// values run from the smallest up when ascending and from the largest
/// down when descending.
pub proof fn lemma_sorted_by_resources<T>(
    before: Seq<(T, NodeSortKeys)>,
    after: Seq<(T, NodeSortKeys)>,
    p: Seq<int>,
    col: NodeSortColumn,
    dir: SortDirection,
)
    requires
        col == NodeSortColumn::Cpu || col == NodeSortColumn::Memory || col == NodeSortColumn::Age,
        stably_sorted(before, after, p, col, dir),
    ensures
        forall|i: int, j: int| #![trigger after[i], after[j]] 0 <= i < j < after.len() ==> {
            let a = if col == NodeSortColumn::Cpu { opt_int(after[i].1.cpu_millis) } else if col == NodeSortColumn::Memory { opt_int(after[i].1.memory_ki) } else { age_key(after[i].1) };
            let b = if col == NodeSortColumn::Cpu { opt_int(after[j].1.cpu_millis) } else if col == NodeSortColumn::Memory { opt_int(after[j].1.memory_ki) } else { age_key(after[j].1) };
            &&& (a is Some && b is Some) ==> (if dir == SortDirection::Ascending { a->Some_0 <= b->Some_0 } else { a->Some_0 >= b->Some_0 })
            &&& dir == SortDirection::Ascending ==> (a is None ==> b is None)
            &&& dir == SortDirection::Descending ==> (a is Some ==> b is Some)
        },
{
    assert forall|i: int, j: int| #![trigger after[i], after[j]] 0 <= i < j < after.len() implies {
        let a = if col == NodeSortColumn::Cpu { opt_int(after[i].1.cpu_millis) } else if col == NodeSortColumn::Memory { opt_int(after[i].1.memory_ki) } else { age_key(after[i].1) };
        let b = if col == NodeSortColumn::Cpu { opt_int(after[j].1.cpu_millis) } else if col == NodeSortColumn::Memory { opt_int(after[j].1.memory_ki) } else { age_key(after[j].1) };
        &&& (a is Some && b is Some) ==> (if dir == SortDirection::Ascending { a->Some_0 <= b->Some_0 } else { a->Some_0 >= b->Some_0 })
        &&& dir == SortDirection::Ascending ==> (a is None ==> b is None)
        &&& dir == SortDirection::Descending ==> (a is Some ==> b is Some)
    } by {
        assert(row_order(col, dir, after[i].1, after[j].1) != Order::Greater);
    }
}

/// After sorting by status ascending, `Ready` rows come first, then
/// `NotReady` rows, then all others; descending is the reverse.
pub proof fn lemma_sorted_by_status<T>(
    before: Seq<(T, NodeSortKeys)>,
    after: Seq<(T, NodeSortKeys)>,
    p: Seq<int>,
    dir: SortDirection,
)
    requires
        stably_sorted(before, after, p, NodeSortColumn::Status, dir),
    ensures
        forall|i: int, j: int| #![trigger after[i], after[j]] 0 <= i < j < after.len() ==> {
            let a = after[i].1.status@;
            let b = after[j].1.status@;
            &&& dir == SortDirection::Ascending ==> (b == "Ready"@ ==> a == "Ready"@)
                && (b == "NotReady"@ ==> a == "Ready"@ || a == "NotReady"@)
            &&& dir == SortDirection::Descending ==> (a == "Ready"@ ==> b == "Ready"@)
                && (a == "NotReady"@ ==> b == "Ready"@ || b == "NotReady"@)
        },
{
    assert forall|i: int, j: int| #![trigger after[i], after[j]] 0 <= i < j < after.len() implies {
        let a = after[i].1.status@;
        let b = after[j].1.status@;
        &&& dir == SortDirection::Ascending ==> (b == "Ready"@ ==> a == "Ready"@)
            && (b == "NotReady"@ ==> a == "Ready"@ || a == "NotReady"@)
        &&& dir == SortDirection::Descending ==> (a == "Ready"@ ==> b == "Ready"@)
            && (a == "NotReady"@ ==> b == "Ready"@ || b == "NotReady"@)
    } by {
        assert(row_order(NodeSortColumn::Status, dir, after[i].1, after[j].1) != Order::Greater);
    }
}

pub fn sort_nodes<T>(nodes: &mut Vec<(T, NodeSortKeys)>, state: &NodeSortState)
    requires
        state.column == Some(NodeSortColumn::Age) ==> ages_ok(old(nodes)@),
    ensures
        match (state.column, state.direction) {
            (Some(col), Some(dir)) => exists|p: Seq<int>| stably_sorted(old(nodes)@, final(nodes)@, p, col, dir),
            _ => final(nodes)@ == old(nodes)@,
        },
{
    let (col, dir) = match (state.column, state.direction) {
        (Some(c), Some(d)) => (c, d),
        _ => {
            return;
        },
    };
    let ghost orig = nodes@;
    let mut out: Vec<(T, NodeSortKeys)> = Vec::new();
    let ghost mut p: Seq<int> = Seq::empty();
    let mut k: usize = 0;
    let n = nodes.len();
    assert(nodes@ =~= orig.skip(0));
    while nodes.len() > 0
        invariant
            n == orig.len(),
            k + nodes@.len() == n,
            nodes@ == orig.skip(k as int),
            col == NodeSortColumn::Age ==> ages_ok(orig),
            out@.len() == k,
            p.len() == k,
            forall|i: int| 0 <= i < k ==> 0 <= #[trigger] p[i] < k,
            forall|i: int, j: int| 0 <= i < j < k ==> p[i] != p[j],
            forall|i: int| 0 <= i < k ==> #[trigger] out@[i] == orig[p[i]],
            forall|i: int, j: int| 0 <= i < j < k ==> row_order(col, dir, out@[i].1, out@[j].1) != Order::Greater,
            forall|i: int, j: int| 0 <= i < j < k && row_order(col, dir, out@[i].1, out@[j].1) == Order::Equal
                ==> p[i] < p[j],
        decreases nodes@.len(),
    {
        let x = nodes.remove(0);
        assert(x == orig[k as int]);
        let mut pos: usize = 0;
        while pos < out.len()
            invariant
                pos <= out@.len(),
                out@.len() == k,
                k < n,
                n == orig.len(),
                x == orig[k as int],
                col == NodeSortColumn::Age ==> ages_ok(orig),
                forall|i: int| 0 <= i < k ==> #[trigger] out@[i] == orig[p[i]],
                forall|i: int| 0 <= i < k ==> 0 <= #[trigger] p[i] < k,
                forall|i: int| 0 <= i < pos ==> row_order(col, dir, out@[i].1, x.1) != Order::Greater,
            ensures
                pos <= out@.len(),
                forall|i: int| 0 <= i < pos ==> row_order(col, dir, out@[i].1, x.1) != Order::Greater,
                pos < out@.len() ==> row_order(col, dir, out@[pos as int].1, x.1) == Order::Greater,
            decreases out@.len() - pos,
        {
            proof {
                assert(out@[pos as int] == orig[p[pos as int]]);
            }
            if row_order_exec(col, dir, &out[pos].1, &x.1) == Order::Greater {
                break;
            }
            pos += 1;
        }
        let ghost old_out = out@;
        let ghost old_p = p;
        out.insert(pos, x);
        proof {
            p = old_p.insert(pos as int, k as int);
            assert forall|i: int, j: int| 0 <= i < j < k + 1 implies row_order(col, dir, out@[i].1, out@[j].1) != Order::Greater by {
                if j == pos {
                } else if i == pos {
                    lemma_row_order(col, dir, x.1, old_out[pos as int].1, out@[j].1);
                } else {
                }
            }
            assert forall|i: int, j: int| 0 <= i < j < k + 1 && row_order(col, dir, out@[i].1, out@[j].1) == Order::Equal
                implies p[i] < p[j] by {
                if j == pos {
                } else if i == pos {
                    lemma_row_order(col, dir, x.1, old_out[pos as int].1, out@[j].1);
                } else {
                }
            }
        }
        k += 1;
        assert(nodes@ =~= orig.skip(k as int));
    }
    proof {
        assert(is_permutation(p, n as nat));
        assert(stably_sorted(orig, out@, p, col, dir));
    }
    *nodes = out;
}

// ---------------------------------------------------------------------------
// Node columns
// ---------------------------------------------------------------------------

/// What the node table reads of a node.
pub struct NodeInfo {
    pub meta: crate::resources::Meta,
    /// Label keys, in the order the label map iterates them.
    pub label_keys: Option<Vec<String>>,
    pub conditions: Option<Vec<crate::resources::Condition>>,
    /// `status.nodeInfo.kubeletVersion`.
    pub kubelet_version: Option<String>,
    /// `status.allocatable["cpu"]` and `["memory"]`.
    pub allocatable_cpu: Option<String>,
    pub allocatable_memory: Option<String>,
}

/// The first condition of type `Ready`.
pub open spec fn ready_condition(cs: Seq<crate::resources::Condition>) -> Option<crate::resources::Condition>
    decreases cs.len(),
{
    if cs.len() == 0 {
        None
    } else if cs[0].type_@ == "Ready"@ {
        Some(cs[0])
    } else {
        ready_condition(cs.drop_first())
    }
}

/// The status of a node and its style class: from its first `Ready`
/// condition, `Unknown` without one.
pub open spec fn node_status_spec(n: NodeInfo) -> (Seq<char>, Seq<char>) {
    match n.conditions {
        Some(cs) => match ready_condition(cs@) {
            Some(c) => if c.status@ == "True"@ {
                ("Ready"@, "status-success"@)
            } else {
                ("NotReady"@, "status-error"@)
            },
            None => ("Unknown"@, "status-unknown"@),
        },
        None => ("Unknown"@, "status-unknown"@),
    }
}

/// The status of a node and its style class.
pub fn get_node_status(n: &NodeInfo) -> (r: (String, &'static str))
    ensures
        r.0@ == node_status_spec(*n).0,
        r.1@ == node_status_spec(*n).1,
{
    if let Some(cs) = &n.conditions {
        let mut i: usize = 0;
        assert(cs@.skip(0) =~= cs@);
        while i < cs.len()
            invariant
                i <= cs@.len(),
                n.conditions == Some(*cs),
                ready_condition(cs@) == ready_condition(cs@.skip(i as int)),
            decreases cs@.len() - i,
        {
            assert(cs@.skip(i as int).drop_first() =~= cs@.skip(i + 1));
            assert(cs@.skip(i as int)[0] == cs@[i as int]);
            let t = chars_of(cs[i].type_.as_str());
            if crate::text::eq_str(t.as_slice(), "Ready") {
                let st = chars_of(cs[i].status.as_str());
                return if crate::text::eq_str(st.as_slice(), "True") {
                    (String::from_str("Ready"), "status-success")
                } else {
                    (String::from_str("NotReady"), "status-error")
                };
            }
            i += 1;
        }
    }
    (String::from_str("Unknown"), "status-unknown")
}

/// `str::trim_start_matches(p)`: removes every leading repetition of `p`.
pub open spec fn strip_start(s: Seq<char>, p: Seq<char>) -> Seq<char>
    decreases s.len(),
{
    if p.len() > 0 && crate::text::starts_with(s, p) {
        strip_start(s.skip(p.len() as int), p)
    } else {
        s
    }
}

/// `str::trim_start_matches(p)`.
pub fn strip_start_exec(s: &[char], p: &str) -> (r: Vec<char>)
    ensures
        r@ == strip_start(s@, p@),
{
    let pc = chars_of(p);
    let mut i: usize = 0;
    assert(s@.skip(0) =~= s@);
    while pc.len() > 0 && pc.len() <= s.len() - i && crate::text::starts_with_exec(crate::json::slice_chars(s, i, s.len()).as_slice(), pc.as_slice())
        invariant
            i <= s@.len(),
            pc@ == p@,
            strip_start(s@, p@) == strip_start(s@.skip(i as int), p@),
        decreases s@.len() - i,
    {
        assert(s@.skip(i as int).skip(pc@.len() as int) =~= s@.skip(i + pc@.len()));
        i = i + pc.len();
    }
    proof {
        if pc@.len() > 0 && i + pc@.len() > s@.len() {
            assert(!crate::text::starts_with(s@.skip(i as int), p@));
        }
    }
    crate::json::slice_chars(s, i, s.len())
}

/// The prefix of node role labels.
pub open spec fn role_prefix() -> Seq<char> {
    "node-role.kubernetes.io/"@
}

/// The roles named by label keys, in order.
pub open spec fn roles_of(keys: Seq<String>) -> Seq<Seq<char>>
    decreases keys.len(),
{
    if keys.len() == 0 {
        Seq::empty()
    } else {
        let k = keys.last()@;
        let r = strip_start(k, role_prefix());
        if crate::text::starts_with(k, role_prefix()) && r.len() > 0 {
            roles_of(keys.drop_last()).push(r)
        } else {
            roles_of(keys.drop_last())
        }
    }
}

/// Texts joined with `, `.
pub open spec fn join_comma(parts: Seq<Seq<char>>) -> Seq<char>
    decreases parts.len(),
{
    if parts.len() == 0 {
        Seq::empty()
    } else if parts.len() == 1 {
        parts[0]
    } else {
        join_comma(parts.drop_last()) + ", "@ + parts.last()
    }
}

/// The roles column: the roles from `node-role.kubernetes.io/` labels
/// joined with `, `, or `<none>`.
pub open spec fn node_roles_spec(n: NodeInfo) -> Seq<char> {
    let roles = match n.label_keys {
        Some(keys) => roles_of(keys@),
        None => Seq::empty(),
    };
    if roles.len() == 0 { "<none>"@ } else { join_comma(roles) }
}

/// The roles column of a node.
pub fn get_node_roles(n: &NodeInfo) -> (r: String)
    ensures
        r@ == node_roles_spec(*n),
{
    let mut out: Vec<char> = Vec::new();
    let ghost mut roles: Seq<Seq<char>> = Seq::empty();
    if let Some(keys) = &n.label_keys {
        let mut i: usize = 0;
        assert(keys@.take(0) =~= Seq::<String>::empty());
        while i < keys.len()
            invariant
                i <= keys@.len(),
                roles == roles_of(keys@.take(i as int)),
                out@ == join_comma(roles),
                forall|j: int| 0 <= j < roles.len() ==> (#[trigger] roles[j]).len() > 0,
                (roles.len() == 0) == (out@.len() == 0),
            decreases keys@.len() - i,
        {
            proof {
                assert(keys@.take(i + 1).drop_last() =~= keys@.take(i as int));
                assert(keys@.take(i + 1).last() == keys@[i as int]);
            }
            let k = chars_of(keys[i].as_str());
            if crate::text::starts_with_str(k.as_slice(), "node-role.kubernetes.io/") {
                let role = strip_start_exec(k.as_slice(), "node-role.kubernetes.io/");
                if role.len() > 0 {
                    let had = out.len() > 0;
                    if had {
                        push_str(&mut out, ", ");
                    }
                    push_all(&mut out, role.as_slice());
                    proof {
                        let old_roles = roles;
                        roles = roles.push(role@);
                        assert(roles.drop_last() =~= old_roles);
                        if old_roles.len() == 0 {
                            assert(out@ =~= join_comma(roles));
                        } else {
                            lemma_join_nonempty(old_roles);
                        }
                    }
                }
            }
            i += 1;
        }
        assert(keys@.take(i as int) =~= keys@);
    }
    if out.len() == 0 {
        String::from_str("<none>")
    } else {
        string_of(out.as_slice())
    }
}

proof fn lemma_join_nonempty(parts: Seq<Seq<char>>)
    requires
        parts.len() > 0,
        forall|i: int| 0 <= i < parts.len() ==> parts[i].len() > 0,
    ensures
        join_comma(parts).len() > 0,
    decreases parts.len(),
{
    if parts.len() > 1 {
        lemma_join_nonempty(parts.drop_last());
    }
}

/// The version column: the kubelet version, or `-`.
pub fn get_node_version(n: &NodeInfo) -> (r: String)
    ensures
        r@ == crate::resources::or_text(n.kubelet_version, "-"@),
{
    crate::resources::or_text_exec(&n.kubelet_version, "-")
}

/// Node age text for `d` elapsed seconds: like the table ages, but
/// negative seconds are shown as they are.
pub open spec fn node_age_text(d: int) -> Seq<char> {
    if d / 86400 > 0 {
        nat_dec((d / 86400) as nat) + "d"@
    } else if d / 3600 > 0 {
        nat_dec((d / 3600) as nat) + "h"@
    } else if d / 60 > 0 {
        nat_dec((d / 60) as nat) + "m"@
    } else {
        crate::num::int_dec(d) + "s"@
    }
}

/// Node age text for an elapsed time in seconds.
pub fn node_age_label(d: i64) -> (r: String)
    ensures
        r@ == node_age_text(d as int),
{
    let mut v: Vec<char> = Vec::new();
    if d / 86400 > 0 {
        push_all(&mut v, crate::num::u64_dec((d / 86400) as u64).as_slice());
        push_str(&mut v, "d");
    } else if d / 3600 > 0 {
        push_all(&mut v, crate::num::u64_dec((d / 3600) as u64).as_slice());
        push_str(&mut v, "h");
    } else if d / 60 > 0 {
        push_all(&mut v, crate::num::u64_dec((d / 60) as u64).as_slice());
        push_str(&mut v, "m");
    } else {
        push_all(&mut v, crate::num::i64_dec(d).as_slice());
        push_str(&mut v, "s");
    }
    string_of(v.as_slice())
}

/// The age column of a node: its age by the clock, or `-`.
pub fn get_node_age(n: &NodeInfo) -> (r: String)
    ensures
        n.meta.created is None ==> r@ == "-"@,
        n.meta.created matches Some(c) ==> exists|now: int|
            r@ == node_age_text(#[trigger] crate::resources::since(now, c as int)),
{
    match n.meta.created {
        None => String::from_str("-"),
        Some(c) => node_age_label(crate::resources::seconds_since(c)),
    }
}

/// The CPU column of a node: its allocatable CPU formatted, or `-`.
pub fn get_node_cpu(n: &NodeInfo) -> (r: String)
    ensures
        r@ == match n.allocatable_cpu {
            Some(c) => cpu_text(c@),
            None => "-"@,
        },
{
    match &n.allocatable_cpu {
        Some(c) => format_cpu(c.as_str()),
        None => String::from_str("-"),
    }
}

/// The memory column of a node: its allocatable memory formatted, or `-`.
pub fn get_node_memory(n: &NodeInfo) -> (r: String)
    ensures
        r@ == match n.allocatable_memory {
            Some(m) => memory_text(m@),
            None => "-"@,
        },
{
    match &n.allocatable_memory {
        Some(m) => format_memory(m.as_str()),
        None => String::from_str("-"),
    }
}

} // verus!
