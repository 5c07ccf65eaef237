//! A terminal screen buffer: a grid of lines fed with the output of a shell,
//! with cursor movement, erasing and the common CSI escape sequences.
//!
//! The screen is a grid of characters: lines are character sequences and
//! the cursor column counts characters. A step fails (the spec yields
//! `None`) only where the cursor arithmetic would overflow `usize`.

use vstd::prelude::*;
use crate::num::{is_digit, parse_unsigned, parse_usize};
use crate::text::string_of;

verus! {

// ---------------------------------------------------------------------------
// Byte geometry of text (for slicing a `String` by byte offsets)
// ---------------------------------------------------------------------------

/// Length of the UTF-8 encoding of `c`.
pub open spec fn cw(c: char) -> nat {
    if (c as u32) < 0x80 {
        1
    } else if (c as u32) < 0x800 {
        2
    } else if (c as u32) < 0x10000 {
        3
    } else {
        4
    }
}

/// Length in bytes of the UTF-8 encoding of a line.
pub open spec fn blen(s: Seq<char>) -> nat
    decreases s.len(),
{
    if s.len() == 0 {
        0
    } else {
        blen(s.drop_last()) + cw(s.last())
    }
}

/// The character index whose byte offset is `b`, if `b` is a character boundary.
pub open spec fn char_idx(s: Seq<char>, b: int) -> Option<int>
    decreases s.len(),
{
    if b == 0 {
        Some(0)
    } else if b < 0 || s.len() == 0 {
        None
    } else {
        match char_idx(s.drop_first(), b - cw(s[0])) {
            Some(k) => Some(k + 1),
            None => None,
        }
    }
}

/// `n` spaces.
pub open spec fn spaces(n: nat) -> Seq<char> {
    Seq::new(n, |i: int| ' ')
}

/// The line with the character at column `k` removed, where there is one.
pub open spec fn remove_at(s: Seq<char>, k: int) -> Option<Seq<char>> {
    if 0 <= k < s.len() { Some(s.remove(k)) } else { None }
}

/// The line cut to its first `k` characters (unchanged where shorter).
pub open spec fn truncate_at(s: Seq<char>, k: nat) -> Seq<char> {
    if k >= s.len() { s } else { s.take(k as int) }
}

/// The line with its first `min(col, len)` characters replaced by spaces.
pub open spec fn blank_prefix(s: Seq<char>, col: nat) -> Seq<char> {
    let m: nat = if col < s.len() { col } else { s.len() };
    spaces(m) + s.skip(m as int)
}

/// The line padded with spaces to column `col`.
pub open spec fn pad_to(s: Seq<char>, col: nat) -> Seq<char> {
    if s.len() < col { s + spaces((col - s.len()) as nat) } else { s }
}

/// Writes `c` at column `col`, padding with spaces first.
pub open spec fn put_in_line(s: Seq<char>, col: nat, c: char) -> Seq<char> {
    let p = pad_to(s, col);
    if col < p.len() { p.update(col as int, c) } else { p.push(c) }
}

/// Removes the character at column `col` up to `n` times (CSI `P`).
pub open spec fn delete_chars(s: Seq<char>, col: nat, n: nat) -> Seq<char>
    decreases n,
{
    if n == 0 || col >= s.len() {
        s
    } else {
        delete_chars(s.remove(col as int), col, (n - 1) as nat)
    }
}

// ---------------------------------------------------------------------------
// Screen state
// ---------------------------------------------------------------------------

/// The abstract screen: its lines and the cursor (row, column).
pub struct Screen {
    pub lines: Seq<Seq<char>>,
    pub row: nat,
    pub col: nat,
}

/// Well-formed screen: at least one line and the cursor row inside the grid.
pub open spec fn screen_wf(s: Screen) -> bool {
    s.lines.len() > 0 && s.row < s.lines.len()
}

/// Adds empty lines until the cursor row exists.
pub open spec fn ensure_line(s: Screen) -> Option<Screen> {
    if s.row >= usize::MAX {
        None
    } else if s.lines.len() > s.row {
        Some(s)
    } else {
        Some(Screen {
            lines: s.lines + Seq::new((s.row + 1 - s.lines.len()) as nat, |i: int| Seq::<char>::empty()),
            ..s
        })
    }
}

/// Replaces the cursor line of an ensured screen via `f`.
pub open spec fn with_line(s: Screen, l: Option<Seq<char>>) -> Option<Screen> {
    match l {
        Some(x) => Some(Screen { lines: s.lines.update(s.row as int, x), ..s }),
        None => None,
    }
}

/// Writes a character at the cursor and advances the cursor.
pub open spec fn put_char(s: Screen, c: char) -> Option<Screen> {
    match ensure_line(s) {
        Some(t) => {
            if t.col >= usize::MAX {
                None
            } else {
                Some(Screen { lines: t.lines.update(t.row as int, put_in_line(t.lines[t.row as int], t.col, c)), col: t.col + 1, ..t })
            }
        },
        None => None,
    }
}

/// Writes `k` spaces (the tail of a tab).
pub open spec fn put_spaces(s: Screen, k: nat) -> Option<Screen>
    decreases k,
{
    if k == 0 {
        Some(s)
    } else {
        match put_char(s, ' ') {
            Some(t) => put_spaces(t, (k - 1) as nat),
            None => None,
        }
    }
}

/// Unicode general category `Cc` (`char::is_control`).
pub open spec fn is_control(c: char) -> bool {
    (c as u32) < 0x20 || (0x7f <= (c as u32) && (c as u32) < 0xa0)
}

/// Effect of one ordinary (non-escape) character.
pub open spec fn plain_char(s: Screen, c: char) -> Option<Screen> {
    if c == '\n' {
        if s.row >= usize::MAX {
            None
        } else {
            ensure_line(Screen { row: s.row + 1, col: 0, ..s })
        }
    } else if c == '\r' {
        Some(Screen { col: 0, ..s })
    } else if c == '\x08' || c == '\x7f' {
        if s.col > 0 {
            match ensure_line(Screen { col: (s.col - 1) as nat, ..s }) {
                Some(t) => {
                    let line = t.lines[t.row as int];
                    if t.col < line.len() {
                        with_line(t, remove_at(line, t.col as int))
                    } else {
                        Some(t)
                    }
                },
                None => None,
            }
        } else {
            Some(s)
        }
    } else if c == '\t' {
        let next = (s.col / 8 + 1) * 8;
        if next > usize::MAX {
            None
        } else {
            put_spaces(s, (next - s.col) as nat)
        }
    } else if is_control(c) {
        Some(s)
    } else {
        put_char(s, c)
    }
}

/// Value of a CSI parameter (`str::parse::<usize>().unwrap_or(0)`).
pub open spec fn param_of(cur: Seq<char>) -> nat {
    match parse_unsigned(cur, usize::MAX as nat) {
        Some(v) => v,
        None => 0,
    }
}

/// The low byte of a character (`c as u8`).
pub open spec fn low8(c: char) -> u32 {
    (c as u32) % 256
}

/// Scans a CSI sequence from position `i`: the index after it, its final
/// character (the command) if one was found, and its parameters.
pub open spec fn csi_scan(s: Seq<char>, i: int, params: Seq<nat>, cur: Seq<char>) -> (int, Option<char>, Seq<nat>)
    decreases s.len() - i,
{
    if i < 0 || i >= s.len() {
        (i, None, params)
    } else {
        let c = s[i];
        if is_digit(c) {
            csi_scan(s, i + 1, params, cur.push(c))
        } else if c == ';' {
            csi_scan(s, i + 1, params.push(param_of(cur)), Seq::empty())
        } else if 0x40 <= low8(c) && low8(c) <= 0x7e {
            (i + 1, Some(c), if cur.len() > 0 { params.push(param_of(cur)) } else { params })
        } else if 0x20 <= low8(c) && low8(c) <= 0x3f {
            csi_scan(s, i + 1, params, cur)
        } else {
            (i, None, params)
        }
    }
}

/// The scan stays inside the input.
pub proof fn lemma_csi_scan_bounds(s: Seq<char>, i: int, params: Seq<nat>, cur: Seq<char>)
    requires
        0 <= i <= s.len(),
    ensures
        i <= csi_scan(s, i, params, cur).0 <= s.len(),
    decreases s.len() - i,
{
    if i < s.len() {
        let c = s[i];
        if is_digit(c) {
            lemma_csi_scan_bounds(s, i + 1, params, cur.push(c));
        } else if c == ';' {
            lemma_csi_scan_bounds(s, i + 1, params.push(param_of(cur)), Seq::empty());
        } else if 0x40 <= low8(c) && low8(c) <= 0x7e {
        } else if 0x20 <= low8(c) && low8(c) <= 0x3f {
            lemma_csi_scan_bounds(s, i + 1, params, cur);
        }
    }
}

/// First parameter, defaulting to `d`.
pub open spec fn param0(params: Seq<nat>, d: nat) -> nat {
    if params.len() > 0 { params[0] } else { d }
}

/// A count parameter: the first parameter (default 1), at least 1.
pub open spec fn count_param(params: Seq<nat>) -> nat {
    let n = param0(params, 1);
    if n < 1 { 1 } else { n }
}

/// A 1-based position parameter made 0-based.
pub open spec fn pos_param(params: Seq<nat>, i: int) -> nat {
    let n = if i < params.len() { params[i] } else { 1 };
    if n < 1 { 0 } else { (n - 1) as nat }
}

/// The empty screen.
pub open spec fn blank_screen() -> Screen {
    Screen { lines: seq![Seq::<char>::empty()], row: 0, col: 0 }
}

/// Effect of a CSI command with its parameters.
pub open spec fn exec_csi(s: Screen, cmd: char, params: Seq<nat>) -> Option<Screen> {
    if cmd == 'A' {
        let n = count_param(params);
        Some(Screen { row: if s.row >= n { (s.row - n) as nat } else { 0 }, ..s })
    } else if cmd == 'B' {
        let n = count_param(params);
        if s.row + n > usize::MAX {
            None
        } else {
            ensure_line(Screen { row: s.row + n, ..s })
        }
    } else if cmd == 'C' {
        let n = count_param(params);
        if s.col + n > usize::MAX {
            None
        } else {
            Some(Screen { col: s.col + n, ..s })
        }
    } else if cmd == 'D' {
        let n = count_param(params);
        Some(Screen { col: if s.col >= n { (s.col - n) as nat } else { 0 }, ..s })
    } else if cmd == 'H' || cmd == 'f' {
        ensure_line(Screen { row: pos_param(params, 0), col: pos_param(params, 1), ..s })
    } else if cmd == 'J' {
        let mode = param0(params, 0);
        if mode == 0 {
            match ensure_line(s) {
                Some(t) => Some(Screen {
                    lines: t.lines.update(t.row as int, truncate_at(t.lines[t.row as int], t.col)).take((t.row + 1) as int),
                    ..t
                }),
                None => None,
            }
        } else if mode == 1 {
            let cleared = Seq::new(s.lines.len(), |i: int| if i < s.row { Seq::<char>::empty() } else { s.lines[i] });
            if s.row < s.lines.len() {
                Some(Screen { lines: cleared.update(s.row as int, blank_prefix(s.lines[s.row as int], s.col)), ..s })
            } else {
                Some(Screen { lines: cleared, ..s })
            }
        } else if mode == 2 || mode == 3 {
            Some(blank_screen())
        } else {
            Some(s)
        }
    } else if cmd == 'K' {
        let mode = param0(params, 0);
        match ensure_line(s) {
            Some(t) => {
                let line = t.lines[t.row as int];
                if mode == 0 {
                    with_line(t, Some(truncate_at(line, t.col)))
                } else if mode == 1 {
                    with_line(t, Some(blank_prefix(line, t.col)))
                } else if mode == 2 {
                    with_line(t, Some(Seq::empty()))
                } else {
                    Some(t)
                }
            },
            None => None,
        }
    } else if cmd == 'P' {
        let n = count_param(params);
        match ensure_line(s) {
            Some(t) => with_line(t, Some(delete_chars(t.lines[t.row as int], t.col, n))),
            None => None,
        }
    } else {
        Some(s)
    }
}

/// Index just past an OSC sequence body starting at `i`: up to and
/// including the first BEL or ESC, or the end of the input.
pub open spec fn osc_end(s: Seq<char>, i: int) -> int
    decreases s.len() - i,
{
    if i < 0 || i >= s.len() {
        i
    } else if s[i] == '\x07' || s[i] == '\x1b' {
        i + 1
    } else {
        osc_end(s, i + 1)
    }
}

/// The OSC skip stays inside the input.
pub proof fn lemma_osc_end_bounds(s: Seq<char>, i: int)
    requires
        0 <= i <= s.len(),
    ensures
        i <= osc_end(s, i) <= s.len(),
    decreases s.len() - i,
{
    if i < s.len() && !(s[i] == '\x07' || s[i] == '\x1b') {
        lemma_osc_end_bounds(s, i + 1);
    }
}

/// The screen after feeding the characters `s[i..]`, or `None` where a
/// step cannot be taken (an arithmetic overflow of the cursor).
pub open spec fn run_from(st: Screen, s: Seq<char>, i: int) -> Option<Screen>
    decreases s.len() - i,
{
    if i < 0 || i >= s.len() {
        Some(st)
    } else if s[i] == '\x1b' {
        if i + 1 < s.len() && s[i + 1] == '[' {
            proof {
                lemma_csi_scan_bounds(s, i + 2, Seq::empty(), Seq::empty());
            }
            let scan = csi_scan(s, i + 2, Seq::empty(), Seq::empty());
            let next = match scan.1 {
                Some(cmd) => exec_csi(st, cmd, scan.2),
                None => Some(st),
            };
            match next {
                Some(t) => run_from(t, s, scan.0),
                None => None,
            }
        } else if i + 1 < s.len() && s[i + 1] == ']' {
            proof {
                lemma_osc_end_bounds(s, i + 2);
            }
            run_from(st, s, osc_end(s, i + 2))
        } else {
            run_from(st, s, i + 1)
        }
    } else {
        match plain_char(st, s[i]) {
            Some(t) => run_from(t, s, i + 1),
            None => None,
        }
    }
}

/// Drops the oldest lines beyond `max`, moving the cursor up with them.
pub open spec fn trim_to(st: Screen, max: nat) -> Screen {
    if st.lines.len() > max {
        let d = (st.lines.len() - max) as nat;
        Screen { lines: st.lines.skip(d as int), row: if st.row >= d { (st.row - d) as nat } else { 0 }, col: st.col }
    } else {
        st
    }
}

/// Effect of feeding the characters `s`: run them, then keep at most `max` lines.
pub open spec fn feed(st: Screen, s: Seq<char>, max: nat) -> Option<Screen> {
    match run_from(st, s, 0) {
        Some(t) => Some(trim_to(t, max)),
        None => None,
    }
}


// ---------------------------------------------------------------------------
// Executable line editing
// ---------------------------------------------------------------------------

/// `Some(x + k)` for `Some(x)`.
pub open spec fn shift(o: Option<int>, k: int) -> Option<int> {
    match o {
        Some(x) => Some(x + k),
        None => None,
    }
}

/// Byte width of the UTF-8 encoding of `c`.
fn cw_exec(c: char) -> (r: u32)
    ensures
        r == cw(c),
        1 <= r <= 4,
{
    let u = c as u32;
    if u < 0x80 {
        1
    } else if u < 0x800 {
        2
    } else if u < 0x10000 {
        3
    } else {
        4
    }
}

/// Byte length of a line.
pub(crate) fn blen_exec(s: &[char]) -> (r: u128)
    ensures
        r == blen(s@),
{
    let mut acc: u128 = 0;
    let mut i: usize = 0;
    proof {
        assert(s@.take(0) =~= Seq::<char>::empty());
    }
    while i < s.len()
        invariant
            i <= s@.len(),
            acc == blen(s@.take(i as int)),
            acc <= 4 * i,
        decreases s@.len() - i,
    {
        let w = cw_exec(s[i]);
        proof {
            assert(s@.take(i + 1).drop_last() =~= s@.take(i as int));
        }
        acc = acc + (w as u128);
        i += 1;
    }
    assert(s@.take(i as int) =~= s@);
    acc
}

/// The character index at byte offset `b`, if `b` is a boundary.
pub(crate) fn char_idx_exec(s: &[char], b: u128) -> (r: Option<usize>)
    ensures
        match r {
            Some(k) => char_idx(s@, b as int) == Some(k as int),
            None => char_idx(s@, b as int) is None,
        },
{
    let mut off: u128 = 0;
    let mut k: usize = 0;
    proof {
        assert(s@.skip(0) =~= s@);
    }
    while k < s.len() && off < b
        invariant
            k <= s@.len(),
            off <= b,
            off <= 4 * k,
            char_idx(s@, b as int) == shift(char_idx(s@.skip(k as int), b - off), k as int),
        decreases s@.len() - k,
    {
        let w = cw_exec(s[k]);
        proof {
            let t = s@.skip(k as int);
            assert(t.drop_first() =~= s@.skip(k + 1));
            assert(t[0] == s@[k as int]);
        }
        if off + (w as u128) > b {
            proof {
                let t = s@.skip(k as int);
                assert(t.drop_first() =~= s@.skip(k + 1));
                // the remaining offset falls inside this character
                assert(char_idx(t.drop_first(), b - off - w) is None) by {
                    assert(b - off - w < 0);
                }
            }
            return None;
        }
        off = off + (w as u128);
        k += 1;
    }
    if off == b {
        Some(k)
    } else {
        None
    }
}

/// Cuts the line to its first `k` characters.
fn truncate_at_exec(line: &mut Vec<char>, k: usize)
    ensures
        final(line)@ == truncate_at(old(line)@, k as nat),
{
    if k < line.len() {
        line.truncate(k);
    }
}

/// Replaces the first `min(col, len)` characters with spaces.
fn blank_prefix_exec(line: &mut Vec<char>, col: usize)
    ensures
        final(line)@ == blank_prefix(old(line)@, col as nat),
{
    let m: usize = if col < line.len() { col } else { line.len() };
    let mut i: usize = 0;
    while i < m
        invariant
            i <= m,
            m <= line@.len(),
            m == (if col < old(line)@.len() { col as int } else { old(line)@.len() as int }),
            line@ == spaces(i as nat) + old(line)@.skip(i as int),
        decreases m - i,
    {
        line.set(i, ' ');
        i += 1;
        assert(line@ =~= spaces(i as nat) + old(line)@.skip(i as int));
    }
    assert(old(line)@.skip(m as int) =~= old(line)@.skip(m as int));
}

pub(crate) proof fn lemma_char_idx_le(s: Seq<char>, b: int)
    ensures
        char_idx(s, b) matches Some(k) ==> 0 <= k <= s.len(),
    decreases s.len(),
{
    if b != 0 && b >= 0 && s.len() > 0 {
        lemma_char_idx_le(s.drop_first(), b - cw(s[0]));
    }
}

/// Writes `c` at column `col`, padding with spaces first.
fn put_in_line_exec(line: &mut Vec<char>, col: usize, c: char)
    ensures
        final(line)@ == put_in_line(old(line)@, col as nat, c),
{
    let ghost s0 = line@;
    let n = line.len();
    if n < col {
        let mut i: usize = n;
        while i < col
            invariant
                n <= i <= col,
                n == s0.len(),
                line@ == s0 + spaces((i - n) as nat),
            decreases col - i,
        {
            line.push(' ');
            i += 1;
            assert(line@ =~= s0 + spaces((i - n) as nat));
        }
    }
    assert(line@ == pad_to(s0, col as nat));
    if col < line.len() {
        line.set(col, c);
    } else {
        line.push(c);
    }
}

/// Removes the character at column `col` up to `n` times.
fn delete_chars_exec(line: &mut Vec<char>, col: usize, n: usize)
    ensures
        final(line)@ == delete_chars(old(line)@, col as nat, n as nat),
{
    let mut left = n;
    while left > 0
        invariant
            left <= n,
            delete_chars(old(line)@, col as nat, n as nat) == delete_chars(line@, col as nat, left as nat),
        decreases left,
    {
        if col >= line.len() {
            return;
        }
        line.remove(col);
        left -= 1;
    }
}

// ---------------------------------------------------------------------------
// The buffer
// ---------------------------------------------------------------------------

/// The lines of a buffer as character sequences.
pub open spec fn lines_view(v: Seq<Vec<char>>) -> Seq<Seq<char>> {
    Seq::new(v.len(), |i: int| v[i]@)
}

/// CSI parameters as naturals.
pub open spec fn nats(p: Seq<usize>) -> Seq<nat> {
    Seq::new(p.len(), |i: int| p[i] as nat)
}

/// Decoding of bytes as UTF-8 where each invalid sequence becomes U+FFFD.
pub uninterp spec fn utf8_lossy(b: Seq<u8>) -> Seq<char>;

/// `String::from_utf8_lossy`, read out as characters; the contract names
/// the decoding and states that valid UTF-8 decodes as it is (the
/// documentation: valid input comes back borrowed, unchanged).
#[verifier::external_body]
fn decode_lossy(data: &[u8]) -> (r: Vec<char>)
    ensures
        r@ == utf8_lossy(data@),
        vstd::utf8::valid_utf8(data@) ==> r@ == vstd::utf8::decode_utf8(data@),
{
    String::from_utf8_lossy(data).chars().collect()
}

/// Lines a new buffer keeps at most.
pub const DEFAULT_MAX_LINES: usize = 1000;

/// A terminal screen buffer: lines of text and a cursor.
pub struct TerminalBuffer {
    lines: Vec<Vec<char>>,
    cursor_row: usize,
    cursor_col: usize,
    max_lines: usize,
}

impl TerminalBuffer {
    /// The screen this buffer holds.
    pub closed spec fn screen(&self) -> Screen {
        Screen { lines: lines_view(self.lines@), row: self.cursor_row as nat, col: self.cursor_col as nat }
    }

    /// How many lines the buffer keeps at most.
    pub closed spec fn line_limit(&self) -> nat {
        self.max_lines as nat
    }

    /// At least one line, the cursor row inside the grid, a positive limit.
    pub closed spec fn wf(&self) -> bool {
        screen_wf(self.screen()) && self.max_lines >= 1
    }

    /// Adds empty lines until the cursor row exists; `false` where the
    /// row count would overflow.
    fn ensure_line_exists(&mut self) -> (ok: bool)
        ensures
            ok == ensure_line(old(self).screen()) is Some,
            ok ==> final(self).screen() == ensure_line(old(self).screen())->Some_0,
            final(self).line_limit() == old(self).line_limit(),
    {
        if self.cursor_row == usize::MAX {
            return false;
        }
        let ghost s0 = self.screen();
        while self.lines.len() <= self.cursor_row
            invariant
                self.cursor_row < usize::MAX,
                self.cursor_row == s0.row,
                self.cursor_col == s0.col,
                self.max_lines == old(self).max_lines,
                s0.lines.len() <= self.lines.len(),
                self.lines.len() == s0.lines.len() || self.lines.len() <= self.cursor_row + 1,
                lines_view(self.lines@) == s0.lines + Seq::new(
                    (self.lines.len() - s0.lines.len()) as nat,
                    |i: int| Seq::<char>::empty(),
                ),
            decreases self.cursor_row + 1 - self.lines.len(),
        {
            let ghost before = lines_view(self.lines@);
            self.lines.push(Vec::new());
            assert(lines_view(self.lines@) =~= before.push(Seq::<char>::empty()));
            assert(lines_view(self.lines@) =~= s0.lines + Seq::new(
                (self.lines.len() - s0.lines.len()) as nat,
                |i: int| Seq::<char>::empty(),
            ));
        }
        assert(self.lines.len() == s0.lines.len() ==> lines_view(self.lines@) =~= s0.lines);
        true
    }

    /// Puts a character at the cursor position and advances the cursor.
    fn put_char(&mut self, c: char) -> (ok: bool)
        ensures
            ok == put_char(old(self).screen(), c) is Some,
            ok ==> final(self).screen() == put_char(old(self).screen(), c)->Some_0,
            final(self).line_limit() == old(self).line_limit(),
    {
        if !self.ensure_line_exists() {
            return false;
        }
        if self.cursor_col == usize::MAX {
            return false;
        }
        let ghost t = self.screen();
        assert(t.lines.len() == self.lines.len());
        let row = self.cursor_row;
        let mut line = self.lines.remove(row);
        put_in_line_exec(&mut line, self.cursor_col, c);
        self.lines.insert(row, line);
        self.cursor_col += 1;
        assert(lines_view(self.lines@) =~= t.lines.update(row as int, line@));
        true
    }

    /// Moves to the next tab stop (every 8 columns) by writing spaces.
    fn put_tab(&mut self) -> (ok: bool)
        ensures
            ok == plain_char(old(self).screen(), '\t') is Some,
            ok ==> final(self).screen() == plain_char(old(self).screen(), '\t')->Some_0,
            final(self).line_limit() == old(self).line_limit(),
    {
        let next: u128 = ((self.cursor_col / 8) as u128 + 1) * 8;
        if next > usize::MAX as u128 {
            return false;
        }
        let ghost s0 = self.screen();
        while (self.cursor_col as u128) < next
            invariant
                next <= usize::MAX,
                s0 == old(self).screen(),
                next == (s0.col / 8 + 1) * 8,
                self.cursor_col <= next,
                self.max_lines == old(self).max_lines,
                put_spaces(s0, (next - s0.col) as nat) == put_spaces(self.screen(), (next - self.cursor_col) as nat),
            decreases next - self.cursor_col,
        {
            if !self.put_char(' ') {
                return false;
            }
        }
        true
    }

    /// Effect of one character that does not start an escape sequence.
    fn plain_char(&mut self, c: char) -> (ok: bool)
        ensures
            ok == plain_char(old(self).screen(), c) is Some,
            ok ==> final(self).screen() == plain_char(old(self).screen(), c)->Some_0,
            final(self).line_limit() == old(self).line_limit(),
    {
        if c == '\n' {
            if self.cursor_row == usize::MAX {
                return false;
            }
            self.cursor_row += 1;
            self.cursor_col = 0;
            self.ensure_line_exists()
        } else if c == '\r' {
            self.cursor_col = 0;
            true
        } else if c == '\x08' || c == '\x7f' {
            if self.cursor_col > 0 {
                self.cursor_col -= 1;
                if !self.ensure_line_exists() {
                    return false;
                }
                let ghost t = self.screen();
                assert(t.lines.len() == self.lines.len());
                let row = self.cursor_row;
                let mut line = self.lines.remove(row);
                let len = line.len();
                if self.cursor_col < len {
                    line.remove(self.cursor_col);
                }
                self.lines.insert(row, line);
                assert(lines_view(self.lines@) =~= t.lines.update(row as int, line@));
                assert(!(self.cursor_col < len) ==> lines_view(self.lines@) =~= t.lines);
                true
            } else {
                true
            }
        } else if c == '\t' {
            self.put_tab()
        } else if (c as u32) < 0x20 || (0x7f <= (c as u32) && (c as u32) < 0xa0) {
            true
        } else {
            self.put_char(c)
        }
    }

    /// Replaces the cursor line by the result of an edit.
    fn edit_line(&mut self, how: u8, n: usize) -> (ok: bool)
        requires
            old(self).cursor_row < old(self).lines.len(),
            how < 4,
        ensures
            ({
                let s = old(self).screen();
                let l = s.lines[s.row as int];
                let r = if how == 0 {
                    Some(truncate_at(l, s.col))
                } else if how == 1 {
                    Some(blank_prefix(l, s.col))
                } else if how == 2 {
                    Some(Seq::<char>::empty())
                } else {
                    Some(delete_chars(l, s.col, n as nat))
                };
                &&& ok == r is Some
                &&& ok ==> final(self).screen() == with_line(s, r)->Some_0
            }),
            final(self).line_limit() == old(self).line_limit(),
            final(self).lines.len() == old(self).lines.len(),
    {
        let ghost t = self.screen();
        assert(t.lines.len() == self.lines.len());
        let row = self.cursor_row;
        let col = self.cursor_col;
        let mut line = self.lines.remove(row);
        if how == 0 {
            truncate_at_exec(&mut line, col);
        } else if how == 1 {
            blank_prefix_exec(&mut line, col);
        } else if how == 2 {
            line.clear();
            assert(line@ =~= Seq::<char>::empty());
        } else {
            delete_chars_exec(&mut line, col, n);
        }
        let ok = true;
        self.lines.insert(row, line);
        assert(lines_view(self.lines@) =~= t.lines.update(row as int, line@));
        ok
    }

    /// Runs a CSI command with its parameters; `false` where the command
    /// cannot be carried out (see `exec_csi`).
    fn execute_csi(&mut self, cmd: char, params: &[usize]) -> (ok: bool)
        requires
            old(self).wf(),
        ensures
            ok == exec_csi(old(self).screen(), cmd, nats(params@)) is Some,
            ok ==> final(self).screen() == exec_csi(old(self).screen(), cmd, nats(params@))->Some_0,
            final(self).line_limit() == old(self).line_limit(),
    {
        let ghost ps = nats(params@);
        let first: usize = if params.len() > 0 { params[0] } else { 1 };
        let count: usize = if first < 1 { 1 } else { first };
        let mode: usize = if params.len() > 0 { params[0] } else { 0 };
        assert(count == count_param(ps));
        assert(mode == param0(ps, 0));
        if cmd == 'A' {
            self.cursor_row = if self.cursor_row >= count { self.cursor_row - count } else { 0 };
            true
        } else if cmd == 'B' {
            if self.cursor_row as u128 + count as u128 > usize::MAX as u128 {
                return false;
            }
            self.cursor_row = self.cursor_row + count;
            self.ensure_line_exists()
        } else if cmd == 'C' {
            if self.cursor_col as u128 + count as u128 > usize::MAX as u128 {
                return false;
            }
            self.cursor_col = self.cursor_col + count;
            true
        } else if cmd == 'D' {
            self.cursor_col = if self.cursor_col >= count { self.cursor_col - count } else { 0 };
            true
        } else if cmd == 'H' || cmd == 'f' {
            let r: usize = if params.len() > 0 { params[0] } else { 1 };
            let c: usize = if params.len() > 1 { params[1] } else { 1 };
            self.cursor_row = if r < 1 { 0 } else { r - 1 };
            self.cursor_col = if c < 1 { 0 } else { c - 1 };
            assert(self.cursor_row == pos_param(ps, 0));
            assert(self.cursor_col == pos_param(ps, 1));
            self.ensure_line_exists()
        } else if cmd == 'J' {
            if mode == 0 {
                if !self.ensure_line_exists() {
                    return false;
                }
                let ghost t = self.screen();
                assert(t.lines.len() == self.lines.len());
                if !self.edit_line(0, 0) {
                    return false;
                }
                let ghost u = lines_view(self.lines@);
                self.lines.truncate(self.cursor_row + 1);
                assert(lines_view(self.lines@) =~= u.take(self.cursor_row + 1));
                true
            } else if mode == 1 {
                let ghost s0 = self.screen();
                let mut i: usize = 0;
                while i < self.cursor_row
                    invariant
                        s0 == old(self).screen(),
                        i <= self.cursor_row,
                        self.cursor_row == s0.row,
                        self.cursor_col == s0.col,
                        self.max_lines == old(self).max_lines,
                        s0.row < s0.lines.len(),
                        self.lines.len() == s0.lines.len(),
                        lines_view(self.lines@) == Seq::new(
                            s0.lines.len(),
                            |j: int| if j < i { Seq::<char>::empty() } else { s0.lines[j] },
                        ),
                    decreases self.cursor_row - i,
                {
                    let ghost before = lines_view(self.lines@);
                    let empty: Vec<char> = Vec::new();
                    assert(empty@ =~= Seq::<char>::empty());
                    self.lines.set(i, empty);
                    assert(lines_view(self.lines@) =~= before.update(i as int, Seq::<char>::empty()));
                    i += 1;
                    assert(lines_view(self.lines@) =~= Seq::new(
                        s0.lines.len(),
                        |j: int| if j < i { Seq::<char>::empty() } else { s0.lines[j] },
                    ));
                }
                self.edit_line(1, 0)
            } else if mode == 2 || mode == 3 {
                self.lines = vec![Vec::new()];
                self.cursor_row = 0;
                self.cursor_col = 0;
                assert(lines_view(self.lines@) =~= seq![Seq::<char>::empty()]);
                true
            } else {
                true
            }
        } else if cmd == 'K' {
            if !self.ensure_line_exists() {
                return false;
            }
            let ghost t = self.screen();
            assert(t.lines.len() == self.lines.len());
            if mode == 0 {
                self.edit_line(0, 0)
            } else if mode == 1 {
                self.edit_line(1, 0)
            } else if mode == 2 {
                self.edit_line(2, 0)
            } else {
                true
            }
        } else if cmd == 'P' {
            if !self.ensure_line_exists() {
                return false;
            }
            let ghost t = self.screen();
            assert(t.lines.len() == self.lines.len());
            self.edit_line(3, count)
        } else {
            true
        }
    }

    /// Reads a CSI sequence whose parameters start at `s[start]` and runs
    /// its command: the index after the sequence, and `false` where the
    /// command would panic.
    fn process_csi(&mut self, s: &[char], start: usize) -> (r: (usize, bool))
        requires
            start <= s@.len(),
            old(self).wf(),
        ensures
            ({
                let scan = csi_scan(s@, start as int, Seq::empty(), Seq::empty());
                let next = match scan.1 {
                    Some(cmd) => exec_csi(old(self).screen(), cmd, scan.2),
                    None => Some(old(self).screen()),
                };
                &&& r.0 == scan.0
                &&& r.1 == next is Some
                &&& r.1 ==> final(self).screen() == next->Some_0
            }),
            final(self).line_limit() == old(self).line_limit(),
    {
        let mut params: Vec<usize> = Vec::new();
        let mut cur: Vec<char> = Vec::new();
        let mut i = start;
        assert(nats(params@) =~= Seq::<nat>::empty());
        loop
            invariant
                start <= i <= s@.len(),
                self.wf(),
                self.screen() == old(self).screen(),
                self.max_lines == old(self).max_lines,
                csi_scan(s@, start as int, Seq::empty(), Seq::empty()) == csi_scan(
                    s@,
                    i as int,
                    nats(params@),
                    cur@,
                ),
            decreases s@.len() - i,
        {
            if i >= s.len() {
                return (i, true);
            }
            let c = s[i];
            let low: u32 = (c as u32) % 256;
            assert(low == low8(c));
            if '0' <= c && c <= '9' {
                cur.push(c);
                i += 1;
            } else if c == ';' {
                let v: usize = match parse_usize(cur.as_slice()) {
                    Some(v) => v,
                    None => 0,
                };
                let ghost before = nats(params@);
                params.push(v);
                assert(nats(params@) =~= before.push(param_of(cur@)));
                cur = Vec::new();
                assert(cur@ =~= Seq::<char>::empty());
                i += 1;
            } else if 0x40 <= low && low <= 0x7e {
                if cur.len() > 0 {
                    let v: usize = match parse_usize(cur.as_slice()) {
                        Some(v) => v,
                        None => 0,
                    };
                    let ghost before = nats(params@);
                    params.push(v);
                    assert(nats(params@) =~= before.push(param_of(cur@)));
                }
                let ok = self.execute_csi(c, params.as_slice());
                return (i + 1, ok);
            } else if 0x20 <= low && low <= 0x3f {
                i += 1;
            } else {
                return (i, true);
            }
        }
    }

    /// Feeds characters through the screen; `false` where a step cannot
    /// be carried out (see `run_from`).
    fn run_chars(&mut self, s: &[char]) -> (ok: bool)
        requires
            old(self).wf(),
        ensures
            ok == run_from(old(self).screen(), s@, 0) is Some,
            ok ==> final(self).screen() == run_from(old(self).screen(), s@, 0)->Some_0,
            ok ==> final(self).wf(),
            final(self).line_limit() == old(self).line_limit(),
    {
        let mut i: usize = 0;
        while i < s.len()
            invariant
                i <= s@.len(),
                self.wf(),
                self.max_lines == old(self).max_lines,
                run_from(old(self).screen(), s@, 0) == run_from(self.screen(), s@, i as int),
            decreases s@.len() - i,
        {
            let c = s[i];
            if c == '\x1b' {
                if i + 1 < s.len() && s[i + 1] == '[' {
                    proof {
                        lemma_csi_scan_bounds(s@, i + 2, Seq::empty(), Seq::empty());
                    }
                    let ghost st = self.screen();
                    let (next, ok) = self.process_csi(s, i + 2);
                    if !ok {
                        return false;
                    }
                    proof {
                        let scan = csi_scan(s@, i + 2, Seq::empty(), Seq::empty());
                        if let Some(cmd) = scan.1 {
                            lemma_exec_csi_wf(st, cmd, scan.2);
                        }
                    }
                    i = next;
                } else if i + 1 < s.len() && s[i + 1] == ']' {
                    let mut j = i + 2;
                    while j < s.len() && !(s[j] == '\x07' || s[j] == '\x1b')
                        invariant
                            i + 2 <= j <= s@.len(),
                            osc_end(s@, i + 2) == osc_end(s@, j as int),
                        decreases s@.len() - j,
                    {
                        j += 1;
                    }
                    if j < s.len() {
                        j += 1;
                    }
                    i = j;
                } else {
                    i += 1;
                }
            } else {
                let ghost st = self.screen();
                if !self.plain_char(c) {
                    return false;
                }
                proof {
                    lemma_plain_char_wf(st, c);
                }
                i += 1;
            }
        }
        true
    }

    /// Drops the oldest lines beyond the limit.
    fn trim_lines(&mut self)
        requires
            old(self).max_lines >= 1,
        ensures
            final(self).screen() == trim_to(old(self).screen(), old(self).line_limit()),
            final(self).line_limit() == old(self).line_limit(),
    {
        let ghost max = self.max_lines as nat;
        while self.lines.len() > self.max_lines
            invariant
                max == self.max_lines,
                self.max_lines == old(self).max_lines,
                trim_to(old(self).screen(), max) == trim_to(self.screen(), max),
            decreases self.lines.len(),
        {
            let ghost before = self.screen();
            self.lines.remove(0);
            if self.cursor_row > 0 {
                self.cursor_row -= 1;
            }
            proof {
                let d = (before.lines.len() - max) as nat;
                assert(lines_view(self.lines@) =~= before.lines.skip(1));
                assert(before.lines.skip(1).skip(d - 1) =~= before.lines.skip(d as int));
            }
        }
    }

    /// Feeds characters through the screen, then keeps at most the limit
    /// of lines.
    pub fn process_chars(&mut self, s: &[char])
        requires
            old(self).wf(),
            feed(old(self).screen(), s@, old(self).line_limit()) is Some,
        ensures
            final(self).wf(),
            final(self).screen() == feed(old(self).screen(), s@, old(self).line_limit())->Some_0,
            final(self).line_limit() == old(self).line_limit(),
            final(self).screen().lines.len() <= final(self).line_limit(),
    {
        let ghost st = self.screen();
        let _ = self.run_chars(s);
        self.trim_lines();
        proof {
            lemma_feed_wf(st, s@, self.max_lines as nat);
        }
    }

    /// Processes incoming bytes: decodes them as UTF-8, replacing invalid
    /// sequences, and feeds the characters through the screen.
    pub fn process(&mut self, data: &[u8])
        requires
            old(self).wf(),
            feed(old(self).screen(), utf8_lossy(data@), old(self).line_limit()) is Some,
        ensures
            final(self).wf(),
            final(self).screen() == feed(old(self).screen(), utf8_lossy(data@), old(self).line_limit())->Some_0,
            final(self).line_limit() == old(self).line_limit(),
            final(self).screen().lines.len() <= final(self).line_limit(),
    {
        let chars = decode_lossy(data);
        self.process_chars(chars.as_slice());
    }

    /// Like `process`, but on bytes where feeding them would fail (an
    /// overflowing cursor) it returns `false` and leaves the buffer as it
    /// was.
    pub fn try_process(&mut self, data: &[u8]) -> (ok: bool)
        requires
            old(self).wf(),
        ensures
            ok == feed(old(self).screen(), utf8_lossy(data@), old(self).line_limit()) is Some,
            ok ==> final(self).screen() == feed(old(self).screen(), utf8_lossy(data@), old(self).line_limit())->Some_0,
            !ok ==> final(self).screen() == old(self).screen(),
            final(self).wf(),
            final(self).line_limit() == old(self).line_limit(),
    {
        let chars = decode_lossy(data);
        let mut copy = TerminalBuffer {
            lines: copy_lines(&self.lines),
            cursor_row: self.cursor_row,
            cursor_col: self.cursor_col,
            max_lines: self.max_lines,
        };
        assert(copy.screen() == self.screen());
        let ghost st = self.screen();
        if copy.run_chars(chars.as_slice()) {
            self.process(data);
            true
        } else {
            false
        }
    }

    /// All lines, for display.
    pub fn get_lines(&self) -> (r: Vec<String>)
        ensures
            r@.len() == self.screen().lines.len(),
            forall|i: int| 0 <= i < r@.len() ==> #[trigger] r@[i]@ == self.screen().lines[i],
    {
        let mut r: Vec<String> = Vec::new();
        let mut i: usize = 0;
        while i < self.lines.len()
            invariant
                i <= self.lines@.len(),
                r@.len() == i,
                forall|j: int| 0 <= j < i ==> #[trigger] r@[j]@ == self.lines@[j]@,
            decreases self.lines@.len() - i,
        {
            r.push(string_of(self.lines[i].as_slice()));
            i += 1;
        }
        r
    }
}

impl Default for TerminalBuffer {
    /// One empty line, the cursor at its start, a limit of 1000 lines.
    fn default() -> (r: Self)
        ensures
            r.wf(),
            r.screen() == blank_screen(),
            r.line_limit() == DEFAULT_MAX_LINES,
    {
        let r = TerminalBuffer { lines: vec![Vec::new()], cursor_row: 0, cursor_col: 0, max_lines: DEFAULT_MAX_LINES };
        assert(lines_view(r.lines@) =~= seq![Seq::<char>::empty()]);
        r
    }
}

/// A copy of the lines.
fn copy_lines(v: &Vec<Vec<char>>) -> (r: Vec<Vec<char>>)
    ensures
        lines_view(r@) == lines_view(v@),
{
    let mut r: Vec<Vec<char>> = Vec::new();
    let mut i: usize = 0;
    while i < v.len()
        invariant
            i <= v@.len(),
            r@.len() == i,
            forall|j: int| 0 <= j < i ==> #[trigger] r@[j]@ == v@[j]@,
        decreases v@.len() - i,
    {
        let line = v[i].clone();
        assert(line@ =~= v@[i as int]@);
        r.push(line);
        i += 1;
    }
    assert(lines_view(r@) =~= lines_view(v@));
    r
}

// ---------------------------------------------------------------------------
// Laws
// ---------------------------------------------------------------------------

proof fn lemma_ensure_line(s: Screen)
    ensures
        ensure_line(s) matches Some(t) ==> t.row == s.row && t.col == s.col && t.row < t.lines.len()
            && t.lines.len() >= s.lines.len(),
{
}

proof fn lemma_put_char_wf(s: Screen, c: char)
    ensures
        put_char(s, c) matches Some(t) ==> screen_wf(t),
{
    lemma_ensure_line(s);
}

proof fn lemma_put_spaces_wf(s: Screen, k: nat)
    requires
        screen_wf(s),
    ensures
        put_spaces(s, k) matches Some(t) ==> screen_wf(t),
    decreases k,
{
    if k > 0 {
        lemma_put_char_wf(s, ' ');
        if let Some(t) = put_char(s, ' ') {
            lemma_put_spaces_wf(t, (k - 1) as nat);
        }
    }
}

/// One ordinary character keeps the cursor row inside the grid.
pub proof fn lemma_plain_char_wf(s: Screen, c: char)
    requires
        screen_wf(s),
    ensures
        plain_char(s, c) matches Some(t) ==> screen_wf(t),
{
    lemma_ensure_line(Screen { row: s.row + 1, col: 0, ..s });
    if s.col > 0 {
        lemma_ensure_line(Screen { col: (s.col - 1) as nat, ..s });
    }
    lemma_put_char_wf(s, c);
    let next = (s.col / 8 + 1) * 8;
    if next >= s.col {
        lemma_put_spaces_wf(s, (next - s.col) as nat);
    }
}

/// A CSI command keeps the cursor row inside the grid.
pub proof fn lemma_exec_csi_wf(s: Screen, cmd: char, params: Seq<nat>)
    requires
        screen_wf(s),
    ensures
        exec_csi(s, cmd, params) matches Some(t) ==> screen_wf(t),
{
    lemma_ensure_line(s);
    lemma_ensure_line(Screen { row: s.row + count_param(params), ..s });
    lemma_ensure_line(Screen { row: pos_param(params, 0), col: pos_param(params, 1), ..s });
}

/// Feeding characters keeps the cursor row inside the grid.
pub proof fn lemma_run_from_wf(st: Screen, s: Seq<char>, i: int)
    requires
        screen_wf(st),
    ensures
        run_from(st, s, i) matches Some(t) ==> screen_wf(t),
    decreases s.len() - i,
{
    if 0 <= i < s.len() {
        if s[i] == '\x1b' {
            if i + 1 < s.len() && s[i + 1] == '[' {
                lemma_csi_scan_bounds(s, i + 2, Seq::empty(), Seq::empty());
                let scan = csi_scan(s, i + 2, Seq::empty(), Seq::empty());
                match scan.1 {
                    Some(cmd) => {
                        lemma_exec_csi_wf(st, cmd, scan.2);
                        if let Some(t) = exec_csi(st, cmd, scan.2) {
                            lemma_run_from_wf(t, s, scan.0);
                        }
                    },
                    None => {
                        lemma_run_from_wf(st, s, scan.0);
                    },
                }
            } else if i + 1 < s.len() && s[i + 1] == ']' {
                lemma_osc_end_bounds(s, i + 2);
                lemma_run_from_wf(st, s, osc_end(s, i + 2));
            } else {
                lemma_run_from_wf(st, s, i + 1);
            }
        } else {
            lemma_plain_char_wf(st, s[i]);
            if let Some(t) = plain_char(st, s[i]) {
                lemma_run_from_wf(t, s, i + 1);
            }
        }
    }
}

/// After feeding characters, the screen keeps at most `max` lines and the
/// cursor row stays inside the grid.
pub proof fn lemma_feed_wf(st: Screen, s: Seq<char>, max: nat)
    requires
        screen_wf(st),
        max >= 1,
    ensures
        feed(st, s, max) matches Some(t) ==> screen_wf(t) && t.lines.len() <= max,
{
    lemma_run_from_wf(st, s, 0);
}

/// Every parameter that a CSI scan from position `j` reads is at most 10000.
pub open spec fn scan_params_small(s: Seq<char>, j: int) -> bool {
    let p = csi_scan(s, j, Seq::empty(), Seq::empty()).2;
    forall|k: int| 0 <= k < p.len() ==> p[k] <= 10000
}

/// Every CSI parameter the text can carry is at most 10000.
pub open spec fn csi_params_small(s: Seq<char>) -> bool {
    forall|j: int| 0 <= j <= s.len() ==> #[trigger] scan_params_small(s, j)
}

proof fn lemma_ensure_line_some(s: Screen)
    requires
        s.row < usize::MAX,
    ensures
        ensure_line(s) matches Some(t) && t.row == s.row && t.col == s.col,
{
}

proof fn lemma_put_spaces_some(s: Screen, k: nat)
    requires
        s.row < usize::MAX,
        s.col + k <= usize::MAX,
    ensures
        put_spaces(s, k) matches Some(t) && t.row == s.row && t.col == s.col + k,
    decreases k,
{
    if k > 0 {
        lemma_ensure_line_some(s);
        let t = put_char(s, ' ')->Some_0;
        lemma_put_spaces_some(t, (k - 1) as nat);
    }
}

proof fn lemma_plain_char_some(s: Screen, c: char)
    requires
        s.row + s.col + 16 <= usize::MAX,
    ensures
        plain_char(s, c) matches Some(t) && t.row + t.col <= s.row + s.col + 8,
{
    if c == '\n' {
        lemma_ensure_line_some(Screen { row: s.row + 1, col: 0, ..s });
    } else if c == '\x08' || c == '\x7f' {
        if s.col > 0 {
            lemma_ensure_line_some(Screen { col: (s.col - 1) as nat, ..s });
        }
    } else if c == '\t' {
        let next = (s.col / 8 + 1) * 8;
        assert(s.col < next <= s.col + 8);
        lemma_put_spaces_some(s, (next - s.col) as nat);
    } else if !is_control(c) && c != '\r' {
        lemma_ensure_line_some(s);
    }
}

proof fn lemma_exec_csi_some(s: Screen, cmd: char, params: Seq<nat>)
    requires
        forall|k: int| 0 <= k < params.len() ==> params[k] <= 10000,
        s.row + s.col + 20000 <= usize::MAX,
    ensures
        exec_csi(s, cmd, params) matches Some(t)
            && (t.row + t.col <= s.row + s.col + 10000 || t.row + t.col <= 20000),
{
    let n = count_param(params);
    assert(n <= 10000);
    if cmd == 'B' {
        lemma_ensure_line_some(Screen { row: s.row + n, ..s });
    } else if cmd == 'H' || cmd == 'f' {
        assert(pos_param(params, 0) <= 9999);
        assert(pos_param(params, 1) <= 9999);
        lemma_ensure_line_some(Screen { row: pos_param(params, 0), col: pos_param(params, 1), ..s });
    } else if cmd == 'J' || cmd == 'K' || cmd == 'P' {
        lemma_ensure_line_some(s);
    }
}

proof fn lemma_run_from_some(st: Screen, s: Seq<char>, i: int)
    requires
        0 <= i <= s.len(),
        csi_params_small(s),
        st.row + st.col + 10000 * (s.len() - i) + 20000 <= usize::MAX,
    ensures
        run_from(st, s, i) is Some,
    decreases s.len() - i,
{
    if i < s.len() {
        if s[i] == '\x1b' {
            if i + 1 < s.len() && s[i + 1] == '[' {
                lemma_csi_scan_bounds(s, i + 2, Seq::empty(), Seq::empty());
                let scan = csi_scan(s, i + 2, Seq::empty(), Seq::empty());
                assert(scan_params_small(s, i + 2));
                match scan.1 {
                    Some(cmd) => {
                        lemma_exec_csi_some(st, cmd, scan.2);
                        let t = exec_csi(st, cmd, scan.2)->Some_0;
                        lemma_run_from_some(t, s, scan.0);
                    },
                    None => {
                        lemma_run_from_some(st, s, scan.0);
                    },
                }
            } else if i + 1 < s.len() && s[i + 1] == ']' {
                lemma_osc_end_bounds(s, i + 2);
                lemma_run_from_some(st, s, osc_end(s, i + 2));
            } else {
                lemma_run_from_some(st, s, i + 1);
            }
        } else {
            lemma_plain_char_some(st, s[i]);
            let t = plain_char(st, s[i])->Some_0;
            lemma_run_from_some(t, s, i + 1);
        }
    }
}

/// Text whose CSI parameters are at most 10000 always feeds, whatever its
/// characters, while the cursor stays far enough from the `usize` limit
/// (10000 columns or rows per character fed, and 20000 more).
pub proof fn lemma_small_params_feed(st: Screen, s: Seq<char>, max: nat)
    requires
        csi_params_small(s),
        st.row + st.col + 10000 * s.len() + 20000 <= usize::MAX,
    ensures
        feed(st, s, max) is Some,
{
    lemma_run_from_some(st, s, 0);
}

/// `ESC [ 2 J` and `ESC [ 3 J` clear the whole screen: one empty line, the
/// cursor at its start.
pub proof fn lemma_clear_screen(s: Screen, mode: nat)
    requires
        mode == 2 || mode == 3,
    ensures
        exec_csi(s, 'J', seq![mode]) == Some(blank_screen()),
{
}

/// Cursor moves leave the lines alone: `ESC [ n A` and `ESC [ n D` move up
/// and left by `n` (at least 1, stopping at 0), `ESC [ n C` right by `n`,
/// `ESC [ n B` down by `n` (adding empty lines to reach the row), and
/// `ESC [ r ; c H` goes to row `r`, column `c` counted from 1.
pub proof fn lemma_cursor_moves(s: Screen, n: nat, r: nat, c: nat)
    requires
        screen_wf(s),
        s.row + n + 1 < usize::MAX,
        s.col + n + 1 <= usize::MAX,
        r < usize::MAX,
    ensures
        ({
            let k: nat = if n == 0 { 1 } else { n };
            &&& exec_csi(s, 'A', seq![n]) == Some(Screen { row: if s.row >= k { (s.row - k) as nat } else { 0 }, ..s })
            &&& exec_csi(s, 'D', seq![n]) == Some(Screen { col: if s.col >= k { (s.col - k) as nat } else { 0 }, ..s })
            &&& exec_csi(s, 'C', seq![n]) == Some(Screen { col: s.col + k, ..s })
            &&& exec_csi(s, 'B', seq![n]) matches Some(t) && t.row == s.row + k && t.col == s.col
                && t.lines.len() >= s.lines.len() && t.row < t.lines.len()
                && (forall|i: int| 0 <= i < s.lines.len() ==> t.lines[i] == s.lines[i])
                && (forall|i: int| s.lines.len() <= i < t.lines.len() ==> t.lines[i].len() == 0)
            &&& exec_csi(s, 'H', seq![r, c]) matches Some(t)
                && t.row == (if r == 0 { 0int } else { r - 1 }) && t.col == (if c == 0 { 0int } else { c - 1 })
                && (forall|i: int| 0 <= i < s.lines.len() ==> t.lines[i] == s.lines[i])
        }),
{
    assert(seq![n][0] == n);
    assert(seq![r, c][0] == r);
    assert(seq![r, c][1] == c);
    assert(seq![r, c].len() == 2);
    let k: nat = if n == 0 { 1 } else { n };
    assert(count_param(seq![n]) == k);
    let b = Screen { row: s.row + k, ..s };
    if b.lines.len() <= b.row {
        let t = ensure_line(b)->Some_0;
        let extra = Seq::new((b.row + 1 - b.lines.len()) as nat, |i: int| Seq::<char>::empty());
        assert(t.lines == s.lines + extra);
        assert forall|i: int| s.lines.len() <= i < t.lines.len() implies t.lines[i].len() == 0 by {
            assert(t.lines[i] == extra[i - s.lines.len()]);
        }
    }
    let h = Screen { row: pos_param(seq![r, c], 0), col: pos_param(seq![r, c], 1), ..s };
    if h.lines.len() <= h.row {
        let t = ensure_line(h)->Some_0;
        let extra = Seq::new((h.row + 1 - h.lines.len()) as nat, |i: int| Seq::<char>::empty());
        assert(t.lines == s.lines + extra);
    }
}

/// An ordinary printable character is written at the cursor (the line
/// padded with spaces up to the cursor first), and the cursor moves one
/// column right; no other line changes.
pub proof fn lemma_write_char(s: Screen, ch: char)
    requires
        screen_wf(s),
        s.row < usize::MAX,
        s.col < usize::MAX,
        !is_control(ch),
    ensures
        plain_char(s, ch) matches Some(t) && {
            let line = t.lines[s.row as int];
            let old_line = s.lines[s.row as int];
            &&& t.row == s.row && t.col == s.col + 1
            &&& t.lines.len() == s.lines.len()
            &&& forall|i: int| 0 <= i < s.lines.len() && i != s.row ==> t.lines[i] == s.lines[i]
            &&& line.len() == (if old_line.len() > s.col { old_line.len() as int } else { s.col + 1int })
            &&& line[s.col as int] == ch
            &&& forall|k: int| 0 <= k < line.len() && k != s.col ==> line[k] == (if k < old_line.len() { old_line[k] } else { ' ' })
        },
{
    assert(ensure_line(s) == Some(s));
    let old_line = s.lines[s.row as int];
    let p = pad_to(old_line, s.col);
    assert forall|k: int| 0 <= k < p.len() implies p[k] == (if k < old_line.len() { old_line[k] } else { ' ' }) by {
        if old_line.len() < s.col && k >= old_line.len() {
            assert(p[k] == spaces((s.col - old_line.len()) as nat)[k - old_line.len()]);
        }
    }
}

/// Line control: a newline moves to column 0 of the next row (adding an
/// empty line at the end where there is none) and changes no line; a
/// carriage return moves to column 0 only; a backspace past column 0 moves
/// one column left and removes the character there, if the line reaches
/// it, and at column 0 does nothing.
pub proof fn lemma_line_controls(s: Screen)
    requires
        screen_wf(s),
        s.row + 1 < usize::MAX,
    ensures
        plain_char(s, '\n') matches Some(t) && t.row == s.row + 1 && t.col == 0
            && t.lines.len() == (if s.row + 1 < s.lines.len() { s.lines.len() as int } else { s.row + 2int })
            && (forall|i: int| 0 <= i < s.lines.len() ==> t.lines[i] == s.lines[i])
            && (t.lines.len() > s.lines.len() ==> t.lines[s.row + 1int].len() == 0),
        plain_char(s, '\r') == Some(Screen { col: 0, ..s }),
        s.col == 0 ==> plain_char(s, '\x08') == Some(s),
        s.col > 0 ==> (plain_char(s, '\x08') matches Some(t) && t.row == s.row && t.col == s.col - 1
            && t.lines.len() == s.lines.len()
            && (forall|i: int| 0 <= i < s.lines.len() && i != s.row ==> t.lines[i] == s.lines[i])
            && t.lines[s.row as int] == (if s.col - 1 < s.lines[s.row as int].len() {
                s.lines[s.row as int].remove(s.col - 1)
            } else {
                s.lines[s.row as int]
            })),
{
    let n = Screen { row: s.row + 1, col: 0, ..s };
    if n.lines.len() <= n.row {
        let t = ensure_line(n)->Some_0;
        let extra = Seq::new((n.row + 1 - n.lines.len()) as nat, |i: int| Seq::<char>::empty());
        assert(t.lines == s.lines + extra);
        assert(t.lines[s.row + 1int] == extra[0]);
    }
    if s.col > 0 {
        assert(ensure_line(Screen { col: (s.col - 1) as nat, ..s }) == Some(Screen { col: (s.col - 1) as nat, ..s }));
    }
}

/// Erasing in the cursor line (`ESC [ n K`) touches that line alone and
/// leaves the cursor where it is: mode 2 empties the line; mode 0 keeps
/// what stands before the cursor column; mode 1 turns what stands before
/// the cursor column into spaces and keeps the rest.
pub proof fn lemma_erase_in_line(s: Screen, mode: nat)
    requires
        screen_wf(s),
        s.row < usize::MAX,
        mode <= 2,
    ensures
        exec_csi(s, 'K', seq![mode]) matches Some(t) && {
            let old_line = s.lines[s.row as int];
            let line = t.lines[s.row as int];
            &&& t.row == s.row && t.col == s.col
            &&& t.lines.len() == s.lines.len()
            &&& forall|i: int| 0 <= i < s.lines.len() && i != s.row ==> t.lines[i] == s.lines[i]
            &&& mode == 2 ==> line.len() == 0
            &&& mode == 0 ==> line.len() == (if s.col < old_line.len() { s.col as int } else { old_line.len() as int })
                && forall|k: int| 0 <= k < line.len() ==> line[k] == old_line[k]
            &&& mode == 1 ==> line.len() == old_line.len()
                && forall|k: int| 0 <= k < line.len() ==> line[k] == (if k < s.col { ' ' } else { old_line[k] })
        },
{
    assert(seq![mode][0] == mode);
    assert(ensure_line(s) == Some(s));
    let old_line = s.lines[s.row as int];
    if mode == 1 {
        let l = blank_prefix(old_line, s.col);
        let m: nat = if s.col < old_line.len() { s.col } else { old_line.len() };
        assert forall|k: int| 0 <= k < l.len() implies l[k] == (if k < s.col { ' ' } else { old_line[k] }) by {
            if k < m {
                assert(l[k] == spaces(m)[k]);
            } else {
                assert(l[k] == old_line.skip(m as int)[k - m]);
            }
        }
    }
}

proof fn lemma_put_spaces_col(s: Screen, k: nat)
    ensures
        put_spaces(s, k) matches Some(t) ==> t.col == s.col + k,
    decreases k,
{
    if k > 0 {
        if let Some(t) = put_char(s, ' ') {
            lemma_put_spaces_col(t, (k - 1) as nat);
        }
    }
}

/// A tab moves the cursor to the next multiple of eight columns.
pub proof fn lemma_tab_stop(s: Screen)
    ensures
        plain_char(s, '\t') matches Some(t) ==> t.col == (s.col / 8 + 1) * 8 && t.col % 8 == 0 && t.col > s.col,
{
    let next = (s.col / 8 + 1) * 8;
    if next >= s.col {
        lemma_put_spaces_col(s, (next - s.col) as nat);
    }
}

// ---------------------------------------------------------------------------
// Shell session messages
// ---------------------------------------------------------------------------

/// The line shown while connecting: `Connecting to pod (container)...`.
pub fn connecting_banner(pod: &str, container: &Option<String>) -> (r: String)
    ensures
        r@ == "Connecting to "@ + pod@ + (match *container {
            Some(c) => " ("@ + c@ + ")"@,
            None => Seq::empty(),
        }) + "...\n"@,
{
    let mut v = crate::text::chars_of("Connecting to ");
    crate::text::push_str(&mut v, pod);
    match container {
        Some(c) => {
            crate::text::push_str(&mut v, " (");
            crate::text::push_str(&mut v, c.as_str());
            crate::text::push_str(&mut v, ")");
        },
        None => {},
    }
    crate::text::push_str(&mut v, "...\n");
    crate::text::string_of(v.as_slice())
}

/// The lines shown once connected: `Connected to pod in namespace`.
pub fn connected_banner(pod: &str, namespace: &str) -> (r: String)
    ensures
        r@ == "Connected to "@ + pod@ + " in "@ + namespace@ + "\n\n"@,
{
    let mut v = crate::text::chars_of("Connected to ");
    crate::text::push_str(&mut v, pod);
    crate::text::push_str(&mut v, " in ");
    crate::text::push_str(&mut v, namespace);
    crate::text::push_str(&mut v, "\n\n");
    crate::text::string_of(v.as_slice())
}

/// What the shell view writes when the session ends.
pub const SESSION_ENDED: &'static str = "\n--- Session ended ---\n";

/// The shell view's status badge: its class and text.
pub fn session_badge(connecting: bool, connected: bool) -> (r: (&'static str, &'static str))
    ensures
        r.0@ == (if connecting { "status-badge status-warning"@ } else if connected { "status-badge status-success"@ } else { "status-badge status-error"@ }),
        r.1@ == (if connecting { "Connecting..."@ } else if connected { "Connected"@ } else { "Disconnected"@ }),
{
    if connecting {
        ("status-badge status-warning", "Connecting...")
    } else if connected {
        ("status-badge status-success", "Connected")
    } else {
        ("status-badge status-error", "Disconnected")
    }
}

} // verus!
