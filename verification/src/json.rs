//! JSON documents as the dashboard reads them, and the simplified JSONPath
//! (`.a.b[0].c`) that custom resources' printer columns use.

use vstd::prelude::*;
use crate::num::parse_unsigned;
use crate::text::{chars_of, string_of};

verus! {

/// A JSON value. Numbers keep the text that `serde_json` renders for them;
/// arrays and objects keep their compact rendering beside their contents.
pub enum JsonValue {
    Null,
    Bool(bool),
    Number(String),
    Str(String),
    Array(Vec<JsonValue>, String),
    Object(Vec<(String, JsonValue)>, String),
}

/// The value under `key` in an object's entries (the first entry with that key).
pub open spec fn entry_of(entries: Seq<(String, JsonValue)>, key: Seq<char>) -> Option<JsonValue>
    decreases entries.len(),
{
    if entries.len() == 0 {
        None
    } else if entries[0].0@ == key {
        Some(entries[0].1)
    } else {
        entry_of(entries.drop_first(), key)
    }
}

/// `Value::get` with a string key: the entry of an object, `None` otherwise.
pub open spec fn get_key(v: JsonValue, key: Seq<char>) -> Option<JsonValue> {
    match v {
        JsonValue::Object(entries, _) => entry_of(entries@, key),
        _ => None,
    }
}

/// `Value::get` with an index: the element of an array, `None` otherwise.
pub open spec fn get_index(v: JsonValue, i: nat) -> Option<JsonValue> {
    match v {
        JsonValue::Array(items, _) => if i < items@.len() { Some(items@[i as int]) } else { None },
        _ => None,
    }
}

/// Index of the first `[` in a path segment.
pub open spec fn bracket_of(part: Seq<char>) -> Option<int> {
    crate::text::first_index_of(part, '[')
}

/// One path segment applied to a value: `Some(Some(w))` on success,
/// `Some(None)` where the value has no such member, `None` where slicing
/// the segment would panic (a `[` that is its last character, or a last
/// character that is not ASCII).
pub open spec fn path_step(v: JsonValue, part: Seq<char>) -> Option<Option<JsonValue>> {
    if part.len() == 0 {
        Some(Some(v))
    } else {
        match bracket_of(part) {
            Some(k) => {
                if k + 2 > part.len() || (part.last() as u32) >= 0x80 {
                    None
                } else {
                    match get_key(v, part.take(k)) {
                        None => Some(None),
                        Some(field) => match parse_unsigned(part.subrange(k + 1, part.len() - 1), usize::MAX as nat) {
                            Some(i) => Some(get_index(field, i)),
                            None => Some(None),
                        },
                    }
                }
            },
            None => Some(get_key(v, part)),
        }
    }
}

/// Applies the `.`-separated segments of `s` in turn (`str::split('.')`).
#[verifier::opaque]
pub open spec fn path_walk(v: JsonValue, s: Seq<char>) -> Option<Option<JsonValue>>
    decreases s.len(),
{
    match crate::text::first_index_of(s, '.') {
        Some(i) => {
            if 0 <= i < s.len() {
                match path_step(v, s.take(i)) {
                    Some(Some(w)) => path_walk(w, s.skip(i + 1)),
                    other => other,
                }
            } else {
                None
            }
        },
        None => path_step(v, s),
    }
}

proof fn lemma_walk_split(v: JsonValue, s: Seq<char>, i: int)
    requires
        crate::text::first_index_of(s, '.') == Some(i),
        0 <= i < s.len(),
    ensures
        path_walk(v, s) == (match path_step(v, s.take(i)) {
            Some(Some(w)) => path_walk(w, s.skip(i + 1)),
            other => other,
        }),
{
    reveal(path_walk);
}

proof fn lemma_walk_last(v: JsonValue, s: Seq<char>)
    requires
        crate::text::first_index_of(s, '.') is None,
    ensures
        path_walk(v, s) == path_step(v, s),
{
    reveal(path_walk);
}

/// Number of leading `.` characters.
pub open spec fn leading_dots(s: Seq<char>) -> nat
    decreases s.len(),
{
    if s.len() > 0 && s[0] == '.' {
        1 + leading_dots(s.drop_first())
    } else {
        0
    }
}

/// The rendering of a value as text: strings unquoted, everything else as
/// `serde_json` prints it.
pub open spec fn json_text(v: JsonValue) -> Seq<char> {
    match v {
        JsonValue::Null => "null"@,
        JsonValue::Bool(b) => if b { "true"@ } else { "false"@ },
        JsonValue::Number(t) => t@,
        JsonValue::Str(s) => s@,
        JsonValue::Array(_, t) => t@,
        JsonValue::Object(_, t) => t@,
    }
}

/// What `extract_json_path` yields: `None` where it panics, else the text of
/// the value the path leads to, if any.
pub open spec fn json_path(v: JsonValue, path: Seq<char>) -> Option<Option<Seq<char>>> {
    match path_walk(v, path.skip(leading_dots(path) as int)) {
        None => None,
        Some(None) => Some(None),
        Some(Some(w)) => Some(Some(json_text(w))),
    }
}

/// Looks up `key` in an object (`Value::get` with a string key).
pub fn get_key_exec<'a>(v: &'a JsonValue, key: &[char]) -> (r: Option<&'a JsonValue>)
    ensures
        match r {
            Some(w) => get_key(*v, key@) == Some(*w),
            None => get_key(*v, key@) is None,
        },
{
    match v {
        JsonValue::Object(entries, _) => {
            let mut i: usize = 0;
            assert(entries@.skip(0) =~= entries@);
            while i < entries.len()
                invariant
                    i <= entries@.len(),
                    get_key(*v, key@) == entry_of(entries@, key@),
                    entry_of(entries@, key@) == entry_of(entries@.skip(i as int), key@),
                decreases entries@.len() - i,
            {
                let ghost rest = entries@.skip(i as int);
                assert(rest.drop_first() =~= entries@.skip(i + 1));
                let k = chars_of(entries[i].0.as_str());
                assert(rest[0] == entries@[i as int]);
                if crate::text::chars_eq(k.as_slice(), key) {
                    return Some(&entries[i].1);
                }
                i += 1;
            }
            None
        },
        _ => None,
    }
}

/// Looks up element `i` of an array (`Value::get` with an index).
pub fn get_index_exec<'a>(v: &'a JsonValue, i: usize) -> (r: Option<&'a JsonValue>)
    ensures
        match r {
            Some(w) => get_index(*v, i as nat) == Some(*w),
            None => get_index(*v, i as nat) is None,
        },
{
    match v {
        JsonValue::Array(items, _) => {
            if i < items.len() {
                Some(&items[i])
            } else {
                None
            }
        },
        _ => None,
    }
}

/// The text of a value: strings unquoted, everything else as rendered.
pub fn json_text_exec(v: &JsonValue) -> (r: String)
    ensures
        r@ == json_text(*v),
{
    match v {
        JsonValue::Null => String::from_str("null"),
        JsonValue::Bool(b) => if *b { String::from_str("true") } else { String::from_str("false") },
        JsonValue::Number(t) => t.clone(),
        JsonValue::Str(s) => s.clone(),
        JsonValue::Array(_, t) => t.clone(),
        JsonValue::Object(_, t) => t.clone(),
    }
}

/// Applies one path segment.
fn path_step_exec<'a>(v: &'a JsonValue, part: &[char]) -> (r: Option<Option<&'a JsonValue>>)
    ensures
        match r {
            None => path_step(*v, part@) is None,
            Some(None) => path_step(*v, part@) == Some(None::<JsonValue>),
            Some(Some(w)) => path_step(*v, part@) == Some(Some(*w)),
        },
{
    if part.len() == 0 {
        return Some(Some(v));
    }
    match crate::text::find_char(part, '[') {
        Some(k) => {
            if k + 1 >= part.len() || (part[part.len() - 1] as u32) >= 0x80 {
                return None;
            }
            let field = slice_chars(part, 0, k);
            assert(field@ =~= part@.take(k as int));
            match get_key_exec(v, field.as_slice()) {
                None => Some(None),
                Some(f) => {
                    let idx = slice_chars(part, k + 1, part.len() - 1);
                    match crate::num::parse_usize(idx.as_slice()) {
                        Some(i) => Some(get_index_exec(f, i)),
                        None => Some(None),
                    }
                },
            }
        },
        None => Some(get_key_exec(v, part)),
    }
}

/// The characters `s[from..to]`.
pub fn slice_chars(s: &[char], from: usize, to: usize) -> (r: Vec<char>)
    requires
        from <= to <= s@.len(),
    ensures
        r@ == s@.subrange(from as int, to as int),
{
    let mut r: Vec<char> = Vec::new();
    let mut i = from;
    while i < to
        invariant
            from <= i <= to <= s@.len(),
            r@ == s@.subrange(from as int, i as int),
        decreases to - i,
    {
        r.push(s[i]);
        i += 1;
        assert(r@ =~= s@.subrange(from as int, i as int));
    }
    r
}

/// Like `extract_json_path`, but `None` where the path has a segment that
/// `extract_json_path` cannot slice.
pub fn try_extract_json_path(data: &JsonValue, path: &str) -> (r: Option<Option<String>>)
    ensures
        match r {
            Some(Some(t)) => json_path(*data, path@) == Some(Some(t@)),
            Some(None) => json_path(*data, path@) == Some(None::<Seq<char>>),
            None => json_path(*data, path@) is None,
        },
{
    let p = chars_of(path);
    let mut start: usize = 0;
    assert(p@.skip(0) =~= p@);
    while start < p.len() && p[start] == '.'
        invariant
            start <= p@.len(),
            leading_dots(p@) == start + leading_dots(p@.skip(start as int)),
        decreases p@.len() - start,
    {
        assert(p@.skip(start as int).drop_first() =~= p@.skip(start + 1));
        start += 1;
    }
    assert(leading_dots(p@.skip(start as int)) == 0);
    let mut cur: &JsonValue = data;
    let ghost total = path_walk(*data, p@.skip(start as int));
    loop
        invariant
            start <= p@.len(),
            p@ == path@,
            total == path_walk(*data, p@.skip(leading_dots(p@) as int)),
            total == path_walk(*cur, p@.skip(start as int)),
        decreases p@.len() - start,
    {
        let rest = slice_chars(p.as_slice(), start, p.len());
        assert(rest@ =~= p@.skip(start as int));
        match crate::text::find_char(rest.as_slice(), '.') {
            Some(i) => {
                let part = slice_chars(rest.as_slice(), 0, i);
                proof {
                    assert(part@ =~= rest@.take(i as int));
                    assert(rest@.skip(i + 1) =~= p@.skip(start + i + 1));
                    lemma_walk_split(*cur, rest@, i as int);
                }
                match path_step_exec(cur, part.as_slice()) {
                    Some(Some(w)) => {
                        cur = w;
                        start = start + i + 1;
                    },
                    Some(None) => {
                        return Some(None);
                    },
                    None => {
                        return None;
                    },
                }
            },
            None => {
                proof {
                    lemma_walk_last(*cur, rest@);
                }
                return match path_step_exec(cur, rest.as_slice()) {
                    Some(Some(w)) => Some(Some(json_text_exec(w))),
                    Some(None) => Some(None),
                    None => None,
                };
            },
        }
    }
}

/// Extracts a value from a JSON document along a simplified JSONPath such
/// as `.status.phase`, `.spec.replicas` or `.status.conditions[0].type`,
/// rendered as text.
pub fn extract_json_path(data: &JsonValue, path: &str) -> (r: Option<String>)
    requires
        json_path(*data, path@) is Some,
    ensures
        match r {
            Some(t) => json_path(*data, path@) == Some(Some(t@)),
            None => json_path(*data, path@) == Some(None::<Seq<char>>),
        },
{
    match try_extract_json_path(data, path) {
        Some(r) => r,
        None => None,
    }
}

} // verus!
