//! Rows for custom resources: status and ready columns come from the
//! custom resource definition's printer columns where it names them, else
//! from the places where controllers commonly report them.

use vstd::prelude::*;
use crate::json::{
    extract_json_path, try_extract_json_path, get_index, get_index_exec, get_key, get_key_exec, json_path, json_text,
    json_text_exec, JsonValue,
};
use crate::resources::{
    age_ok, age_seconds, format_age, opt_clone, opt_view, ratio_text, Meta, ResourceItem,
};
use crate::text::{chars_of, lowercase, push_all, push_str, string_of, to_lowercase};

verus! {

/// A printer column of a custom resource definition.
pub struct PrinterColumn {
    pub name: String,
    pub json_path: String,
}

/// What the rows read of a custom resource definition.
pub struct CrdInfo {
    pub printer_columns: Vec<PrinterColumn>,
}

/// A custom resource: its metadata and its whole document.
pub struct DynObject {
    pub meta: Meta,
    pub generate_name: Option<String>,
    pub data: JsonValue,
}

/// `name_any`: the name, else the generated-name prefix, else empty.
pub open spec fn name_any(o: DynObject) -> Seq<char> {
    match o.meta.name {
        Some(n) => n@,
        None => match o.generate_name {
            Some(g) => g@,
            None => Seq::empty(),
        },
    }
}

/// The first column whose lowercase name is `a` or `b`.
pub open spec fn column_named(cols: Seq<PrinterColumn>, a: Seq<char>, b: Seq<char>) -> Option<PrinterColumn>
    decreases cols.len(),
{
    if cols.len() == 0 {
        None
    } else if lowercase(cols[0].name@) == a || lowercase(cols[0].name@) == b {
        Some(cols[0])
    } else {
        column_named(cols.drop_first(), a, b)
    }
}

/// The first column whose lowercase name is `a` or `b`.
fn column_named_exec<'a>(cols: &'a Vec<PrinterColumn>, a: &str, b: &str) -> (r: Option<&'a PrinterColumn>)
    ensures
        match r {
            Some(c) => column_named(cols@, a@, b@) == Some(*c),
            None => column_named(cols@, a@, b@) is None,
        },
{
    let mut i: usize = 0;
    assert(cols@.skip(0) =~= cols@);
    while i < cols.len()
        invariant
            i <= cols@.len(),
            column_named(cols@, a@, b@) == column_named(cols@.skip(i as int), a@, b@),
        decreases cols@.len() - i,
    {
        assert(cols@.skip(i as int).drop_first() =~= cols@.skip(i + 1));
        assert(cols@.skip(i as int)[0] == cols@[i as int]);
        let l = to_lowercase(cols[i].name.as_str());
        let lc = chars_of(l.as_str());
        if crate::text::eq_str(lc.as_slice(), a) || crate::text::eq_str(lc.as_slice(), b) {
            return Some(&cols[i]);
        }
        i += 1;
    }
    None
}

/// The value at `a.b`.
pub open spec fn at2(v: JsonValue, a: Seq<char>, b: Seq<char>) -> Option<JsonValue> {
    match get_key(v, a) {
        Some(x) => get_key(x, b),
        None => None,
    }
}

/// The value at `status.conditions[0].type`.
pub open spec fn first_condition_type(v: JsonValue) -> Option<JsonValue> {
    match at2(v, "status"@, "conditions"@) {
        Some(cs) => match get_index(cs, 0) {
            Some(c) => get_key(c, "type"@),
            None => None,
        },
        None => None,
    }
}

/// The value at `status.health.status`.
pub open spec fn health_status(v: JsonValue) -> Option<JsonValue> {
    match at2(v, "status"@, "health"@) {
        Some(h) => get_key(h, "status"@),
        None => None,
    }
}

/// The first of the common status places that holds a value, as text:
/// `status.phase`, `status.state`, `status.conditions[0].type`,
/// `status.health.status`.
pub open spec fn common_status(v: JsonValue) -> Option<Seq<char>> {
    match at2(v, "status"@, "phase"@) {
        Some(x) => Some(json_text(x)),
        None => match at2(v, "status"@, "state"@) {
            Some(x) => Some(json_text(x)),
            None => match first_condition_type(v) {
                Some(x) => Some(json_text(x)),
                None => match health_status(v) {
                    Some(x) => Some(json_text(x)),
                    None => None,
                },
            },
        },
    }
}

/// The status (or phase) printer column's path, if there is one, can be
/// evaluated without a panic.
pub open spec fn status_column_ok(data: JsonValue, cols: Seq<PrinterColumn>) -> bool {
    column_named(cols, "status"@, "phase"@) matches Some(c) ==> json_path(data, c.json_path@) is Some
}

/// The ready (or replicas) printer column's path, if there is one, can be
/// evaluated without a panic.
pub open spec fn ready_column_ok(data: JsonValue, cols: Seq<PrinterColumn>) -> bool {
    column_named(cols, "ready"@, "replicas"@) matches Some(c) ==> json_path(data, c.json_path@) is Some
}

/// The printer column paths that the rows evaluate do not panic.
pub open spec fn columns_ok(data: JsonValue, cols: Seq<PrinterColumn>) -> bool {
    &&& status_column_ok(data, cols)
    &&& ready_column_ok(data, cols)
}

/// The status column of a custom resource row.
pub open spec fn dyn_status(data: JsonValue, cols: Seq<PrinterColumn>) -> Seq<char> {
    let from_column = match column_named(cols, "status"@, "phase"@) {
        Some(c) => match json_path(data, c.json_path@) {
            Some(Some(t)) => Some(t),
            _ => None,
        },
        None => None,
    };
    match from_column {
        Some(t) => t,
        None => match common_status(data) {
            Some(t) => t,
            None => "Unknown"@,
        },
    }
}

/// The ready column of a custom resource row.
pub open spec fn dyn_ready(data: JsonValue, cols: Seq<PrinterColumn>) -> Option<Seq<char>> {
    let from_column = match column_named(cols, "ready"@, "replicas"@) {
        Some(c) => match json_path(data, c.json_path@) {
            Some(Some(t)) => Some(t),
            _ => None,
        },
        None => None,
    };
    match from_column {
        Some(t) => Some(t),
        None => match (at2(data, "status"@, "readyReplicas"@), at2(data, "status"@, "replicas"@)) {
            (Some(a), Some(b)) => Some(json_text(a) + "/"@ + json_text(b)),
            _ => match (at2(data, "status"@, "ready"@), at2(data, "status"@, "total"@)) {
                (Some(a), Some(b)) => Some(json_text(a) + "/"@ + json_text(b)),
                _ => None,
            },
        },
    }
}

fn at2_exec<'a>(v: &'a JsonValue, a: &str, b: &str) -> (r: Option<&'a JsonValue>)
    ensures
        match r {
            Some(w) => at2(*v, a@, b@) == Some(*w),
            None => at2(*v, a@, b@) is None,
        },
{
    let ac = chars_of(a);
    let bc = chars_of(b);
    match get_key_exec(v, ac.as_slice()) {
        Some(x) => get_key_exec(x, bc.as_slice()),
        None => None,
    }
}

/// The status text of a custom resource.
pub fn extract_status(obj: &DynObject, cols: &Vec<PrinterColumn>) -> (r: String)
    requires
        status_column_ok(obj.data, cols@),
    ensures
        r@ == dyn_status(obj.data, cols@),
{
    if let Some(c) = column_named_exec(cols, "status", "phase") {
        if let Some(t) = extract_json_path(&obj.data, c.json_path.as_str()) {
            return t;
        }
    }
    if let Some(x) = at2_exec(&obj.data, "status", "phase") {
        return json_text_exec(x);
    }
    if let Some(x) = at2_exec(&obj.data, "status", "state") {
        return json_text_exec(x);
    }
    if let Some(cs) = at2_exec(&obj.data, "status", "conditions") {
        if let Some(c) = get_index_exec(cs, 0) {
            let tc = chars_of("type");
            if let Some(x) = get_key_exec(c, tc.as_slice()) {
                return json_text_exec(x);
            }
        }
    }
    if let Some(h) = at2_exec(&obj.data, "status", "health") {
        let sc = chars_of("status");
        if let Some(x) = get_key_exec(h, sc.as_slice()) {
            return json_text_exec(x);
        }
    }
    String::from_str("Unknown")
}

/// `format!("{}/{}", a, b)` of two texts.
fn slash_label(a: String, b: String) -> (r: String)
    ensures
        r@ == a@ + "/"@ + b@,
{
    let mut v = chars_of(a.as_str());
    push_str(&mut v, "/");
    push_all(&mut v, chars_of(b.as_str()).as_slice());
    string_of(v.as_slice())
}

/// The ready text of a custom resource, if any.
pub fn extract_ready(obj: &DynObject, cols: &Vec<PrinterColumn>) -> (r: Option<String>)
    requires
        ready_column_ok(obj.data, cols@),
    ensures
        opt_view(r) == dyn_ready(obj.data, cols@),
{
    if let Some(c) = column_named_exec(cols, "ready", "replicas") {
        if let Some(t) = extract_json_path(&obj.data, c.json_path.as_str()) {
            return Some(t);
        }
    }
    if let (Some(a), Some(b)) = (at2_exec(&obj.data, "status", "readyReplicas"), at2_exec(&obj.data, "status", "replicas")) {
        return Some(slash_label(json_text_exec(a), json_text_exec(b)));
    }
    if let (Some(a), Some(b)) = (at2_exec(&obj.data, "status", "ready"), at2_exec(&obj.data, "status", "total")) {
        return Some(slash_label(json_text_exec(a), json_text_exec(b)));
    }
    None
}

/// A custom resource row.
pub open spec fn dyn_row(r: ResourceItem, o: DynObject, cols: Seq<PrinterColumn>) -> bool {
    &&& r.name@ == name_any(o)
    &&& opt_view(r.namespace) == opt_view(o.meta.namespace)
    &&& r.status@ == dyn_status(o.data, cols)
    &&& opt_view(r.ready) == dyn_ready(o.data, cols)
    &&& r.restarts is None
    &&& age_ok(r.age@, r.age_seconds, o.meta.created)
}

/// Rows for custom resources, using the printer columns of their
/// definition where it names a status or ready column.
pub fn dynamic_objects_to_items(objects: &[DynObject], crd: &CrdInfo) -> (r: Vec<ResourceItem>)
    requires
        forall|i: int| 0 <= i < objects@.len() ==> columns_ok(#[trigger] objects@[i].data, crd.printer_columns@),
    ensures
        r@.len() == objects@.len(),
        forall|i: int| 0 <= i < objects@.len() ==> dyn_row(#[trigger] r@[i], objects@[i], crd.printer_columns@),
{
    let mut r: Vec<ResourceItem> = Vec::new();
    let mut i: usize = 0;
    while i < objects.len()
        invariant
            i <= objects@.len(),
            r@.len() == i,
            forall|j: int| 0 <= j < objects@.len() ==> columns_ok(#[trigger] objects@[j].data, crd.printer_columns@),
            forall|j: int| 0 <= j < i ==> dyn_row(#[trigger] r@[j], objects@[j], crd.printer_columns@),
        decreases objects@.len() - i,
    {
        let o = &objects[i];
        let name = match &o.meta.name {
            Some(n) => n.clone(),
            None => match &o.generate_name {
                Some(g) => g.clone(),
                None => String::new(),
            },
        };
        let item = ResourceItem {
            name,
            namespace: opt_clone(&o.meta.namespace),
            status: extract_status(o, &crd.printer_columns),
            age: format_age(o.meta.created),
            age_seconds: age_seconds(o.meta.created),
            ready: extract_ready(o, &crd.printer_columns),
            restarts: None,
        };
        r.push(item);
        i += 1;
    }
    r
}

/// Whether the printer column paths that a row evaluates can be sliced.
pub fn columns_ok_exec(data: &JsonValue, cols: &Vec<PrinterColumn>) -> (r: bool)
    ensures
        r == columns_ok(*data, cols@),
{
    let status_ok = match column_named_exec(cols, "status", "phase") {
        Some(c) => try_extract_json_path(data, c.json_path.as_str()).is_some(),
        None => true,
    };
    let ready_ok = match column_named_exec(cols, "ready", "replicas") {
        Some(c) => try_extract_json_path(data, c.json_path.as_str()).is_some(),
        None => true,
    };
    status_ok && ready_ok
}

/// Rows for custom resources, or `None` where some object's printer
/// column path cannot be sliced.
pub fn try_dynamic_objects_to_items(objects: &[DynObject], crd: &CrdInfo) -> (r: Option<Vec<ResourceItem>>)
    ensures
        r is Some == forall|i: int| 0 <= i < objects@.len() ==> columns_ok(#[trigger] objects@[i].data, crd.printer_columns@),
        r matches Some(items) ==> items@.len() == objects@.len()
            && forall|i: int| 0 <= i < objects@.len() ==> dyn_row(#[trigger] items@[i], objects@[i], crd.printer_columns@),
{
    let mut i: usize = 0;
    while i < objects.len()
        invariant
            i <= objects@.len(),
            forall|j: int| 0 <= j < i ==> columns_ok(#[trigger] objects@[j].data, crd.printer_columns@),
        decreases objects@.len() - i,
    {
        if !columns_ok_exec(&objects[i].data, &crd.printer_columns) {
            return None;
        }
        i += 1;
    }
    Some(dynamic_objects_to_items(objects, crd))
}

} // verus!
