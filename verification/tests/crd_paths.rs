use ks_ui::crd::{
    dynamic_objects_to_items, extract_ready, extract_status, try_dynamic_objects_to_items, CrdInfo, DynObject,
    PrinterColumn,
};
use ks_ui::json::{extract_json_path, try_extract_json_path, JsonValue};
use ks_ui::resources::Meta;

fn obj(entries: Vec<(&str, JsonValue)>) -> JsonValue {
    let text = format!(
        "{{{}}}",
        entries
            .iter()
            .map(|(k, v)| format!("\"{}\":{}", k, render(v)))
            .collect::<Vec<_>>()
            .join(",")
    );
    JsonValue::Object(entries.into_iter().map(|(k, v)| (k.to_string(), v)).collect(), text)
}

fn arr(items: Vec<JsonValue>) -> JsonValue {
    let text = format!("[{}]", items.iter().map(render).collect::<Vec<_>>().join(","));
    JsonValue::Array(items, text)
}

fn s(v: &str) -> JsonValue {
    JsonValue::Str(v.to_string())
}

fn render(v: &JsonValue) -> String {
    match v {
        JsonValue::Null => "null".to_string(),
        JsonValue::Bool(b) => b.to_string(),
        JsonValue::Number(t) => t.clone(),
        JsonValue::Str(t) => format!("\"{}\"", t),
        JsonValue::Array(_, t) => t.clone(),
        JsonValue::Object(_, t) => t.clone(),
    }
}

#[test]
fn test_extract_json_path_simple() {
    let data = obj(vec![("status", obj(vec![("phase", s("Running"))]))]);
    assert_eq!(extract_json_path(&data, ".status.phase"), Some("Running".to_string()));
}

#[test]
fn test_extract_json_path_array() {
    let data = obj(vec![(
        "status",
        obj(vec![(
            "conditions",
            arr(vec![
                obj(vec![("type", s("Ready")), ("status", s("True"))]),
                obj(vec![("type", s("Available")), ("status", s("False"))]),
            ]),
        )]),
    )]);
    assert_eq!(
        extract_json_path(&data, ".status.conditions[0].type"),
        Some("Ready".to_string())
    );
}

#[test]
fn test_extract_json_path_number() {
    let data = obj(vec![("status", obj(vec![("replicas", JsonValue::Number("3".to_string()))]))]);
    assert_eq!(extract_json_path(&data, ".status.replicas"), Some("3".to_string()));
}

fn num(t: &str) -> JsonValue {
    JsonValue::Number(t.to_string())
}

fn dyn_obj(data: JsonValue) -> DynObject {
    DynObject {
        meta: Meta { name: Some("res".to_string()), namespace: Some("ns".to_string()), created: None },
        generate_name: None,
        data,
    }
}

fn col(name: &str, path: &str) -> PrinterColumn {
    PrinterColumn { name: name.to_string(), json_path: path.to_string() }
}

#[test]
fn json_path_edge_cases() {
    let data = obj(vec![(
        "spec",
        obj(vec![
            ("items", arr(vec![num("1"), num("2")])),
            ("flag", JsonValue::Bool(true)),
            ("nested", obj(vec![("a", num("5"))])),
        ]),
    )]);
    assert_eq!(extract_json_path(&data, ""), Some(render(&data)));
    assert_eq!(extract_json_path(&data, ".spec.items[1]"), Some("2".to_string()));
    assert_eq!(extract_json_path(&data, ".spec.items[5]"), None);
    assert_eq!(extract_json_path(&data, ".spec.items[x]"), None);
    assert_eq!(extract_json_path(&data, ".spec.flag"), Some("true".to_string()));
    assert_eq!(extract_json_path(&data, ".spec.nested"), Some("{\"a\":5}".to_string()));
    assert_eq!(extract_json_path(&data, ".spec.items"), Some("[1,2]".to_string()));
    assert_eq!(extract_json_path(&data, ".spec..flag"), Some("true".to_string()));
    assert_eq!(extract_json_path(&data, ".missing"), None);
    assert_eq!(extract_json_path(&data, "spec.flag"), Some("true".to_string()));
    assert_eq!(try_extract_json_path(&data, ".spec.items["), None);
    assert_eq!(try_extract_json_path(&data, ".spec.flag"), Some(Some("true".to_string())));
}

#[test]
fn status_from_printer_column_then_common_places() {
    let cols = vec![col("Status", ".status.summary")];
    let o = dyn_obj(obj(vec![("status", obj(vec![("summary", s("Healthy")), ("phase", s("Running"))]))]));
    assert_eq!(extract_status(&o, &cols), "Healthy");
    let o = dyn_obj(obj(vec![("status", obj(vec![("phase", s("Running"))]))]));
    assert_eq!(extract_status(&o, &cols), "Running");
    assert_eq!(extract_status(&o, &vec![]), "Running");
    let o = dyn_obj(obj(vec![("status", obj(vec![("state", s("Synced"))]))]));
    assert_eq!(extract_status(&o, &vec![]), "Synced");
    let o = dyn_obj(obj(vec![("status", obj(vec![("conditions", arr(vec![obj(vec![("type", s("Ready"))])]))]))]));
    assert_eq!(extract_status(&o, &vec![]), "Ready");
    let o = dyn_obj(obj(vec![("status", obj(vec![("health", obj(vec![("status", s("Degraded"))]))]))]));
    assert_eq!(extract_status(&o, &vec![]), "Degraded");
    let o = dyn_obj(obj(vec![("spec", obj(vec![]))]));
    assert_eq!(extract_status(&o, &vec![]), "Unknown");
}

#[test]
fn phase_column_name_is_matched_without_case() {
    let cols = vec![col("Age", ".metadata.creationTimestamp"), col("PHASE", ".status.current")];
    let o = dyn_obj(obj(vec![("status", obj(vec![("current", s("Bound"))]))]));
    assert_eq!(extract_status(&o, &cols), "Bound");
}

#[test]
fn ready_from_column_or_replica_counts() {
    let cols = vec![col("Ready", ".status.readyText")];
    let o = dyn_obj(obj(vec![("status", obj(vec![("readyText", s("2 of 3"))]))]));
    assert_eq!(extract_ready(&o, &cols), Some("2 of 3".to_string()));
    let o = dyn_obj(obj(vec![("status", obj(vec![("readyReplicas", num("2")), ("replicas", num("3"))]))]));
    assert_eq!(extract_ready(&o, &cols), Some("2/3".to_string()));
    let o = dyn_obj(obj(vec![("status", obj(vec![("ready", num("1")), ("total", num("4"))]))]));
    assert_eq!(extract_ready(&o, &vec![]), Some("1/4".to_string()));
    let o = dyn_obj(obj(vec![("status", obj(vec![("readyReplicas", num("2"))]))]));
    assert_eq!(extract_ready(&o, &vec![]), None);
}

#[test]
fn custom_resource_rows() {
    let crd = CrdInfo { printer_columns: vec![col("Status", ".status.phase")] };
    let mut unnamed = dyn_obj(obj(vec![("status", obj(vec![("phase", s("Active"))]))]));
    unnamed.meta.name = None;
    unnamed.generate_name = Some("gen-".to_string());
    let rows = dynamic_objects_to_items(&[dyn_obj(obj(vec![])), unnamed], &crd);
    assert_eq!(rows.len(), 2);
    assert_eq!(rows[0].name, "res");
    assert_eq!(rows[0].status, "Unknown");
    assert_eq!(rows[0].namespace.as_deref(), Some("ns"));
    assert_eq!(rows[0].age, "-");
    assert_eq!(rows[1].name, "gen-");
    assert_eq!(rows[1].status, "Active");
    assert_eq!(rows[1].restarts, None);
}

#[test]
fn rows_are_refused_where_a_column_path_would_panic() {
    let crd = CrdInfo { printer_columns: vec![col("Status", ".status.list[")] };
    let o = dyn_obj(obj(vec![("status", obj(vec![("list", arr(vec![]))]))]));
    assert!(try_dynamic_objects_to_items(&[o], &crd).is_none());
    let ok = CrdInfo { printer_columns: vec![] };
    let o = dyn_obj(obj(vec![]));
    assert_eq!(try_dynamic_objects_to_items(&[o], &ok).unwrap().len(), 1);
}
