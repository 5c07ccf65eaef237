use ks_ui::nodes::{
    cpu_quantity, format_cpu, format_memory, get_node_roles, get_node_status, get_node_version,
    memory_quantity, node_status_severity, parse_age_to_seconds, sort_nodes, CpuQuantity,
    MemoryQuantity, MemoryScale, NodeInfo, NodeSortColumn, NodeSortKeys, NodeSortState,
    SortDirection,
};
use ks_ui::resources::{Condition, Meta};

fn keys(name: &str, age: &str, cpu: Option<i64>, status: &str) -> NodeSortKeys {
    NodeSortKeys {
        name: name.to_string(),
        roles: "<none>".to_string(),
        cpu: String::new(),
        memory: String::new(),
        version: "v1.30".to_string(),
        status: status.to_string(),
        age: age.to_string(),
        cpu_millis: cpu,
        memory_ki: None,
    }
}

#[test]
fn sort_state_cycles_through_three_states() {
    let s = NodeSortState::default();
    let s1 = s.cycle(NodeSortColumn::Cpu);
    assert!(s1.is_asc(NodeSortColumn::Cpu));
    assert!(!s1.is_desc(NodeSortColumn::Cpu));
    let s2 = s1.cycle(NodeSortColumn::Cpu);
    assert!(s2.is_desc(NodeSortColumn::Cpu));
    let s3 = s2.cycle(NodeSortColumn::Cpu);
    assert_eq!(s3, NodeSortState::default());
    let other = s2.cycle(NodeSortColumn::Name);
    assert!(other.is_asc(NodeSortColumn::Name));
    assert!(!other.is_asc(NodeSortColumn::Cpu));
}

#[test]
fn severity_orders_ready_first() {
    assert_eq!(node_status_severity("Ready"), 0);
    assert_eq!(node_status_severity("NotReady"), 1);
    assert_eq!(node_status_severity("Unknown"), 2);
}

#[test]
fn age_parsing() {
    assert_eq!(parse_age_to_seconds("3d"), Some(259200));
    assert_eq!(parse_age_to_seconds(" 1h30m "), Some(5400));
    assert_eq!(parse_age_to_seconds("45s"), Some(45));
    assert_eq!(parse_age_to_seconds("-"), None);
    assert_eq!(parse_age_to_seconds(""), None);
    assert_eq!(parse_age_to_seconds("5x"), None);
    assert_eq!(parse_age_to_seconds("0s"), None);
    assert_eq!(parse_age_to_seconds("12"), None);
    assert_eq!(parse_age_to_seconds("d"), None);
}

#[test]
fn cpu_formatting() {
    assert_eq!(format_cpu("500m"), "500m");
    assert_eq!(format_cpu("2500m"), "2");
    assert_eq!(format_cpu("250000000n"), "250m");
    assert_eq!(format_cpu("3000000000n"), "3");
    assert_eq!(format_cpu("4"), "4");
    assert_eq!(format_cpu("xm"), "xm");
}

fn float_memory(mem: &str) -> String {
    let (value, unit) = if mem.ends_with("Ki") {
        (mem.trim_end_matches("Ki").parse::<u64>().ok(), "Ki")
    } else if mem.ends_with("Mi") {
        (mem.trim_end_matches("Mi").parse::<u64>().ok(), "Mi")
    } else if mem.ends_with("Gi") {
        (mem.trim_end_matches("Gi").parse::<u64>().ok(), "Gi")
    } else if mem.ends_with("Ti") {
        (mem.trim_end_matches("Ti").parse::<u64>().ok(), "Ti")
    } else if mem.ends_with('K') {
        (mem.trim_end_matches('K').parse::<u64>().ok(), "K")
    } else if mem.ends_with('M') {
        (mem.trim_end_matches('M').parse::<u64>().ok(), "M")
    } else if mem.ends_with('G') {
        (mem.trim_end_matches('G').parse::<u64>().ok(), "G")
    } else if mem.ends_with('T') {
        (mem.trim_end_matches('T').parse::<u64>().ok(), "T")
    } else {
        (mem.parse::<u64>().ok(), "B")
    };
    match (value, unit) {
        (Some(v), "Ki") => {
            if v >= 1024 * 1024 {
                format!("{:.1}Gi", v as f64 / (1024.0 * 1024.0))
            } else if v >= 1024 {
                format!("{:.0}Mi", v as f64 / 1024.0)
            } else {
                format!("{}Ki", v)
            }
        }
        (Some(v), "Mi") => {
            if v >= 1024 {
                format!("{:.1}Gi", v as f64 / 1024.0)
            } else {
                format!("{}Mi", v)
            }
        }
        (Some(v), "Gi") => format!("{}Gi", v),
        (Some(v), "Ti") => format!("{}Ti", v),
        (Some(v), "B") => {
            let gib = v as f64 / (1024.0 * 1024.0 * 1024.0);
            if gib >= 1.0 {
                format!("{:.1}Gi", gib)
            } else {
                let mib = v as f64 / (1024.0 * 1024.0);
                format!("{:.0}Mi", mib)
            }
        }
        _ => mem.to_string(),
    }
}

#[test]
fn memory_formatting_examples() {
    assert_eq!(format_memory("16384Ki"), "16Mi");
    assert_eq!(format_memory("8000000Ki"), "7.6Gi");
    assert_eq!(format_memory("512Ki"), "512Ki");
    assert_eq!(format_memory("2048Mi"), "2.0Gi");
    assert_eq!(format_memory("512Mi"), "512Mi");
    assert_eq!(format_memory("8Gi"), "8Gi");
    assert_eq!(format_memory("1Ti"), "1Ti");
    assert_eq!(format_memory("5G"), "5G");
    assert_eq!(format_memory("1073741824"), "1.0Gi");
    assert_eq!(format_memory("524288000"), "500Mi");
    assert_eq!(format_memory("abc"), "abc");
}

#[test]
fn memory_formatting_agrees_with_float_formatting() {
    let mut samples: Vec<u64> = vec![0, 1, 1023, 1024, 1025, 1536, 2560, 3584, 1048575, 1048576, 1310720, 1363148, 1415577];
    let mut x: u64 = 0x9e3779b97f4a7c15;
    for _ in 0..3000 {
        x ^= x << 13;
        x ^= x >> 7;
        x ^= x << 17;
        samples.push(x >> (x % 60));
    }
    samples.push(u64::MAX);
    samples.push((1u64 << 53) + 1);
    samples.push((1u64 << 54) + 3);
    for k in 0..40u64 {
        samples.push(k * 104857 + 52428);
        samples.push(1073741824 + k * 53687091);
    }
    for v in samples {
        for unit in ["Ki", "Mi", ""] {
            let text = format!("{}{}", v, unit);
            assert_eq!(format_memory(&text), float_memory(&text), "{}", text);
        }
    }
}

#[test]
fn quantity_reading() {
    assert!(matches!(cpu_quantity(" 250m "), CpuQuantity::Millicores(Some(250))));
    assert!(matches!(cpu_quantity("5000000n"), CpuQuantity::Millicores(Some(5))));
    assert!(matches!(cpu_quantity("-"), CpuQuantity::Missing));
    match cpu_quantity("1.5") {
        CpuQuantity::Cores(t) => assert_eq!(t, "1.5"),
        _ => panic!("expected cores"),
    }
    assert!(matches!(memory_quantity("1024Ki"), MemoryQuantity::Kibibytes(Some(1024))));
    match memory_quantity("2Gi") {
        MemoryQuantity::Scaled(t, MemoryScale::Gibi) => assert_eq!(t, "2"),
        _ => panic!("expected gibibytes"),
    }
    assert!(matches!(memory_quantity(""), MemoryQuantity::Missing));
}

#[test]
fn sort_by_cpu_is_stable() {
    let mut rows = vec![
        (1, keys("a", "1d", Some(500), "Ready")),
        (2, keys("b", "1d", None, "Ready")),
        (3, keys("c", "1d", Some(100), "Ready")),
        (4, keys("d", "1d", Some(500), "Ready")),
    ];
    let state = NodeSortState { column: Some(NodeSortColumn::Cpu), direction: Some(SortDirection::Ascending) };
    sort_nodes(&mut rows, &state);
    let order: Vec<i32> = rows.iter().map(|r| r.0).collect();
    assert_eq!(order, vec![3, 1, 4, 2]);
    let state = NodeSortState { column: Some(NodeSortColumn::Cpu), direction: Some(SortDirection::Descending) };
    sort_nodes(&mut rows, &state);
    let order: Vec<i32> = rows.iter().map(|r| r.0).collect();
    assert_eq!(order, vec![2, 1, 4, 3]);
}

#[test]
fn sort_by_name_ignores_case() {
    let mut rows = vec![(1, keys("beta", "1d", None, "Ready")), (2, keys("Alpha", "1d", None, "Ready")), (3, keys("gamma", "1d", None, "Ready"))];
    let state = NodeSortState { column: Some(NodeSortColumn::Name), direction: Some(SortDirection::Ascending) };
    sort_nodes(&mut rows, &state);
    let order: Vec<i32> = rows.iter().map(|r| r.0).collect();
    assert_eq!(order, vec![2, 1, 3]);
}

#[test]
fn sort_by_age_and_status() {
    let mut rows = vec![(1, keys("a", "2d", None, "NotReady")), (2, keys("b", "5h", None, "Ready")), (3, keys("c", "-", None, "Unknown"))];
    let state = NodeSortState { column: Some(NodeSortColumn::Age), direction: Some(SortDirection::Ascending) };
    sort_nodes(&mut rows, &state);
    let order: Vec<i32> = rows.iter().map(|r| r.0).collect();
    assert_eq!(order, vec![2, 1, 3]);
    let state = NodeSortState { column: Some(NodeSortColumn::Status), direction: Some(SortDirection::Ascending) };
    sort_nodes(&mut rows, &state);
    let order: Vec<i32> = rows.iter().map(|r| r.0).collect();
    assert_eq!(order, vec![2, 1, 3]);
}

#[test]
fn unsorted_state_keeps_order() {
    let mut rows = vec![(1, keys("b", "1d", None, "Ready")), (2, keys("a", "1d", None, "Ready"))];
    sort_nodes(&mut rows, &NodeSortState::default());
    let order: Vec<i32> = rows.iter().map(|r| r.0).collect();
    assert_eq!(order, vec![1, 2]);
}

fn node(labels: Option<Vec<&str>>, conditions: Option<Vec<(&str, &str)>>) -> NodeInfo {
    NodeInfo {
        meta: Meta { name: Some("n1".to_string()), namespace: None, created: None },
        label_keys: labels.map(|l| l.into_iter().map(|s| s.to_string()).collect()),
        conditions: conditions.map(|c| {
            c.into_iter().map(|(t, s)| Condition { type_: t.to_string(), status: s.to_string() }).collect()
        }),
        kubelet_version: None,
        allocatable_cpu: None,
        allocatable_memory: None,
    }
}

#[test]
fn node_columns() {
    let n = node(
        Some(vec!["kubernetes.io/os", "node-role.kubernetes.io/control-plane", "node-role.kubernetes.io/worker", "node-role.kubernetes.io/"]),
        Some(vec![("MemoryPressure", "False"), ("Ready", "True")]),
    );
    assert_eq!(get_node_roles(&n), "control-plane, worker");
    assert_eq!(get_node_status(&n), ("Ready".to_string(), "status-success"));
    assert_eq!(get_node_version(&n), "-");
    let m = node(None, Some(vec![("Ready", "False")]));
    assert_eq!(get_node_roles(&m), "<none>");
    assert_eq!(get_node_status(&m), ("NotReady".to_string(), "status-error"));
    let u = node(None, None);
    assert_eq!(get_node_status(&u), ("Unknown".to_string(), "status-unknown"));
}
