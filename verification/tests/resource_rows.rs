use ks_ui::resources::{
    address_count_exec, age_label, clusterrole_item, clusterrolebinding_item, configmaps_to_items,
    count_label, cronjob_item, daemonset_item, deployment_item, endpoints_item, event_item,
    format_age, ingress_item, job_item, node_item, pod_item, pods_to_items, pv_item, pvc_item,
    ratio_label, role_item, rolebinding_item, secret_item, services_to_items, statefulset_item,
    storageclass_item, BindingInfo, Condition, ConfigMapInfo, ContainerSecretRefs,
    ContainerStatusInfo, CronJobInfo, CronJobSpecInfo, CronJobStatusInfo, DaemonSetInfo,
    DaemonSetStatusInfo, DeploymentInfo, DeploymentStatusInfo, EndpointsInfo, EventInfo,
    IngressInfo, JobInfo, JobStatusInfo, Meta, NodeRowInfo, PodInfo, PodSpecInfo, PodStatusInfo,
    ReplicaStatusInfo, RoleInfo, SecretInfo, ServiceInfo, ServiceSpecInfo, StatefulSetInfo,
    StorageClassInfo, VolumeInfo,
};

fn meta(name: &str, ns: Option<&str>) -> Meta {
    Meta { name: Some(name.to_string()), namespace: ns.map(|s| s.to_string()), created: None }
}

fn container(ready: bool, restarts: i32) -> ContainerStatusInfo {
    ContainerStatusInfo { ready, restart_count: restarts, waiting_reason: None, terminated_reason: None }
}

fn pod(name: &str, phase: Option<&str>, cs: Option<Vec<ContainerStatusInfo>>) -> PodInfo {
    PodInfo {
        meta: meta(name, Some("default")),
        spec: None,
        status: Some(PodStatusInfo { phase: phase.map(|s| s.to_string()), container_statuses: cs }),
    }
}

fn cond(t: &str, s: &str) -> Condition {
    Condition { type_: t.to_string(), status: s.to_string() }
}

#[test]
fn ages_use_the_largest_whole_unit() {
    assert_eq!(age_label(2 * 86400 + 5), "2d");
    assert_eq!(age_label(7200), "2h");
    assert_eq!(age_label(3599), "59m");
    assert_eq!(age_label(59), "59s");
    assert_eq!(age_label(-4), "0s");
    assert_eq!(format_age(None), "-");
}

#[test]
fn labels_render_counts_and_ratios() {
    assert_eq!(ratio_label(2, 3), "2/3");
    assert_eq!(ratio_label(-1, 0), "-1/0");
    assert_eq!(count_label(1, "key", "s"), "1 key");
    assert_eq!(count_label(0, "key", "s"), "0 keys");
    assert_eq!(count_label(2, "address", "es"), "2 addresses");
}

#[test]
fn running_pod_sums_restarts_and_counts_ready() {
    let p = pod("web", Some("Running"), Some(vec![container(true, 1), container(true, 2)]));
    let r = pod_item(&p);
    assert_eq!(r.name, "web");
    assert_eq!(r.namespace.as_deref(), Some("default"));
    assert_eq!(r.status, "Running");
    assert_eq!(r.ready.as_deref(), Some("2/2"));
    assert_eq!(r.restarts, Some(3));
    assert_eq!(r.age, "-");
    assert_eq!(r.age_seconds, None);
}

#[test]
fn waiting_reason_wins_over_phase() {
    let mut c = container(false, 4);
    c.waiting_reason = Some("CrashLoopBackOff".to_string());
    let mut t = container(false, 0);
    t.terminated_reason = Some("OOMKilled".to_string());
    let p = pod("api", Some("Running"), Some(vec![t, c]));
    let r = pod_item(&p);
    assert_eq!(r.status, "CrashLoopBackOff");
    assert_eq!(r.ready.as_deref(), Some("0/2"));
    assert_eq!(r.restarts, Some(4));
}

#[test]
fn terminated_reason_then_not_ready() {
    let mut t = container(false, 0);
    t.terminated_reason = Some("Completed".to_string());
    assert_eq!(pod_item(&pod("a", Some("Succeeded"), Some(vec![t]))).status, "Completed");
    let p = pod("b", Some("Running"), Some(vec![container(true, 0), container(false, 0)]));
    assert_eq!(pod_item(&p).status, "NotReady");
}

#[test]
fn pod_without_container_statuses_shows_phase() {
    let r = pod_item(&pod("p", Some("Pending"), None));
    assert_eq!(r.status, "Pending");
    assert_eq!(r.ready, None);
    assert_eq!(r.restarts, None);
    let r = pod_item(&pod("q", None, None));
    assert_eq!(r.status, "Unknown");
    let bare = PodInfo { meta: meta("z", None), spec: None, status: None };
    let r = pod_item(&bare);
    assert_eq!(r.status, "Unknown");
    assert_eq!(r.namespace, None);
}

#[test]
fn pod_list_keeps_order() {
    let rows = pods_to_items(&[pod("one", Some("Running"), None), pod("two", Some("Failed"), None)]);
    assert_eq!(rows.len(), 2);
    assert_eq!(rows[0].name, "one");
    assert_eq!(rows[1].status, "Failed");
}

#[test]
fn pod_with_a_timestamp_gets_an_age() {
    let mut p = pod("old", Some("Running"), None);
    p.meta.created = Some(0);
    let r = pod_item(&p);
    assert!(r.age.ends_with('d'));
    assert!(r.age_seconds.unwrap() > 0);
}

fn deployment(ready: Option<i32>, replicas: Option<i32>, conds: Option<Vec<Condition>>) -> DeploymentInfo {
    DeploymentInfo {
        meta: meta("d", Some("prod")),
        status: Some(DeploymentStatusInfo { ready_replicas: ready, replicas, conditions: conds }),
    }
}

#[test]
fn deployment_statuses() {
    let r = deployment_item(&deployment(Some(3), Some(3), None));
    assert_eq!(r.status, "Available");
    assert_eq!(r.ready.as_deref(), Some("3/3"));
    assert_eq!(deployment_item(&deployment(Some(1), Some(3), None)).status, "Progressing");
    assert_eq!(deployment_item(&deployment(None, None, None)).status, "Unknown");
    let failed = deployment(Some(3), Some(3), Some(vec![cond("ReplicaFailure", "True")]));
    assert_eq!(deployment_item(&failed).status, "Failed");
    let stalled = deployment(Some(1), Some(3), Some(vec![cond("Available", "True"), cond("Progressing", "False")]));
    assert_eq!(deployment_item(&stalled).status, "Stalled");
    let fine = deployment(Some(2), Some(2), Some(vec![cond("Progressing", "True")]));
    assert_eq!(deployment_item(&fine).status, "Available");
    let none = DeploymentInfo { meta: meta("x", None), status: None };
    let r = deployment_item(&none);
    assert_eq!(r.status, "Unknown");
    assert_eq!(r.ready, None);
}

#[test]
fn statefulset_defaults_to_one_replica() {
    let s = StatefulSetInfo {
        meta: meta("db", Some("data")),
        replicas: None,
        status: Some(ReplicaStatusInfo { ready_replicas: Some(1) }),
    };
    let r = statefulset_item(&s);
    assert_eq!(r.status, "Running");
    assert_eq!(r.ready.as_deref(), Some("1/1"));
    let s = StatefulSetInfo { meta: meta("db", None), replicas: Some(3), status: Some(ReplicaStatusInfo { ready_replicas: None }) };
    let r = statefulset_item(&s);
    assert_eq!(r.status, "Pending");
    assert_eq!(r.ready.as_deref(), Some("0/3"));
    let s = StatefulSetInfo { meta: meta("db", None), replicas: Some(3), status: None };
    assert_eq!(statefulset_item(&s).status, "Unknown");
}

#[test]
fn daemonset_statuses() {
    let d = |ready: i32, desired: i32| DaemonSetInfo {
        meta: meta("agent", Some("kube-system")),
        status: Some(DaemonSetStatusInfo { number_ready: ready, desired_number_scheduled: desired }),
    };
    assert_eq!(daemonset_item(&d(3, 3)).status, "Running");
    assert_eq!(daemonset_item(&d(1, 3)).status, "Degraded");
    assert_eq!(daemonset_item(&d(0, 3)).status, "Pending");
    assert_eq!(daemonset_item(&d(1, 3)).ready.as_deref(), Some("1/3"));
}

#[test]
fn job_statuses() {
    let j = |succeeded: Option<i32>, failed: Option<i32>, active: Option<i32>, completions: Option<i32>| JobInfo {
        meta: meta("batch", Some("jobs")),
        completions,
        status: Some(JobStatusInfo { succeeded, failed, active }),
    };
    let r = job_item(&j(Some(1), None, None, Some(1)));
    assert_eq!(r.status, "Complete");
    assert_eq!(r.ready.as_deref(), Some("1/1"));
    assert_eq!(job_item(&j(Some(1), Some(2), None, Some(3))).status, "Failed");
    assert_eq!(job_item(&j(None, None, Some(1), Some(1))).status, "Running");
    assert_eq!(job_item(&j(None, None, None, None)).status, "Pending");
    assert_eq!(job_item(&j(None, None, None, None)).ready.as_deref(), Some("0/1"));
    // succeeded without a completion count is not complete
    assert_eq!(job_item(&j(Some(1), None, None, None)).status, "Pending");
}

#[test]
fn cronjob_row_shows_schedule_and_last_run() {
    let c = CronJobInfo {
        meta: meta("nightly", Some("ops")),
        spec: Some(CronJobSpecInfo { schedule: "0 2 * * *".to_string(), suspend: Some(false) }),
        status: Some(CronJobStatusInfo { last_schedule_time: Some(1704164640), active: Some(1) }),
    };
    let r = cronjob_item(&c);
    assert_eq!(r.status, "Active");
    assert_eq!(r.age, "0 2 * * *");
    assert_eq!(r.age_seconds, None);
    assert_eq!(r.ready.as_deref(), Some("Last: 2024-01-02 03:04"));
    let s = CronJobInfo {
        meta: meta("paused", None),
        spec: Some(CronJobSpecInfo { schedule: "@hourly".to_string(), suspend: Some(true) }),
        status: None,
    };
    let r = cronjob_item(&s);
    assert_eq!(r.status, "Suspended");
    assert_eq!(r.ready, None);
    let idle = CronJobInfo { meta: meta("idle", None), spec: None, status: None };
    let r = cronjob_item(&idle);
    assert_eq!(r.status, "Ready");
    assert_eq!(r.age, "");
}

#[test]
fn configmap_counts_both_kinds_of_keys() {
    let rows = configmaps_to_items(&[
        ConfigMapInfo { meta: meta("cfg", Some("a")), data_keys: Some(2), binary_keys: Some(1) },
        ConfigMapInfo { meta: meta("empty", Some("a")), data_keys: None, binary_keys: None },
    ]);
    assert_eq!(rows[0].status, "Active");
    assert_eq!(rows[0].ready.as_deref(), Some("3 keys"));
    assert_eq!(rows[1].ready.as_deref(), Some("0 keys"));
}

fn refs(from: &[&str], keys: &[&str]) -> ContainerSecretRefs {
    ContainerSecretRefs {
        env_from_secrets: from.iter().map(|s| s.to_string()).collect(),
        env_secret_keys: keys.iter().map(|s| s.to_string()).collect(),
    }
}

fn pod_using(ns: &str, phase: &str, spec: PodSpecInfo) -> PodInfo {
    PodInfo {
        meta: meta("user", Some(ns)),
        spec: Some(spec),
        status: Some(PodStatusInfo { phase: Some(phase.to_string()), container_statuses: None }),
    }
}

fn empty_spec() -> PodSpecInfo {
    PodSpecInfo { image_pull_secrets: vec![], volume_secrets: vec![], containers: vec![], init_containers: vec![] }
}

#[test]
fn secret_in_use_by_a_running_pod() {
    let secret = SecretInfo { meta: meta("db-pass", Some("app")), data_keys: Some(1) };
    let mut spec = empty_spec();
    spec.containers.push(refs(&[], &["db-pass"]));
    let pods = vec![pod_using("app", "Running", spec)];
    let r = secret_item(&secret, &pods);
    assert_eq!(r.status, "In Use");
    assert_eq!(r.ready.as_deref(), Some("1 key"));
}

#[test]
fn secret_unused_when_pod_is_elsewhere_or_not_running() {
    let secret = SecretInfo { meta: meta("tls", Some("app")), data_keys: Some(2) };
    let mut spec = empty_spec();
    spec.volume_secrets.push("tls".to_string());
    let other_ns = pod_using("other", "Running", spec);
    let mut spec = empty_spec();
    spec.image_pull_secrets.push("tls".to_string());
    let pending = pod_using("app", "Pending", spec);
    let r = secret_item(&secret, &[other_ns, pending]);
    assert_eq!(r.status, "Unused");
    assert_eq!(r.ready.as_deref(), Some("2 keys"));
    let none = SecretInfo { meta: meta("n", None), data_keys: None };
    assert_eq!(secret_item(&none, &[]).ready, None);
}

#[test]
fn secret_found_through_init_container_env_from() {
    let secret = SecretInfo { meta: meta("init", Some("app")), data_keys: Some(1) };
    let mut spec = empty_spec();
    spec.init_containers.push(refs(&["init"], &[]));
    assert_eq!(secret_item(&secret, &[pod_using("app", "Running", spec)]).status, "In Use");
}

fn endpoints(name: &str, ns: &str, subsets: Option<Vec<Option<usize>>>) -> EndpointsInfo {
    EndpointsInfo { meta: meta(name, Some(ns)), subsets }
}

#[test]
fn endpoints_count_addresses() {
    let e = endpoints("web", "a", Some(vec![Some(2), None, Some(1)]));
    assert_eq!(address_count_exec(&e), 3);
    let r = endpoints_item(&e);
    assert_eq!(r.status, "Ready");
    assert_eq!(r.ready.as_deref(), Some("3 addresses"));
    let r = endpoints_item(&endpoints("none", "a", None));
    assert_eq!(r.status, "NotReady");
    assert_eq!(r.ready.as_deref(), Some("0 addresses"));
    assert_eq!(endpoints_item(&endpoints("one", "a", Some(vec![Some(1)]))).ready.as_deref(), Some("1 address"));
}

fn service(name: &str, ns: &str, type_: Option<&str>, ports: Option<usize>, selector: Option<usize>) -> ServiceInfo {
    ServiceInfo {
        meta: meta(name, Some(ns)),
        spec: Some(ServiceSpecInfo { type_: type_.map(|s| s.to_string()), ports, selector }),
    }
}

#[test]
fn services_look_up_their_endpoints() {
    let eps = vec![endpoints("web", "a", Some(vec![Some(2)])), endpoints("db", "a", Some(vec![]))];
    let rows = services_to_items(
        &[
            service("web", "a", None, Some(1), Some(1)),
            service("db", "a", Some("NodePort"), Some(2), Some(1)),
            service("ext", "a", Some("ExternalName"), None, Some(1)),
            service("headless", "a", None, Some(0), None),
            service("web", "b", None, Some(1), Some(1)),
        ],
        &eps,
    );
    assert_eq!(rows[0].status, "Active");
    assert_eq!(rows[0].ready.as_deref(), Some("ClusterIP (1 port)"));
    assert_eq!(rows[1].status, "Pending");
    assert_eq!(rows[1].ready.as_deref(), Some("NodePort (2 ports)"));
    assert_eq!(rows[2].status, "Active");
    assert_eq!(rows[2].ready.as_deref(), Some("ExternalName (0 ports)"));
    assert_eq!(rows[3].status, "Active");
    assert_eq!(rows[4].status, "Pending");
}

#[test]
fn the_last_endpoints_of_a_name_count() {
    let eps = vec![endpoints("web", "a", Some(vec![Some(2)])), endpoints("web", "a", Some(vec![]))];
    let rows = services_to_items(&[service("web", "a", None, Some(1), Some(1))], &eps);
    assert_eq!(rows[0].status, "Pending");
}

#[test]
fn ingress_prefers_load_balancer_endpoints() {
    let g = IngressInfo { meta: meta("in", Some("a")), class: Some("nginx".to_string()), rules: Some(2), load_balancer: Some(1) };
    let r = ingress_item(&g);
    assert_eq!(r.status, "nginx");
    assert_eq!(r.ready.as_deref(), Some("1 endpoint"));
    let g = IngressInfo { meta: meta("in", Some("a")), class: None, rules: Some(2), load_balancer: Some(0) };
    let r = ingress_item(&g);
    assert_eq!(r.status, "default");
    assert_eq!(r.ready.as_deref(), Some("2 rules"));
    let g = IngressInfo { meta: meta("in", Some("a")), class: None, rules: Some(1), load_balancer: None };
    assert_eq!(ingress_item(&g).ready.as_deref(), Some("1 rule"));
}

#[test]
fn volumes_show_capacity_and_class() {
    let v = VolumeInfo {
        meta: meta("pv1", Some("ignored")),
        phase: Some("Bound".to_string()),
        capacity: Some("10Gi".to_string()),
        storage_class: Some("fast".to_string()),
    };
    let r = pv_item(&v);
    assert_eq!(r.status, "Bound");
    assert_eq!(r.namespace, None);
    assert_eq!(r.ready.as_deref(), Some("10Gi (fast)"));
    let empty = VolumeInfo { meta: meta("pv2", None), phase: None, capacity: None, storage_class: None };
    assert_eq!(pv_item(&empty).ready.as_deref(), Some("Unknown (None)"));
    assert_eq!(pv_item(&empty).status, "Unknown");
    let claim = VolumeInfo { meta: meta("data", Some("app")), phase: None, capacity: None, storage_class: None };
    let r = pvc_item(&claim);
    assert_eq!(r.namespace.as_deref(), Some("app"));
    assert_eq!(r.ready.as_deref(), Some("Pending (default)"));
}

#[test]
fn storage_class_default_annotation() {
    let mk = |ann: Option<Vec<(String, String)>>| StorageClassInfo {
        meta: meta("standard", None),
        annotations: ann,
        provisioner: "rancher.io/local-path".to_string(),
        reclaim_policy: None,
        volume_binding_mode: Some("WaitForFirstConsumer".to_string()),
    };
    let ga = vec![("storageclass.kubernetes.io/is-default-class".to_string(), "true".to_string())];
    let r = storageclass_item(&mk(Some(ga)));
    assert_eq!(r.status, "rancher.io/local-path (default)");
    assert_eq!(r.ready.as_deref(), Some("Delete / WaitForFirstConsumer"));
    let beta = vec![("storageclass.beta.kubernetes.io/is-default-class".to_string(), "true".to_string())];
    assert_eq!(storageclass_item(&mk(Some(beta))).status, "rancher.io/local-path (default)");
    let ga_false = vec![
        ("storageclass.kubernetes.io/is-default-class".to_string(), "false".to_string()),
        ("storageclass.beta.kubernetes.io/is-default-class".to_string(), "true".to_string()),
    ];
    assert_eq!(storageclass_item(&mk(Some(ga_false))).status, "rancher.io/local-path");
    assert_eq!(storageclass_item(&mk(None)).status, "rancher.io/local-path");
}

#[test]
fn event_row_columns() {
    let e = EventInfo {
        namespace: Some("app".to_string()),
        type_: Some("Warning".to_string()),
        reason: Some("BackOff".to_string()),
        message: Some("restarting".to_string()),
        object_kind: Some("Pod".to_string()),
        object_name: Some("web-1".to_string()),
        count: Some(7),
    };
    let r = event_item(&e);
    assert_eq!(r.name, "Pod/web-1");
    assert_eq!(r.status, "Warning");
    assert_eq!(r.age, "BackOff");
    assert_eq!(r.ready.as_deref(), Some("restarting"));
    assert_eq!(r.restarts, Some(7));
    let bare = EventInfo { namespace: None, type_: None, reason: None, message: None, object_kind: None, object_name: None, count: None };
    let r = event_item(&bare);
    assert_eq!(r.name, "Unknown/unknown");
    assert_eq!(r.status, "Normal");
    assert_eq!(r.ready.as_deref(), Some(""));
    assert_eq!(r.restarts, None);
}

#[test]
fn node_row_reads_ready_condition() {
    let n = NodeRowInfo { meta: meta("n1", Some("x")), conditions: Some(vec![cond("MemoryPressure", "False"), cond("Ready", "True")]) };
    let r = node_item(&n);
    assert_eq!(r.status, "Ready");
    assert_eq!(r.namespace, None);
    let n = NodeRowInfo { meta: meta("n2", None), conditions: Some(vec![cond("Ready", "Unknown")]) };
    assert_eq!(node_item(&n).status, "NotReady");
    let n = NodeRowInfo { meta: meta("n3", None), conditions: None };
    assert_eq!(node_item(&n).status, "NotReady");
}

#[test]
fn access_control_rows() {
    let role = RoleInfo { meta: meta("reader", Some("app")), rules: Some(3) };
    assert_eq!(role_item(&role).status, "3 rules");
    assert_eq!(role_item(&role).namespace.as_deref(), Some("app"));
    let cr = clusterrole_item(&RoleInfo { meta: meta("admin", Some("x")), rules: None });
    assert_eq!(cr.status, "0 rules");
    assert_eq!(cr.namespace, None);
    let b = BindingInfo { meta: meta("bind", Some("app")), role_kind: "Role".to_string(), role_name: "reader".to_string() };
    assert_eq!(rolebinding_item(&b).status, "Role/reader");
    let crb = clusterrolebinding_item(&b);
    assert_eq!(crb.status, "Role/reader");
    assert_eq!(crb.namespace, None);
}
