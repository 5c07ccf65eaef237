//! Rows of the resource tables: each Kubernetes object kind is summarised as
//! a `ResourceItem` (name, namespace, status, age, ready column, restarts).
//!
//! The objects are described by the fields that the summaries read; the
//! creation timestamps are whole Unix seconds (Kubernetes serialises them
//! at second precision).

use vstd::prelude::*;
use crate::num::{i64_dec, int_dec, nat_dec, u64_dec};
use crate::text::{push_all, push_str, string_of};

verus! {

// ---------------------------------------------------------------------------
// Rows and object metadata
// ---------------------------------------------------------------------------

/// One row of a resource table.
pub struct ResourceItem {
    pub name: String,
    pub namespace: Option<String>,
    pub status: String,
    pub age: String,
    pub age_seconds: Option<i64>,
    pub ready: Option<String>,
    pub restarts: Option<u32>,
}

/// The metadata every object carries.
pub struct Meta {
    pub name: Option<String>,
    pub namespace: Option<String>,
    /// Creation time in Unix seconds.
    pub created: Option<i64>,
}

/// The view of an optional string.
pub open spec fn opt_view(o: Option<String>) -> Option<Seq<char>> {
    match o {
        Some(s) => Some(s@),
        None => None,
    }
}

/// `name.unwrap_or_default()`.
pub open spec fn name_or_empty(m: Meta) -> Seq<char> {
    match m.name {
        Some(n) => n@,
        None => Seq::empty(),
    }
}

/// `o.unwrap_or(d)` on strings.
pub open spec fn or_text(o: Option<String>, d: Seq<char>) -> Seq<char> {
    match o {
        Some(s) => s@,
        None => d,
    }
}

/// The parts of a row that do not depend on the clock.
pub struct ItemView {
    pub name: Seq<char>,
    pub namespace: Option<Seq<char>>,
    pub status: Seq<char>,
    pub ready: Option<Seq<char>>,
    pub restarts: Option<u32>,
}

/// The clock-independent view of a row.
pub open spec fn fixed(item: ResourceItem) -> ItemView {
    ItemView {
        name: item.name@,
        namespace: opt_view(item.namespace),
        status: item.status@,
        ready: opt_view(item.ready),
        restarts: item.restarts,
    }
}

// ---------------------------------------------------------------------------
// Ages
// ---------------------------------------------------------------------------

/// Age text for an elapsed time of `d` seconds: the largest whole unit of
/// days, hours or minutes that is positive, else the seconds (at least 0).
pub open spec fn age_text(d: int) -> Seq<char> {
    if d / 86400 > 0 {
        nat_dec((d / 86400) as nat) + "d"@
    } else if d / 3600 > 0 {
        nat_dec((d / 3600) as nat) + "h"@
    } else if d / 60 > 0 {
        nat_dec((d / 60) as nat) + "m"@
    } else {
        nat_dec(if d > 0 { d as nat } else { 0 }) + "s"@
    }
}

/// What an age column may hold for an object created at `created`: `-`
/// without a timestamp, else the age text and the seconds elapsed since
/// `created` at some reading of the clock (read once for each column when
/// the row is built).
pub open spec fn age_ok(age: Seq<char>, age_seconds: Option<i64>, created: Option<i64>) -> bool {
    match created {
        None => age == "-"@ && age_seconds is None,
        Some(c) => {
            &&& exists|now: int| age == age_text(#[trigger] since(now, c as int))
            &&& exists|now: int| age_seconds == Some(#[trigger] since(now, c as int) as i64)
        },
    }
}

/// Seconds from `created` to `now`, kept within `i64`.
pub open spec fn since(now: int, created: int) -> int {
    let d = now - created;
    if d > i64::MAX { i64::MAX as int } else if d < i64::MIN { i64::MIN as int } else { d }
}

/// Seconds elapsed since `created`, by the clock (whole seconds from the
/// Unix epoch, negative where the clock reads before it).
pub fn seconds_since(created: i64) -> (r: i64)
    ensures
        exists|now: int| r == #[trigger] since(now, created as int),
{
    let now: i128 = match crate::chat::system_clock() {
        Ok(n) => n as i128,
        Err(b) => -(b as i128),
    };
    let d: i128 = now - created as i128;
    let r = if d > i64::MAX as i128 {
        i64::MAX
    } else if d < i64::MIN as i128 {
        i64::MIN
    } else {
        d as i64
    };
    assert(r == since(now as int, created as int));
    r
}

/// Age text for an elapsed time in seconds.
pub fn age_label(d: i64) -> (r: String)
    ensures
        r@ == age_text(d as int),
{
    let mut v: Vec<char> = Vec::new();
    if d / 86400 > 0 {
        push_all(&mut v, u64_dec((d / 86400) as u64).as_slice());
        push_str(&mut v, "d");
    } else if d / 3600 > 0 {
        push_all(&mut v, u64_dec((d / 3600) as u64).as_slice());
        push_str(&mut v, "h");
    } else if d / 60 > 0 {
        push_all(&mut v, u64_dec((d / 60) as u64).as_slice());
        push_str(&mut v, "m");
    } else {
        let s: u64 = if d > 0 { d as u64 } else { 0 };
        push_all(&mut v, u64_dec(s).as_slice());
        push_str(&mut v, "s");
    }
    string_of(v.as_slice())
}

/// Formats a creation timestamp as a human-readable age (`2d`, `5h`,
/// `3m`, `10s`), or `-` without one.
pub fn format_age(created: Option<i64>) -> (r: String)
    ensures
        created is None ==> r@ == "-"@,
        created matches Some(c) ==> exists|now: int|
            r@ == age_text(#[trigger] since(now, c as int)),
{
    match created {
        None => String::from_str("-"),
        Some(c) => {
            let d = seconds_since(c);
            age_label(d)
        },
    }
}

/// Seconds since creation, for sorting by age.
pub fn age_seconds(created: Option<i64>) -> (r: Option<i64>)
    ensures
        created is None ==> r is None,
        created matches Some(c) ==> exists|now: int|
            r == Some(#[trigger] since(now, c as int) as i64),
{
    match created {
        None => None,
        Some(c) => Some(seconds_since(c)),
    }
}

/// A row with its clock-dependent columns filled from `created`.
fn timed_item(meta: &Meta, namespace: Option<String>, status: String, ready: Option<String>, restarts: Option<u32>) -> (r: ResourceItem)
    ensures
        r.name@ == name_or_empty(*meta),
        opt_view(r.namespace) == opt_view(namespace),
        r.status@ == status@,
        opt_view(r.ready) == opt_view(ready),
        r.restarts == restarts,
        age_ok(r.age@, r.age_seconds, meta.created),
{
    ResourceItem {
        name: name_text(meta),
        namespace,
        status,
        age: format_age(meta.created),
        age_seconds: age_seconds(meta.created),
        ready,
        restarts,
    }
}

/// `name.clone().unwrap_or_default()`.
pub fn name_text(meta: &Meta) -> (r: String)
    ensures
        r@ == name_or_empty(*meta),
{
    match &meta.name {
        Some(n) => n.clone(),
        None => String::new(),
    }
}

/// A copy of an optional string.
pub fn opt_clone(o: &Option<String>) -> (r: Option<String>)
    ensures
        opt_view(r) == opt_view(*o),
{
    match o {
        Some(s) => Some(s.clone()),
        None => None,
    }
}

/// `o.clone().unwrap_or_else(|| d.to_string())`.
pub fn or_text_exec(o: &Option<String>, d: &str) -> (r: String)
    ensures
        r@ == or_text(*o, d@),
{
    match o {
        Some(s) => s.clone(),
        None => String::from_str(d),
    }
}

/// `format!("{}/{}", a, b)` for integers.
pub open spec fn ratio_text(a: int, b: int) -> Seq<char> {
    int_dec(a) + "/"@ + int_dec(b)
}

/// Renders `a/b`.
pub fn ratio_label(a: i64, b: i64) -> (r: String)
    ensures
        r@ == ratio_text(a as int, b as int),
{
    let mut v = i64_dec(a);
    push_str(&mut v, "/");
    push_all(&mut v, i64_dec(b).as_slice());
    string_of(v.as_slice())
}

/// Renders `a/b` for counts.
pub fn count_ratio_label(a: usize, b: usize) -> (r: String)
    ensures
        r@ == ratio_text(a as int, b as int),
{
    let mut v = u64_dec(a as u64);
    push_str(&mut v, "/");
    push_all(&mut v, u64_dec(b as u64).as_slice());
    string_of(v.as_slice())
}

/// `format!("{} {}{}", n, word, if n == 1 { "" } else { plural })`.
pub open spec fn count_text(n: nat, word: Seq<char>, plural: Seq<char>) -> Seq<char> {
    nat_dec(n) + " "@ + word + if n == 1 { Seq::empty() } else { plural }
}

/// Renders a count with a word that takes a plural ending.
pub fn count_label(n: u64, word: &str, plural: &str) -> (r: String)
    ensures
        r@ == count_text(n as nat, word@, plural@),
{
    let mut v = u64_dec(n);
    push_str(&mut v, " ");
    push_str(&mut v, word);
    if n != 1 {
        push_str(&mut v, plural);
    }
    string_of(v.as_slice())
}

// ---------------------------------------------------------------------------
// Pods
// ---------------------------------------------------------------------------

/// A container's status as the pod row reads it.
pub struct ContainerStatusInfo {
    pub ready: bool,
    pub restart_count: i32,
    /// `state.waiting.reason`, where all three are present.
    pub waiting_reason: Option<String>,
    /// `state.terminated.reason`, where all three are present.
    pub terminated_reason: Option<String>,
}

/// A pod's status.
pub struct PodStatusInfo {
    pub phase: Option<String>,
    pub container_statuses: Option<Vec<ContainerStatusInfo>>,
}

/// Where a container refers to secrets by name.
pub struct ContainerSecretRefs {
    /// Names of the secrets in `envFrom[].secretRef`.
    pub env_from_secrets: Vec<String>,
    /// Names of the secrets in `env[].valueFrom.secretKeyRef`.
    pub env_secret_keys: Vec<String>,
}

/// The parts of a pod spec that refer to secrets.
pub struct PodSpecInfo {
    /// `imagePullSecrets[].name`.
    pub image_pull_secrets: Vec<String>,
    /// `volumes[].secret.secretName`, where present.
    pub volume_secrets: Vec<String>,
    pub containers: Vec<ContainerSecretRefs>,
    pub init_containers: Vec<ContainerSecretRefs>,
}

/// A pod.
pub struct PodInfo {
    pub meta: Meta,
    pub spec: Option<PodSpecInfo>,
    pub status: Option<PodStatusInfo>,
}

/// `restart_count as u32`.
pub open spec fn wrap_u32(x: i32) -> nat {
    if x >= 0 { x as nat } else { (x + 4294967296) as nat }
}

/// Sum of the restart counts, each taken as `u32`.
pub open spec fn restart_sum(cs: Seq<ContainerStatusInfo>) -> nat
    decreases cs.len(),
{
    if cs.len() == 0 { 0 } else { restart_sum(cs.drop_last()) + wrap_u32(cs.last().restart_count) }
}

/// Number of ready containers.
pub open spec fn ready_count(cs: Seq<ContainerStatusInfo>) -> nat
    decreases cs.len(),
{
    if cs.len() == 0 { 0 } else { ready_count(cs.drop_last()) + if cs.last().ready { 1nat } else { 0nat } }
}

/// The first waiting reason among the containers.
pub open spec fn first_waiting(cs: Seq<ContainerStatusInfo>) -> Option<String>
    decreases cs.len(),
{
    if cs.len() == 0 {
        None
    } else if cs[0].waiting_reason is Some {
        cs[0].waiting_reason
    } else {
        first_waiting(cs.drop_first())
    }
}

/// The first termination reason among the containers.
pub open spec fn first_terminated(cs: Seq<ContainerStatusInfo>) -> Option<String>
    decreases cs.len(),
{
    if cs.len() == 0 {
        None
    } else if cs[0].terminated_reason is Some {
        cs[0].terminated_reason
    } else {
        first_terminated(cs.drop_first())
    }
}

/// The status column of a pod row.
pub open spec fn pod_status_text(p: PodInfo) -> Seq<char> {
    match p.status {
        None => "Unknown"@,
        Some(s) => match s.container_statuses {
            None => or_text(s.phase, "Unknown"@),
            Some(cs) => {
                let cs = cs@;
                match first_waiting(cs) {
                    Some(w) => w@,
                    None => match first_terminated(cs) {
                        Some(t) => t@,
                        None => if exists|i: int| 0 <= i < cs.len() && !cs[i].ready {
                            "NotReady"@
                        } else {
                            or_text(s.phase, "Unknown"@)
                        },
                    },
                }
            },
        },
    }
}

/// A pod can be summarised: its restart counts add up within `u32`.
pub open spec fn pod_ok(p: PodInfo) -> bool {
    p.status matches Some(s) && s.container_statuses matches Some(cs) ==> restart_sum(cs@) <= u32::MAX
}

/// The clock-independent columns of a pod row.
pub open spec fn pod_view(p: PodInfo) -> ItemView {
    ItemView {
        name: name_or_empty(p.meta),
        namespace: opt_view(p.meta.namespace),
        status: pod_status_text(p),
        ready: match p.status {
            Some(s) => match s.container_statuses {
                Some(cs) => Some(ratio_text(ready_count(cs@) as int, cs@.len() as int)),
                None => None,
            },
            None => None,
        },
        restarts: match p.status {
            Some(s) => match s.container_statuses {
                Some(cs) => Some(restart_sum(cs@) as u32),
                None => None,
            },
            None => None,
        },
    }
}

/// Ready count, restart sum and first reasons of a pod's containers.
fn container_summary(cs: &Vec<ContainerStatusInfo>) -> (r: (usize, u32, Option<String>, Option<String>, bool))
    requires
        restart_sum(cs@) <= u32::MAX,
    ensures
        r.0 == ready_count(cs@),
        r.1 == restart_sum(cs@),
        opt_view(r.2) == opt_view(first_waiting(cs@)),
        opt_view(r.3) == opt_view(first_terminated(cs@)),
        r.4 == exists|i: int| 0 <= i < cs@.len() && !cs@[i].ready,
{
    let mut ready: usize = 0;
    let mut restarts: u32 = 0;
    let mut waiting: Option<String> = None;
    let mut terminated: Option<String> = None;
    let mut any_not_ready = false;
    let mut i: usize = 0;
    proof {
        assert(cs@.take(0) =~= Seq::<ContainerStatusInfo>::empty());
        assert(cs@.skip(0) =~= cs@);
    }
    while i < cs.len()
        invariant
            i <= cs@.len(),
            restart_sum(cs@) <= u32::MAX,
            ready == ready_count(cs@.take(i as int)),
            ready <= i,
            restarts == restart_sum(cs@.take(i as int)),
            waiting is None ==> first_waiting(cs@) == first_waiting(cs@.skip(i as int)),
            waiting is Some ==> opt_view(waiting) == opt_view(first_waiting(cs@)),
            terminated is None ==> first_terminated(cs@) == first_terminated(cs@.skip(i as int)),
            terminated is Some ==> opt_view(terminated) == opt_view(first_terminated(cs@)),
            any_not_ready == exists|j: int| 0 <= j < i && !cs@[j].ready,
        decreases cs@.len() - i,
    {
        let c = &cs[i];
        proof {
            let t = cs@.take(i + 1);
            assert(t.drop_last() =~= cs@.take(i as int));
            assert(cs@.skip(i as int).drop_first() =~= cs@.skip(i + 1));
            lemma_restart_sum_prefix(cs@, i + 1);
        }
        if c.ready {
            ready += 1;
        } else {
            any_not_ready = true;
        }
        let rc: u32 = if c.restart_count >= 0 { c.restart_count as u32 } else { (c.restart_count as i64 + 4294967296) as u32 };
        restarts = restarts + rc;
        if waiting.is_none() {
            waiting = opt_clone(&c.waiting_reason);
        }
        if terminated.is_none() {
            terminated = opt_clone(&c.terminated_reason);
        }
        i += 1;
    }
    assert(cs@.take(i as int) =~= cs@);
    (ready, restarts, waiting, terminated, any_not_ready)
}

proof fn lemma_restart_sum_prefix(cs: Seq<ContainerStatusInfo>, k: int)
    requires
        0 <= k <= cs.len(),
    ensures
        restart_sum(cs.take(k)) <= restart_sum(cs),
    decreases cs.len(),
{
    if k < cs.len() {
        lemma_restart_sum_prefix(cs.drop_last(), k);
        assert(cs.drop_last().take(k) =~= cs.take(k));
    } else {
        assert(cs.take(k) =~= cs);
    }
}

/// The row of one pod.
pub fn pod_item(p: &PodInfo) -> (r: ResourceItem)
    requires
        pod_ok(*p),
    ensures
        fixed(r) == pod_view(*p),
        age_ok(r.age@, r.age_seconds, p.meta.created),
{
    let (status, ready, restarts) = match &p.status {
        None => (String::from_str("Unknown"), None, None),
        Some(s) => match &s.container_statuses {
            None => (or_text_exec(&s.phase, "Unknown"), None, None),
            Some(cs) => {
                let (rc, rs, w, t, nr) = container_summary(cs);
                let st = match w {
                    Some(w) => w,
                    None => match t {
                        Some(t) => t,
                        None => if nr { String::from_str("NotReady") } else { or_text_exec(&s.phase, "Unknown") },
                    },
                };
                (st, Some(count_ratio_label(rc, cs.len())), Some(rs))
            },
        },
    };
    timed_item(&p.meta, opt_clone(&p.meta.namespace), status, ready, restarts)
}

/// Rows for a list of pods.
pub fn pods_to_items(pods: &[PodInfo]) -> (r: Vec<ResourceItem>)
    requires
        forall|i: int| 0 <= i < pods@.len() ==> pod_ok(#[trigger] pods@[i]),
    ensures
        r@.len() == pods@.len(),
        forall|i: int| 0 <= i < pods@.len() ==> fixed(#[trigger] r@[i]) == pod_view(pods@[i])
            && age_ok(r@[i].age@, r@[i].age_seconds, pods@[i].meta.created),
{
    let mut r: Vec<ResourceItem> = Vec::new();
    let mut i: usize = 0;
    while i < pods.len()
        invariant
            i <= pods@.len(),
            r@.len() == i,
            forall|j: int| 0 <= j < pods@.len() ==> pod_ok(#[trigger] pods@[j]),
            forall|j: int| 0 <= j < i ==> fixed(#[trigger] r@[j]) == pod_view(pods@[j])
                && age_ok(r@[j].age@, r@[j].age_seconds, pods@[j].meta.created),
        decreases pods@.len() - i,
    {
        r.push(pod_item(&pods[i]));
        i += 1;
    }
    r
}

// ---------------------------------------------------------------------------
// Workloads
// ---------------------------------------------------------------------------

/// A status condition: its type and its status (`True`, `False`, `Unknown`).
pub struct Condition {
    pub type_: String,
    pub status: String,
}

/// Some condition has this type and status.
pub open spec fn has_condition(cs: Seq<Condition>, t: Seq<char>, st: Seq<char>) -> bool {
    exists|i: int| 0 <= i < cs.len() && cs[i].type_@ == t && cs[i].status@ == st
}

/// Whether some condition has type `t` and status `st`.
pub fn has_condition_exec(cs: &Vec<Condition>, t: &str, st: &str) -> (r: bool)
    ensures
        r == has_condition(cs@, t@, st@),
{
    let tc = crate::text::chars_of(t);
    let sc = crate::text::chars_of(st);
    let mut i: usize = 0;
    while i < cs.len()
        invariant
            i <= cs@.len(),
            tc@ == t@,
            sc@ == st@,
            forall|j: int| 0 <= j < i ==> !(cs@[j].type_@ == t@ && cs@[j].status@ == st@),
        decreases cs@.len() - i,
    {
        let a = crate::text::chars_of(cs[i].type_.as_str());
        let b = crate::text::chars_of(cs[i].status.as_str());
        if crate::text::chars_eq(a.as_slice(), tc.as_slice()) && crate::text::chars_eq(b.as_slice(), sc.as_slice()) {
            return true;
        }
        i += 1;
    }
    false
}

/// A deployment's status.
pub struct DeploymentStatusInfo {
    pub ready_replicas: Option<i32>,
    pub replicas: Option<i32>,
    pub conditions: Option<Vec<Condition>>,
}

/// A deployment.
pub struct DeploymentInfo {
    pub meta: Meta,
    pub status: Option<DeploymentStatusInfo>,
}

/// `o.unwrap_or(d)` on integers.
pub open spec fn or_int(o: Option<i32>, d: int) -> int {
    match o {
        Some(v) => v as int,
        None => d,
    }
}

/// Status from replica counts alone.
pub open spec fn replica_status(ready: int, desired: int) -> Seq<char> {
    if ready < desired {
        "Progressing"@
    } else if ready == desired && desired > 0 {
        "Available"@
    } else {
        "Unknown"@
    }
}

/// The status column of a deployment row.
pub open spec fn deployment_status_text(d: DeploymentInfo) -> Seq<char> {
    match d.status {
        None => "Unknown"@,
        Some(s) => {
            let ready = or_int(s.ready_replicas, 0);
            let desired = or_int(s.replicas, 0);
            match s.conditions {
                Some(cs) => if has_condition(cs@, "ReplicaFailure"@, "True"@) {
                    "Failed"@
                } else if has_condition(cs@, "Progressing"@, "False"@) {
                    "Stalled"@
                } else {
                    replica_status(ready, desired)
                },
                None => replica_status(ready, desired),
            }
        },
    }
}

/// The clock-independent columns of a deployment row.
pub open spec fn deployment_view(d: DeploymentInfo) -> ItemView {
    ItemView {
        name: name_or_empty(d.meta),
        namespace: opt_view(d.meta.namespace),
        status: deployment_status_text(d),
        ready: match d.status {
            Some(s) => Some(ratio_text(or_int(s.ready_replicas, 0), or_int(s.replicas, 0))),
            None => None,
        },
        restarts: None,
    }
}

fn or_zero(o: Option<i32>) -> (r: i32)
    ensures
        r == or_int(o, 0),
{
    match o {
        Some(v) => v,
        None => 0,
    }
}

fn replica_status_exec(ready: i32, desired: i32) -> (r: String)
    ensures
        r@ == replica_status(ready as int, desired as int),
{
    if ready < desired {
        String::from_str("Progressing")
    } else if ready == desired && desired > 0 {
        String::from_str("Available")
    } else {
        String::from_str("Unknown")
    }
}

/// The row of one deployment.
pub fn deployment_item(d: &DeploymentInfo) -> (r: ResourceItem)
    ensures
        fixed(r) == deployment_view(*d),
        age_ok(r.age@, r.age_seconds, d.meta.created),
{
    let (status, ready) = match &d.status {
        None => (String::from_str("Unknown"), None),
        Some(s) => {
            let ready = or_zero(s.ready_replicas);
            let desired = or_zero(s.replicas);
            let st = match &s.conditions {
                Some(cs) => if has_condition_exec(cs, "ReplicaFailure", "True") {
                    String::from_str("Failed")
                } else if has_condition_exec(cs, "Progressing", "False") {
                    String::from_str("Stalled")
                } else {
                    replica_status_exec(ready, desired)
                },
                None => replica_status_exec(ready, desired),
            };
            (st, Some(ratio_label(ready as i64, desired as i64)))
        },
    };
    timed_item(&d.meta, opt_clone(&d.meta.namespace), status, ready, None)
}

/// Rows for a list of deployments.
pub fn deployments_to_items(deployments: &[DeploymentInfo]) -> (r: Vec<ResourceItem>)
    ensures
        r@.len() == deployments@.len(),
        forall|i: int| 0 <= i < deployments@.len() ==> fixed(#[trigger] r@[i]) == deployment_view(deployments@[i])
            && age_ok(r@[i].age@, r@[i].age_seconds, deployments@[i].meta.created),
{
    let mut r: Vec<ResourceItem> = Vec::new();
    let mut i: usize = 0;
    while i < deployments.len()
        invariant
            i <= deployments@.len(),
            r@.len() == i,
            forall|j: int| 0 <= j < i ==> fixed(#[trigger] r@[j]) == deployment_view(deployments@[j])
                && age_ok(r@[j].age@, r@[j].age_seconds, deployments@[j].meta.created),
        decreases deployments@.len() - i,
    {
        r.push(deployment_item(&deployments[i]));
        i += 1;
    }
    r
}

/// A stateful set: its desired replicas (`spec.replicas`) and its status.
pub struct StatefulSetInfo {
    pub meta: Meta,
    pub replicas: Option<i32>,
    pub status: Option<ReplicaStatusInfo>,
}

/// The ready replicas a status reports.
pub struct ReplicaStatusInfo {
    pub ready_replicas: Option<i32>,
}

/// The clock-independent columns of a stateful set row: `Running` when the
/// ready count shown equals the desired count shown.
pub open spec fn statefulset_view(s: StatefulSetInfo) -> ItemView {
    let ready = match s.status {
        Some(st) => Some((or_int(st.ready_replicas, 0), or_int(s.replicas, 1))),
        None => None,
    };
    ItemView {
        name: name_or_empty(s.meta),
        namespace: opt_view(s.meta.namespace),
        status: match ready {
            Some((a, b)) => if a == b { "Running"@ } else { "Pending"@ },
            None => "Unknown"@,
        },
        ready: match ready {
            Some((a, b)) => Some(ratio_text(a, b)),
            None => None,
        },
        restarts: None,
    }
}

/// The row of one stateful set.
pub fn statefulset_item(s: &StatefulSetInfo) -> (r: ResourceItem)
    ensures
        fixed(r) == statefulset_view(*s),
        age_ok(r.age@, r.age_seconds, s.meta.created),
{
    let (status, ready) = match &s.status {
        None => (String::from_str("Unknown"), None),
        Some(st) => {
            let a = or_zero(st.ready_replicas);
            let b: i32 = match s.replicas {
                Some(v) => v,
                None => 1,
            };
            let status = if a == b { String::from_str("Running") } else { String::from_str("Pending") };
            (status, Some(ratio_label(a as i64, b as i64)))
        },
    };
    timed_item(&s.meta, opt_clone(&s.meta.namespace), status, ready, None)
}

/// Rows for a list of stateful sets.
pub fn statefulsets_to_items(statefulsets: &[StatefulSetInfo]) -> (r: Vec<ResourceItem>)
    ensures
        r@.len() == statefulsets@.len(),
        forall|i: int| 0 <= i < statefulsets@.len() ==> fixed(#[trigger] r@[i]) == statefulset_view(statefulsets@[i])
            && age_ok(r@[i].age@, r@[i].age_seconds, statefulsets@[i].meta.created),
{
    let mut r: Vec<ResourceItem> = Vec::new();
    let mut i: usize = 0;
    while i < statefulsets.len()
        invariant
            i <= statefulsets@.len(),
            r@.len() == i,
            forall|j: int| 0 <= j < i ==> fixed(#[trigger] r@[j]) == statefulset_view(statefulsets@[j])
                && age_ok(r@[j].age@, r@[j].age_seconds, statefulsets@[j].meta.created),
        decreases statefulsets@.len() - i,
    {
        r.push(statefulset_item(&statefulsets[i]));
        i += 1;
    }
    r
}

/// A daemon set's status.
pub struct DaemonSetStatusInfo {
    pub number_ready: i32,
    pub desired_number_scheduled: i32,
}

/// A daemon set.
pub struct DaemonSetInfo {
    pub meta: Meta,
    pub status: Option<DaemonSetStatusInfo>,
}

/// The clock-independent columns of a daemon set row.
pub open spec fn daemonset_view(d: DaemonSetInfo) -> ItemView {
    ItemView {
        name: name_or_empty(d.meta),
        namespace: opt_view(d.meta.namespace),
        status: match d.status {
            Some(s) => if s.number_ready == s.desired_number_scheduled {
                "Running"@
            } else if s.number_ready > 0 {
                "Degraded"@
            } else {
                "Pending"@
            },
            None => "Unknown"@,
        },
        ready: match d.status {
            Some(s) => Some(ratio_text(s.number_ready as int, s.desired_number_scheduled as int)),
            None => None,
        },
        restarts: None,
    }
}

/// The row of one daemon set.
pub fn daemonset_item(d: &DaemonSetInfo) -> (r: ResourceItem)
    ensures
        fixed(r) == daemonset_view(*d),
        age_ok(r.age@, r.age_seconds, d.meta.created),
{
    let (status, ready) = match &d.status {
        None => (String::from_str("Unknown"), None),
        Some(s) => {
            let st = if s.number_ready == s.desired_number_scheduled {
                String::from_str("Running")
            } else if s.number_ready > 0 {
                String::from_str("Degraded")
            } else {
                String::from_str("Pending")
            };
            (st, Some(ratio_label(s.number_ready as i64, s.desired_number_scheduled as i64)))
        },
    };
    timed_item(&d.meta, opt_clone(&d.meta.namespace), status, ready, None)
}

/// Rows for a list of daemon sets.
pub fn daemonsets_to_items(daemonsets: &[DaemonSetInfo]) -> (r: Vec<ResourceItem>)
    ensures
        r@.len() == daemonsets@.len(),
        forall|i: int| 0 <= i < daemonsets@.len() ==> fixed(#[trigger] r@[i]) == daemonset_view(daemonsets@[i])
            && age_ok(r@[i].age@, r@[i].age_seconds, daemonsets@[i].meta.created),
{
    let mut r: Vec<ResourceItem> = Vec::new();
    let mut i: usize = 0;
    while i < daemonsets.len()
        invariant
            i <= daemonsets@.len(),
            r@.len() == i,
            forall|j: int| 0 <= j < i ==> fixed(#[trigger] r@[j]) == daemonset_view(daemonsets@[j])
                && age_ok(r@[j].age@, r@[j].age_seconds, daemonsets@[j].meta.created),
        decreases daemonsets@.len() - i,
    {
        r.push(daemonset_item(&daemonsets[i]));
        i += 1;
    }
    r
}

/// A job's status counts.
pub struct JobStatusInfo {
    pub succeeded: Option<i32>,
    pub failed: Option<i32>,
    pub active: Option<i32>,
}

/// A job: its desired completions (`spec.completions`) and its status.
pub struct JobInfo {
    pub meta: Meta,
    pub completions: Option<i32>,
    pub status: Option<JobStatusInfo>,
}

/// The status column of a job row.
pub open spec fn job_status_text(j: JobInfo) -> Seq<char> {
    match j.status {
        None => "Unknown"@,
        Some(s) => if or_int(s.succeeded, 0) > 0 && s.succeeded == j.completions {
            "Complete"@
        } else if or_int(s.failed, 0) > 0 {
            "Failed"@
        } else if or_int(s.active, 0) > 0 {
            "Running"@
        } else {
            "Pending"@
        },
    }
}

/// The clock-independent columns of a job row.
pub open spec fn job_view(j: JobInfo) -> ItemView {
    ItemView {
        name: name_or_empty(j.meta),
        namespace: opt_view(j.meta.namespace),
        status: job_status_text(j),
        ready: match j.status {
            Some(s) => Some(ratio_text(or_int(s.succeeded, 0), or_int(j.completions, 1))),
            None => None,
        },
        restarts: None,
    }
}

/// The row of one job.
pub fn job_item(j: &JobInfo) -> (r: ResourceItem)
    ensures
        fixed(r) == job_view(*j),
        age_ok(r.age@, r.age_seconds, j.meta.created),
{
    let (status, ready) = match &j.status {
        None => (String::from_str("Unknown"), None),
        Some(s) => {
            let succeeded = or_zero(s.succeeded);
            let same = match (s.succeeded, j.completions) {
                (Some(a), Some(b)) => a == b,
                (None, None) => true,
                _ => false,
            };
            let st = if succeeded > 0 && same {
                String::from_str("Complete")
            } else if or_zero(s.failed) > 0 {
                String::from_str("Failed")
            } else if or_zero(s.active) > 0 {
                String::from_str("Running")
            } else {
                String::from_str("Pending")
            };
            let completions: i32 = match j.completions {
                Some(c) => c,
                None => 1,
            };
            (st, Some(ratio_label(succeeded as i64, completions as i64)))
        },
    };
    timed_item(&j.meta, opt_clone(&j.meta.namespace), status, ready, None)
}

/// Rows for a list of jobs.
pub fn jobs_to_items(jobs: &[JobInfo]) -> (r: Vec<ResourceItem>)
    ensures
        r@.len() == jobs@.len(),
        forall|i: int| 0 <= i < jobs@.len() ==> fixed(#[trigger] r@[i]) == job_view(jobs@[i])
            && age_ok(r@[i].age@, r@[i].age_seconds, jobs@[i].meta.created),
{
    let mut r: Vec<ResourceItem> = Vec::new();
    let mut i: usize = 0;
    while i < jobs.len()
        invariant
            i <= jobs@.len(),
            r@.len() == i,
            forall|j: int| 0 <= j < i ==> fixed(#[trigger] r@[j]) == job_view(jobs@[j])
                && age_ok(r@[j].age@, r@[j].age_seconds, jobs@[j].meta.created),
        decreases jobs@.len() - i,
    {
        r.push(job_item(&jobs[i]));
        i += 1;
    }
    r
}

/// A job row's status column: a job whose succeeded count is positive and
/// equals its desired completions is `Complete`, whatever its failed and
/// active counts; short of that, any failure makes it `Failed`, else any
/// active pod `Running`, else `Pending`; without a status it is `Unknown`.
pub proof fn lemma_job_status(j: JobInfo)
    ensures
        j.status is None ==> job_view(j).status == "Unknown"@,
        j.status matches Some(s) ==> {
            let done = s.succeeded matches Some(n) && n > 0 && j.completions == Some(n);
            let failed = s.failed matches Some(f) && f > 0;
            let active = s.active matches Some(a) && a > 0;
            &&& done ==> job_view(j).status == "Complete"@
            &&& !done && failed ==> job_view(j).status == "Failed"@
            &&& !done && !failed && active ==> job_view(j).status == "Running"@
            &&& !done && !failed && !active ==> job_view(j).status == "Pending"@
        },
{
}

/// The UTC time `secs` written as `%Y-%m-%d %H:%M` (chrono's `format`).
pub uninterp spec fn minute_text(secs: i64) -> Seq<char>;

/// Instants from the year 1 to the year 9999 (UTC), well inside the range
/// of years chrono represents (about 262 thousand either side of year 0).
pub open spec fn within_years(secs: i64) -> bool {
    -62135596800 <= secs <= 253402300799
}

/// `DateTime::from_timestamp(secs, 0)` formatted with `%Y-%m-%d %H:%M`;
/// `None` where chrono cannot represent the instant (beyond its range of
/// years). Every instant of the years 1 to 9999 is represented
/// (`from_timestamp` fails only where the day count leaves its date range).
#[verifier::external_body]
fn minute_label(secs: i64) -> (r: Option<String>)
    ensures
        r matches Some(t) ==> t@ == minute_text(secs),
        within_years(secs) ==> r is Some,
{
    match chrono::DateTime::from_timestamp(secs, 0) {
        Some(t) => Some(t.format("%Y-%m-%d %H:%M").to_string()),
        None => None,
    }
}

/// A cron job's spec.
pub struct CronJobSpecInfo {
    pub schedule: String,
    pub suspend: Option<bool>,
}

/// A cron job's status: when it last ran, and how many jobs are active.
pub struct CronJobStatusInfo {
    pub last_schedule_time: Option<i64>,
    pub active: Option<usize>,
}

/// A cron job.
pub struct CronJobInfo {
    pub meta: Meta,
    pub spec: Option<CronJobSpecInfo>,
    pub status: Option<CronJobStatusInfo>,
}

/// The status column of a cron job row.
pub open spec fn cronjob_status_text(c: CronJobInfo) -> Seq<char> {
    if c.spec matches Some(sp) && sp.suspend == Some(true) {
        "Suspended"@
    } else if c.status matches Some(st) && st.active matches Some(n) && n > 0 {
        "Active"@
    } else {
        "Ready"@
    }
}

/// A cron job row: the age column shows the schedule, the ready column
/// the last run (absent where there is none, or where chrono cannot
/// represent it; every instant of the years 1 to 9999 is shown).
pub open spec fn cronjob_row(r: ResourceItem, c: CronJobInfo) -> bool {
    &&& r.name@ == name_or_empty(c.meta)
    &&& opt_view(r.namespace) == opt_view(c.meta.namespace)
    &&& r.status@ == cronjob_status_text(c)
    &&& r.age@ == (match c.spec {
        Some(sp) => sp.schedule@,
        None => Seq::<char>::empty(),
    })
    &&& r.age_seconds is None
    &&& r.restarts is None
    &&& match c.status {
        Some(st) => match st.last_schedule_time {
            Some(secs) => (r.ready matches Some(t) ==> t@ == "Last: "@ + minute_text(secs))
                && (within_years(secs) ==> r.ready is Some),
            None => r.ready is None,
        },
        None => r.ready is None,
    }
}

/// The row of one cron job.
pub fn cronjob_item(c: &CronJobInfo) -> (r: ResourceItem)
    ensures
        cronjob_row(r, *c),
{
    let schedule = match &c.spec {
        Some(sp) => sp.schedule.clone(),
        None => String::new(),
    };
    let ready = match &c.status {
        Some(st) => match st.last_schedule_time {
            Some(secs) => match minute_label(secs) {
                Some(t) => {
                    let mut v = crate::text::chars_of("Last: ");
                    push_all(&mut v, crate::text::chars_of(t.as_str()).as_slice());
                    Some(string_of(v.as_slice()))
                },
                None => None,
            },
            None => None,
        },
        None => None,
    };
    let suspended = match &c.spec {
        Some(sp) => match sp.suspend {
            Some(b) => b,
            None => false,
        },
        None => false,
    };
    let active = match &c.status {
        Some(st) => match st.active {
            Some(n) => n > 0,
            None => false,
        },
        None => false,
    };
    let status = if suspended {
        String::from_str("Suspended")
    } else if active {
        String::from_str("Active")
    } else {
        String::from_str("Ready")
    };
    ResourceItem {
        name: name_text(&c.meta),
        namespace: opt_clone(&c.meta.namespace),
        status,
        age: schedule,
        age_seconds: None,
        ready,
        restarts: None,
    }
}

/// Rows for a list of cron jobs.
pub fn cronjobs_to_items(cronjobs: &[CronJobInfo]) -> (r: Vec<ResourceItem>)
    ensures
        r@.len() == cronjobs@.len(),
        forall|i: int| 0 <= i < cronjobs@.len() ==> cronjob_row(#[trigger] r@[i], cronjobs@[i]),
{
    let mut r: Vec<ResourceItem> = Vec::new();
    let mut i: usize = 0;
    while i < cronjobs.len()
        invariant
            i <= cronjobs@.len(),
            r@.len() == i,
            forall|j: int| 0 <= j < i ==> cronjob_row(#[trigger] r@[j], cronjobs@[j]),
        decreases cronjobs@.len() - i,
    {
        r.push(cronjob_item(&cronjobs[i]));
        i += 1;
    }
    r
}

// ---------------------------------------------------------------------------
// Configuration and secrets
// ---------------------------------------------------------------------------

/// A config map: how many keys its `data` and `binaryData` hold.
pub struct ConfigMapInfo {
    pub meta: Meta,
    pub data_keys: Option<usize>,
    pub binary_keys: Option<usize>,
}

/// `o.unwrap_or(0)` on counts.
pub open spec fn or_zero_n(o: Option<usize>) -> nat {
    match o {
        Some(n) => n as nat,
        None => 0,
    }
}

/// The key count of a config map fits in `usize`.
pub open spec fn configmap_ok(c: ConfigMapInfo) -> bool {
    or_zero_n(c.data_keys) + or_zero_n(c.binary_keys) <= usize::MAX
}

/// The clock-independent columns of a config map row.
pub open spec fn configmap_view(c: ConfigMapInfo) -> ItemView {
    ItemView {
        name: name_or_empty(c.meta),
        namespace: opt_view(c.meta.namespace),
        status: "Active"@,
        ready: Some(nat_dec(or_zero_n(c.data_keys) + or_zero_n(c.binary_keys)) + " keys"@),
        restarts: None,
    }
}

fn or_zero_usize(o: Option<usize>) -> (r: usize)
    ensures
        r == or_zero_n(o),
{
    match o {
        Some(n) => n,
        None => 0,
    }
}

/// The row of one config map.
pub fn configmap_item(c: &ConfigMapInfo) -> (r: ResourceItem)
    requires
        configmap_ok(*c),
    ensures
        fixed(r) == configmap_view(*c),
        age_ok(r.age@, r.age_seconds, c.meta.created),
{
    let total = or_zero_usize(c.data_keys) + or_zero_usize(c.binary_keys);
    let mut v = u64_dec(total as u64);
    push_str(&mut v, " keys");
    timed_item(&c.meta, opt_clone(&c.meta.namespace), String::from_str("Active"), Some(string_of(v.as_slice())), None)
}

/// Rows for a list of config maps.
pub fn configmaps_to_items(configmaps: &[ConfigMapInfo]) -> (r: Vec<ResourceItem>)
    requires
        forall|i: int| 0 <= i < configmaps@.len() ==> configmap_ok(#[trigger] configmaps@[i]),
    ensures
        r@.len() == configmaps@.len(),
        forall|i: int| 0 <= i < configmaps@.len() ==> fixed(#[trigger] r@[i]) == configmap_view(configmaps@[i])
            && age_ok(r@[i].age@, r@[i].age_seconds, configmaps@[i].meta.created),
{
    let mut r: Vec<ResourceItem> = Vec::new();
    let mut i: usize = 0;
    while i < configmaps.len()
        invariant
            i <= configmaps@.len(),
            r@.len() == i,
            forall|j: int| 0 <= j < configmaps@.len() ==> configmap_ok(#[trigger] configmaps@[j]),
            forall|j: int| 0 <= j < i ==> fixed(#[trigger] r@[j]) == configmap_view(configmaps@[j])
                && age_ok(r@[j].age@, r@[j].age_seconds, configmaps@[j].meta.created),
        decreases configmaps@.len() - i,
    {
        r.push(configmap_item(&configmaps[i]));
        i += 1;
    }
    r
}

/// A secret: how many keys its `data` holds.
pub struct SecretInfo {
    pub meta: Meta,
    pub data_keys: Option<usize>,
}

/// `name` is one of the names.
pub open spec fn names_contain(names: Seq<String>, name: Seq<char>) -> bool {
    exists|i: int| 0 <= i < names.len() && names[i]@ == name
}

/// A container refers to the secret `name`.
pub open spec fn container_uses(c: ContainerSecretRefs, name: Seq<char>) -> bool {
    names_contain(c.env_from_secrets@, name) || names_contain(c.env_secret_keys@, name)
}

/// Some container of the list refers to the secret `name`.
pub open spec fn containers_use(cs: Seq<ContainerSecretRefs>, name: Seq<char>) -> bool {
    exists|i: int| 0 <= i < cs.len() && container_uses(cs[i], name)
}

/// A running pod in the secret's namespace refers to it.
pub open spec fn pod_uses_secret(p: PodInfo, name: Seq<char>, namespace: Option<Seq<char>>) -> bool {
    &&& opt_view(p.meta.namespace) == namespace
    &&& p.status matches Some(st) && st.phase matches Some(ph) && ph@ == "Running"@
    &&& p.spec matches Some(sp) && (names_contain(sp.image_pull_secrets@, name)
        || names_contain(sp.volume_secrets@, name)
        || containers_use(sp.containers@, name)
        || containers_use(sp.init_containers@, name))
}

/// The clock-independent columns of a secret row.
pub open spec fn secret_view(s: SecretInfo, pods: Seq<PodInfo>) -> ItemView {
    let name = name_or_empty(s.meta);
    let n = or_zero_n(s.data_keys);
    ItemView {
        name: name,
        namespace: opt_view(s.meta.namespace),
        status: if exists|i: int| 0 <= i < pods.len() && pod_uses_secret(pods[i], name, opt_view(s.meta.namespace)) {
            "In Use"@
        } else {
            "Unused"@
        },
        ready: if n > 0 { Some(count_text(n, "key"@, "s"@)) } else { None },
        restarts: None,
    }
}

fn names_contain_exec(names: &Vec<String>, name: &String) -> (r: bool)
    ensures
        r == names_contain(names@, name@),
{
    let mut i: usize = 0;
    while i < names.len()
        invariant
            i <= names@.len(),
            forall|j: int| 0 <= j < i ==> names@[j]@ != name@,
        decreases names@.len() - i,
    {
        if names[i] == *name {
            return true;
        }
        i += 1;
    }
    false
}

fn containers_use_exec(cs: &Vec<ContainerSecretRefs>, name: &String) -> (r: bool)
    ensures
        r == containers_use(cs@, name@),
{
    let mut i: usize = 0;
    while i < cs.len()
        invariant
            i <= cs@.len(),
            forall|j: int| 0 <= j < i ==> !container_uses(cs@[j], name@),
        decreases cs@.len() - i,
    {
        if names_contain_exec(&cs[i].env_from_secrets, name) || names_contain_exec(&cs[i].env_secret_keys, name) {
            return true;
        }
        i += 1;
    }
    false
}

fn opt_eq(a: &Option<String>, b: &Option<String>) -> (r: bool)
    ensures
        r == (opt_view(*a) == opt_view(*b)),
{
    match (a, b) {
        (Some(x), Some(y)) => *x == *y,
        (None, None) => true,
        _ => false,
    }
}

fn pod_uses_secret_exec(p: &PodInfo, name: &String, namespace: &Option<String>) -> (r: bool)
    ensures
        r == pod_uses_secret(*p, name@, opt_view(*namespace)),
{
    if !opt_eq(&p.meta.namespace, namespace) {
        return false;
    }
    let running = match &p.status {
        Some(st) => match &st.phase {
            Some(ph) => crate::text::eq_str(crate::text::chars_of(ph.as_str()).as_slice(), "Running"),
            None => false,
        },
        None => false,
    };
    if !running {
        return false;
    }
    match &p.spec {
        None => false,
        Some(sp) => names_contain_exec(&sp.image_pull_secrets, name)
            || names_contain_exec(&sp.volume_secrets, name)
            || containers_use_exec(&sp.containers, name)
            || containers_use_exec(&sp.init_containers, name),
    }
}

/// The row of one secret, marked in use where a running pod of its
/// namespace refers to it.
pub fn secret_item(s: &SecretInfo, pods: &[PodInfo]) -> (r: ResourceItem)
    ensures
        fixed(r) == secret_view(*s, pods@),
        age_ok(r.age@, r.age_seconds, s.meta.created),
{
    let name = name_text(&s.meta);
    let mut in_use = false;
    let mut i: usize = 0;
    while i < pods.len()
        invariant
            i <= pods@.len(),
            name@ == name_or_empty(s.meta),
            in_use == exists|j: int| 0 <= j < i && pod_uses_secret(pods@[j], name@, opt_view(s.meta.namespace)),
        decreases pods@.len() - i,
    {
        if pod_uses_secret_exec(&pods[i], &name, &s.meta.namespace) {
            in_use = true;
        }
        i += 1;
    }
    let n = or_zero_usize(s.data_keys);
    let ready = if n > 0 { Some(count_label(n as u64, "key", "s")) } else { None };
    let status = if in_use { String::from_str("In Use") } else { String::from_str("Unused") };
    timed_item(&s.meta, opt_clone(&s.meta.namespace), status, ready, None)
}

/// Rows for a list of secrets, given the pods that may use them.
pub fn secrets_to_items(secrets: &[SecretInfo], pods: &[PodInfo]) -> (r: Vec<ResourceItem>)
    ensures
        r@.len() == secrets@.len(),
        forall|i: int| 0 <= i < secrets@.len() ==> fixed(#[trigger] r@[i]) == secret_view(secrets@[i], pods@)
            && age_ok(r@[i].age@, r@[i].age_seconds, secrets@[i].meta.created),
{
    let mut r: Vec<ResourceItem> = Vec::new();
    let mut i: usize = 0;
    while i < secrets.len()
        invariant
            i <= secrets@.len(),
            r@.len() == i,
            forall|j: int| 0 <= j < i ==> fixed(#[trigger] r@[j]) == secret_view(secrets@[j], pods@)
                && age_ok(r@[j].age@, r@[j].age_seconds, secrets@[j].meta.created),
        decreases secrets@.len() - i,
    {
        r.push(secret_item(&secrets[i], pods));
        i += 1;
    }
    r
}

// ---------------------------------------------------------------------------
// Networking
// ---------------------------------------------------------------------------

/// Endpoints: for each subset, how many addresses it lists (absent lists
/// as `None`).
pub struct EndpointsInfo {
    pub meta: Meta,
    pub subsets: Option<Vec<Option<usize>>>,
}

/// Sum of the address counts of the subsets.
pub open spec fn address_sum(subsets: Seq<Option<usize>>) -> nat
    decreases subsets.len(),
{
    if subsets.len() == 0 { 0 } else { address_sum(subsets.drop_last()) + or_zero_n(subsets.last()) }
}

/// All addresses of the endpoints.
pub open spec fn address_count(e: EndpointsInfo) -> nat {
    match e.subsets {
        Some(ss) => address_sum(ss@),
        None => 0,
    }
}

/// The address count of the endpoints fits in `usize`.
pub open spec fn endpoints_ok(e: EndpointsInfo) -> bool {
    address_count(e) <= usize::MAX
}

proof fn lemma_address_sum_prefix(ss: Seq<Option<usize>>, k: int)
    requires
        0 <= k <= ss.len(),
    ensures
        address_sum(ss.take(k)) <= address_sum(ss),
    decreases ss.len(),
{
    if k < ss.len() {
        lemma_address_sum_prefix(ss.drop_last(), k);
        assert(ss.drop_last().take(k) =~= ss.take(k));
    } else {
        assert(ss.take(k) =~= ss);
    }
}

/// The number of addresses of the endpoints.
pub fn address_count_exec(e: &EndpointsInfo) -> (r: usize)
    requires
        endpoints_ok(*e),
    ensures
        r == address_count(*e),
{
    match &e.subsets {
        None => 0,
        Some(ss) => {
            let mut total: usize = 0;
            let mut i: usize = 0;
            assert(ss@.take(0) =~= Seq::<Option<usize>>::empty());
            while i < ss.len()
                invariant
                    i <= ss@.len(),
                    address_sum(ss@) <= usize::MAX,
                    total == address_sum(ss@.take(i as int)),
                decreases ss@.len() - i,
            {
                proof {
                    assert(ss@.take(i + 1).drop_last() =~= ss@.take(i as int));
                    lemma_address_sum_prefix(ss@, i + 1);
                }
                total = total + or_zero_usize(ss[i]);
                i += 1;
            }
            assert(ss@.take(i as int) =~= ss@);
            total
        },
    }
}

/// The clock-independent columns of an endpoints row.
pub open spec fn endpoints_view(e: EndpointsInfo) -> ItemView {
    ItemView {
        name: name_or_empty(e.meta),
        namespace: opt_view(e.meta.namespace),
        status: if address_count(e) > 0 { "Ready"@ } else { "NotReady"@ },
        ready: Some(count_text(address_count(e), "address"@, "es"@)),
        restarts: None,
    }
}

/// The row of one endpoints object.
pub fn endpoints_item(e: &EndpointsInfo) -> (r: ResourceItem)
    requires
        endpoints_ok(*e),
    ensures
        fixed(r) == endpoints_view(*e),
        age_ok(r.age@, r.age_seconds, e.meta.created),
{
    let n = address_count_exec(e);
    let status = if n > 0 { String::from_str("Ready") } else { String::from_str("NotReady") };
    timed_item(&e.meta, opt_clone(&e.meta.namespace), status, Some(count_label(n as u64, "address", "es")), None)
}

/// Rows for a list of endpoints.
pub fn endpoints_to_items(endpoints: &[EndpointsInfo]) -> (r: Vec<ResourceItem>)
    requires
        forall|i: int| 0 <= i < endpoints@.len() ==> endpoints_ok(#[trigger] endpoints@[i]),
    ensures
        r@.len() == endpoints@.len(),
        forall|i: int| 0 <= i < endpoints@.len() ==> fixed(#[trigger] r@[i]) == endpoints_view(endpoints@[i])
            && age_ok(r@[i].age@, r@[i].age_seconds, endpoints@[i].meta.created),
{
    let mut r: Vec<ResourceItem> = Vec::new();
    let mut i: usize = 0;
    while i < endpoints.len()
        invariant
            i <= endpoints@.len(),
            r@.len() == i,
            forall|j: int| 0 <= j < endpoints@.len() ==> endpoints_ok(#[trigger] endpoints@[j]),
            forall|j: int| 0 <= j < i ==> fixed(#[trigger] r@[j]) == endpoints_view(endpoints@[j])
                && age_ok(r@[j].age@, r@[j].age_seconds, endpoints@[j].meta.created),
        decreases endpoints@.len() - i,
    {
        r.push(endpoints_item(&endpoints[i]));
        i += 1;
    }
    r
}

/// A service's spec.
pub struct ServiceSpecInfo {
    pub type_: Option<String>,
    /// Number of ports, where the spec lists them.
    pub ports: Option<usize>,
    /// Number of selector entries, where the spec has a selector.
    pub selector: Option<usize>,
}

/// A service.
pub struct ServiceInfo {
    pub meta: Meta,
    pub spec: Option<ServiceSpecInfo>,
}

/// The address count of the last endpoints with the given name and
/// namespace (a later entry replaces an earlier one), or 0.
pub open spec fn endpoint_count_for(eps: Seq<EndpointsInfo>, name: Seq<char>, ns: Option<Seq<char>>) -> nat
    decreases eps.len(),
{
    if eps.len() == 0 {
        0
    } else if name_or_empty(eps.last().meta) == name && opt_view(eps.last().meta.namespace) == ns {
        address_count(eps.last())
    } else {
        endpoint_count_for(eps.drop_last(), name, ns)
    }
}

/// The service type, `ClusterIP` by default.
pub open spec fn service_type(s: ServiceInfo) -> Seq<char> {
    match s.spec {
        Some(sp) => or_text(sp.type_, "ClusterIP"@),
        None => "ClusterIP"@,
    }
}

/// The clock-independent columns of a service row.
pub open spec fn service_view(s: ServiceInfo, eps: Seq<EndpointsInfo>) -> ItemView {
    let t = service_type(s);
    let ports = match s.spec {
        Some(sp) => or_zero_n(sp.ports),
        None => 0,
    };
    let has_selector = match s.spec {
        Some(sp) => sp.selector matches Some(n) && n > 0,
        None => false,
    };
    let eps_count = endpoint_count_for(eps, name_or_empty(s.meta), opt_view(s.meta.namespace));
    ItemView {
        name: name_or_empty(s.meta),
        namespace: opt_view(s.meta.namespace),
        status: if t == "ExternalName"@ || !has_selector || eps_count > 0 { "Active"@ } else { "Pending"@ },
        ready: Some(t + " ("@ + count_text(ports, "port"@, "s"@) + ")"@),
        restarts: None,
    }
}

/// The address count of the last endpoints named like the service.
fn endpoint_count_exec(eps: &[EndpointsInfo], name: &String, ns: &Option<String>) -> (r: usize)
    requires
        forall|i: int| 0 <= i < eps@.len() ==> endpoints_ok(#[trigger] eps@[i]),
    ensures
        r == endpoint_count_for(eps@, name@, opt_view(*ns)),
{
    let mut i = eps.len();
    assert(eps@.take(i as int) =~= eps@);
    while i > 0
        invariant
            i <= eps@.len(),
            forall|j: int| 0 <= j < eps@.len() ==> endpoints_ok(#[trigger] eps@[j]),
            endpoint_count_for(eps@, name@, opt_view(*ns)) == endpoint_count_for(eps@.take(i as int), name@, opt_view(*ns)),
        decreases i,
    {
        let e = &eps[i - 1];
        proof {
            assert(eps@.take(i as int).drop_last() =~= eps@.take(i - 1));
            assert(eps@.take(i as int).last() == eps@[i - 1]);
        }
        let en = name_text(&e.meta);
        if en == *name && opt_eq(&e.meta.namespace, ns) {
            return address_count_exec(e);
        }
        i -= 1;
    }
    0
}

/// The row of one service: active where no endpoints are expected or some
/// exist.
pub fn service_item(s: &ServiceInfo, eps: &[EndpointsInfo]) -> (r: ResourceItem)
    requires
        forall|i: int| 0 <= i < eps@.len() ==> endpoints_ok(#[trigger] eps@[i]),
    ensures
        fixed(r) == service_view(*s, eps@),
        age_ok(r.age@, r.age_seconds, s.meta.created),
{
    let t: String = match &s.spec {
        Some(sp) => or_text_exec(&sp.type_, "ClusterIP"),
        None => String::from_str("ClusterIP"),
    };
    let ports: usize = match &s.spec {
        Some(sp) => or_zero_usize(sp.ports),
        None => 0,
    };
    let has_selector = match &s.spec {
        Some(sp) => match sp.selector {
            Some(n) => n > 0,
            None => false,
        },
        None => false,
    };
    let name = name_text(&s.meta);
    let count = endpoint_count_exec(eps, &name, &s.meta.namespace);
    let tc = crate::text::chars_of(t.as_str());
    let external = crate::text::eq_str(tc.as_slice(), "ExternalName");
    let status = if external || !has_selector || count > 0 {
        String::from_str("Active")
    } else {
        String::from_str("Pending")
    };
    let mut v = tc;
    push_str(&mut v, " (");
    push_all(&mut v, crate::text::chars_of(count_label(ports as u64, "port", "s").as_str()).as_slice());
    push_str(&mut v, ")");
    timed_item(&s.meta, opt_clone(&s.meta.namespace), status, Some(string_of(v.as_slice())), None)
}

/// Rows for a list of services, given the endpoints of the cluster.
pub fn services_to_items(services: &[ServiceInfo], endpoints: &[EndpointsInfo]) -> (r: Vec<ResourceItem>)
    requires
        forall|i: int| 0 <= i < endpoints@.len() ==> endpoints_ok(#[trigger] endpoints@[i]),
    ensures
        r@.len() == services@.len(),
        forall|i: int| 0 <= i < services@.len() ==> fixed(#[trigger] r@[i]) == service_view(services@[i], endpoints@)
            && age_ok(r@[i].age@, r@[i].age_seconds, services@[i].meta.created),
{
    let mut r: Vec<ResourceItem> = Vec::new();
    let mut i: usize = 0;
    while i < services.len()
        invariant
            i <= services@.len(),
            r@.len() == i,
            forall|j: int| 0 <= j < endpoints@.len() ==> endpoints_ok(#[trigger] endpoints@[j]),
            forall|j: int| 0 <= j < i ==> fixed(#[trigger] r@[j]) == service_view(services@[j], endpoints@)
                && age_ok(r@[j].age@, r@[j].age_seconds, services@[j].meta.created),
        decreases services@.len() - i,
    {
        r.push(service_item(&services[i], endpoints));
        i += 1;
    }
    r
}

/// An ingress: its class, how many rules it has, and how many load
/// balancer entries its status lists.
pub struct IngressInfo {
    pub meta: Meta,
    pub class: Option<String>,
    pub rules: Option<usize>,
    pub load_balancer: Option<usize>,
}

/// The clock-independent columns of an ingress row.
pub open spec fn ingress_view(g: IngressInfo) -> ItemView {
    ItemView {
        name: name_or_empty(g.meta),
        namespace: opt_view(g.meta.namespace),
        status: or_text(g.class, "default"@),
        ready: match g.load_balancer {
            Some(n) if n > 0 => Some(count_text(n as nat, "endpoint"@, "s"@)),
            _ => Some(count_text(or_zero_n(g.rules), "rule"@, "s"@)),
        },
        restarts: None,
    }
}

/// The row of one ingress.
pub fn ingress_item(g: &IngressInfo) -> (r: ResourceItem)
    ensures
        fixed(r) == ingress_view(*g),
        age_ok(r.age@, r.age_seconds, g.meta.created),
{
    let ready = match g.load_balancer {
        Some(n) => if n > 0 {
            count_label(n as u64, "endpoint", "s")
        } else {
            count_label(or_zero_usize(g.rules) as u64, "rule", "s")
        },
        None => count_label(or_zero_usize(g.rules) as u64, "rule", "s"),
    };
    timed_item(&g.meta, opt_clone(&g.meta.namespace), or_text_exec(&g.class, "default"), Some(ready), None)
}

/// Rows for a list of ingresses.
pub fn ingresses_to_items(ingresses: &[IngressInfo]) -> (r: Vec<ResourceItem>)
    ensures
        r@.len() == ingresses@.len(),
        forall|i: int| 0 <= i < ingresses@.len() ==> fixed(#[trigger] r@[i]) == ingress_view(ingresses@[i])
            && age_ok(r@[i].age@, r@[i].age_seconds, ingresses@[i].meta.created),
{
    let mut r: Vec<ResourceItem> = Vec::new();
    let mut i: usize = 0;
    while i < ingresses.len()
        invariant
            i <= ingresses@.len(),
            r@.len() == i,
            forall|j: int| 0 <= j < i ==> fixed(#[trigger] r@[j]) == ingress_view(ingresses@[j])
                && age_ok(r@[j].age@, r@[j].age_seconds, ingresses@[j].meta.created),
        decreases ingresses@.len() - i,
    {
        r.push(ingress_item(&ingresses[i]));
        i += 1;
    }
    r
}

// ---------------------------------------------------------------------------
// Storage
// ---------------------------------------------------------------------------

/// A persistent volume (or claim): its phase, its `storage` capacity and
/// its storage class name.
pub struct VolumeInfo {
    pub meta: Meta,
    pub phase: Option<String>,
    pub capacity: Option<String>,
    pub storage_class: Option<String>,
}

/// The clock-independent columns of a persistent volume row.
pub open spec fn pv_view(v: VolumeInfo) -> ItemView {
    ItemView {
        name: name_or_empty(v.meta),
        namespace: None,
        status: or_text(v.phase, "Unknown"@),
        ready: Some(or_text(v.capacity, "Unknown"@) + " ("@ + or_text(v.storage_class, "None"@) + ")"@),
        restarts: None,
    }
}

/// The clock-independent columns of a persistent volume claim row.
pub open spec fn pvc_view(v: VolumeInfo) -> ItemView {
    ItemView {
        name: name_or_empty(v.meta),
        namespace: opt_view(v.meta.namespace),
        status: or_text(v.phase, "Unknown"@),
        ready: Some(or_text(v.capacity, "Pending"@) + " ("@ + or_text(v.storage_class, "default"@) + ")"@),
        restarts: None,
    }
}

/// `format!("{} ({})", a, b)`.
fn paren_label(a: String, b: String) -> (r: String)
    ensures
        r@ == a@ + " ("@ + b@ + ")"@,
{
    let mut v = crate::text::chars_of(a.as_str());
    push_str(&mut v, " (");
    push_all(&mut v, crate::text::chars_of(b.as_str()).as_slice());
    push_str(&mut v, ")");
    string_of(v.as_slice())
}

/// The row of one persistent volume.
pub fn pv_item(v: &VolumeInfo) -> (r: ResourceItem)
    ensures
        fixed(r) == pv_view(*v),
        age_ok(r.age@, r.age_seconds, v.meta.created),
{
    let ready = paren_label(or_text_exec(&v.capacity, "Unknown"), or_text_exec(&v.storage_class, "None"));
    timed_item(&v.meta, None, or_text_exec(&v.phase, "Unknown"), Some(ready), None)
}

/// The row of one persistent volume claim.
pub fn pvc_item(v: &VolumeInfo) -> (r: ResourceItem)
    ensures
        fixed(r) == pvc_view(*v),
        age_ok(r.age@, r.age_seconds, v.meta.created),
{
    let ready = paren_label(or_text_exec(&v.capacity, "Pending"), or_text_exec(&v.storage_class, "default"));
    timed_item(&v.meta, opt_clone(&v.meta.namespace), or_text_exec(&v.phase, "Unknown"), Some(ready), None)
}

/// Rows for a list of persistent volumes.
pub fn persistentvolumes_to_items(pvs: &[VolumeInfo]) -> (r: Vec<ResourceItem>)
    ensures
        r@.len() == pvs@.len(),
        forall|i: int| 0 <= i < pvs@.len() ==> fixed(#[trigger] r@[i]) == pv_view(pvs@[i])
            && age_ok(r@[i].age@, r@[i].age_seconds, pvs@[i].meta.created),
{
    let mut r: Vec<ResourceItem> = Vec::new();
    let mut i: usize = 0;
    while i < pvs.len()
        invariant
            i <= pvs@.len(),
            r@.len() == i,
            forall|j: int| 0 <= j < i ==> fixed(#[trigger] r@[j]) == pv_view(pvs@[j])
                && age_ok(r@[j].age@, r@[j].age_seconds, pvs@[j].meta.created),
        decreases pvs@.len() - i,
    {
        r.push(pv_item(&pvs[i]));
        i += 1;
    }
    r
}

/// Rows for a list of persistent volume claims.
pub fn persistentvolumeclaims_to_items(pvcs: &[VolumeInfo]) -> (r: Vec<ResourceItem>)
    ensures
        r@.len() == pvcs@.len(),
        forall|i: int| 0 <= i < pvcs@.len() ==> fixed(#[trigger] r@[i]) == pvc_view(pvcs@[i])
            && age_ok(r@[i].age@, r@[i].age_seconds, pvcs@[i].meta.created),
{
    let mut r: Vec<ResourceItem> = Vec::new();
    let mut i: usize = 0;
    while i < pvcs.len()
        invariant
            i <= pvcs@.len(),
            r@.len() == i,
            forall|j: int| 0 <= j < i ==> fixed(#[trigger] r@[j]) == pvc_view(pvcs@[j])
                && age_ok(r@[j].age@, r@[j].age_seconds, pvcs@[j].meta.created),
        decreases pvcs@.len() - i,
    {
        r.push(pvc_item(&pvcs[i]));
        i += 1;
    }
    r
}

/// A storage class.
pub struct StorageClassInfo {
    pub meta: Meta,
    /// The annotations, each key once.
    pub annotations: Option<Vec<(String, String)>>,
    pub provisioner: String,
    pub reclaim_policy: Option<String>,
    pub volume_binding_mode: Option<String>,
}

/// The value of an annotation (the first entry with that key).
pub open spec fn annotation(entries: Seq<(String, String)>, key: Seq<char>) -> Option<Seq<char>>
    decreases entries.len(),
{
    if entries.len() == 0 {
        None
    } else if entries[0].0@ == key {
        Some(entries[0].1@)
    } else {
        annotation(entries.drop_first(), key)
    }
}

/// The class is marked default by the GA annotation, or failing that by
/// the beta one.
pub open spec fn is_default_class(c: StorageClassInfo) -> bool {
    match c.annotations {
        Some(a) => {
            let v = match annotation(a@, "storageclass.kubernetes.io/is-default-class"@) {
                Some(v) => Some(v),
                None => annotation(a@, "storageclass.beta.kubernetes.io/is-default-class"@),
            };
            v == Some("true"@)
        },
        None => false,
    }
}

/// The clock-independent columns of a storage class row.
pub open spec fn storageclass_view(c: StorageClassInfo) -> ItemView {
    ItemView {
        name: name_or_empty(c.meta),
        namespace: None,
        status: if is_default_class(c) { c.provisioner@ + " (default)"@ } else { c.provisioner@ },
        ready: Some(or_text(c.reclaim_policy, "Delete"@) + " / "@ + or_text(c.volume_binding_mode, "Immediate"@)),
        restarts: None,
    }
}

fn annotation_exec(entries: &Vec<(String, String)>, key: &str) -> (r: Option<String>)
    ensures
        opt_view(r) == annotation(entries@, key@),
{
    let kc = crate::text::chars_of(key);
    let mut i: usize = 0;
    assert(entries@.skip(0) =~= entries@);
    while i < entries.len()
        invariant
            i <= entries@.len(),
            kc@ == key@,
            annotation(entries@, key@) == annotation(entries@.skip(i as int), key@),
        decreases entries@.len() - i,
    {
        assert(entries@.skip(i as int).drop_first() =~= entries@.skip(i + 1));
        assert(entries@.skip(i as int)[0] == entries@[i as int]);
        let k = crate::text::chars_of(entries[i].0.as_str());
        if crate::text::chars_eq(k.as_slice(), kc.as_slice()) {
            return Some(entries[i].1.clone());
        }
        i += 1;
    }
    None
}

/// The row of one storage class.
pub fn storageclass_item(c: &StorageClassInfo) -> (r: ResourceItem)
    ensures
        fixed(r) == storageclass_view(*c),
        age_ok(r.age@, r.age_seconds, c.meta.created),
{
    let is_default = match &c.annotations {
        Some(a) => {
            let v = match annotation_exec(a, "storageclass.kubernetes.io/is-default-class") {
                Some(v) => Some(v),
                None => annotation_exec(a, "storageclass.beta.kubernetes.io/is-default-class"),
            };
            match v {
                Some(t) => crate::text::eq_str(crate::text::chars_of(t.as_str()).as_slice(), "true"),
                None => false,
            }
        },
        None => false,
    };
    let mut st = crate::text::chars_of(c.provisioner.as_str());
    if is_default {
        push_str(&mut st, " (default)");
    }
    let mut rd = crate::text::chars_of(or_text_exec(&c.reclaim_policy, "Delete").as_str());
    push_str(&mut rd, " / ");
    push_all(&mut rd, crate::text::chars_of(or_text_exec(&c.volume_binding_mode, "Immediate").as_str()).as_slice());
    timed_item(&c.meta, None, string_of(st.as_slice()), Some(string_of(rd.as_slice())), None)
}

/// Rows for a list of storage classes.
pub fn storageclasses_to_items(classes: &[StorageClassInfo]) -> (r: Vec<ResourceItem>)
    ensures
        r@.len() == classes@.len(),
        forall|i: int| 0 <= i < classes@.len() ==> fixed(#[trigger] r@[i]) == storageclass_view(classes@[i])
            && age_ok(r@[i].age@, r@[i].age_seconds, classes@[i].meta.created),
{
    let mut r: Vec<ResourceItem> = Vec::new();
    let mut i: usize = 0;
    while i < classes.len()
        invariant
            i <= classes@.len(),
            r@.len() == i,
            forall|j: int| 0 <= j < i ==> fixed(#[trigger] r@[j]) == storageclass_view(classes@[j])
                && age_ok(r@[j].age@, r@[j].age_seconds, classes@[j].meta.created),
        decreases classes@.len() - i,
    {
        r.push(storageclass_item(&classes[i]));
        i += 1;
    }
    r
}

// ---------------------------------------------------------------------------
// Events, nodes and access control
// ---------------------------------------------------------------------------

/// An event.
pub struct EventInfo {
    pub namespace: Option<String>,
    pub type_: Option<String>,
    pub reason: Option<String>,
    pub message: Option<String>,
    /// Kind and name of the involved object.
    pub object_kind: Option<String>,
    pub object_name: Option<String>,
    pub count: Option<i32>,
}

/// An event row: the object as `kind/name`, the type as status, the
/// reason in the age column, the message in the ready column and the
/// count as restarts.
pub open spec fn event_row(r: ResourceItem, e: EventInfo) -> bool {
    &&& r.name@ == or_text(e.object_kind, "Unknown"@) + "/"@ + or_text(e.object_name, "unknown"@)
    &&& opt_view(r.namespace) == opt_view(e.namespace)
    &&& r.status@ == or_text(e.type_, "Normal"@)
    &&& r.age@ == or_text(e.reason, Seq::empty())
    &&& r.age_seconds is None
    &&& opt_view(r.ready) == Some(or_text(e.message, Seq::empty()))
    &&& r.restarts == (match e.count {
        Some(c) => Some(wrap_u32(c) as u32),
        None => None,
    })
}

/// The row of one event.
pub fn event_item(e: &EventInfo) -> (r: ResourceItem)
    ensures
        event_row(r, *e),
{
    let mut name = crate::text::chars_of(or_text_exec(&e.object_kind, "Unknown").as_str());
    push_str(&mut name, "/");
    push_all(&mut name, crate::text::chars_of(or_text_exec(&e.object_name, "unknown").as_str()).as_slice());
    let restarts = match e.count {
        Some(c) => Some(if c >= 0 { c as u32 } else { (c as i64 + 4294967296) as u32 }),
        None => None,
    };
    ResourceItem {
        name: string_of(name.as_slice()),
        namespace: opt_clone(&e.namespace),
        status: or_text_exec(&e.type_, "Normal"),
        age: match &e.reason {
            Some(t) => t.clone(),
            None => String::new(),
        },
        age_seconds: None,
        ready: Some(match &e.message {
            Some(t) => t.clone(),
            None => String::new(),
        }),
        restarts,
    }
}

/// Rows for a list of events.
pub fn events_to_items(events: &[EventInfo]) -> (r: Vec<ResourceItem>)
    ensures
        r@.len() == events@.len(),
        forall|i: int| 0 <= i < events@.len() ==> event_row(#[trigger] r@[i], events@[i]),
{
    let mut r: Vec<ResourceItem> = Vec::new();
    let mut i: usize = 0;
    while i < events.len()
        invariant
            i <= events@.len(),
            r@.len() == i,
            forall|j: int| 0 <= j < i ==> event_row(#[trigger] r@[j], events@[j]),
        decreases events@.len() - i,
    {
        r.push(event_item(&events[i]));
        i += 1;
    }
    r
}

/// A node as its table row reads it: its status conditions.
pub struct NodeRowInfo {
    pub meta: Meta,
    pub conditions: Option<Vec<Condition>>,
}

/// The clock-independent columns of a node row.
pub open spec fn node_view(n: NodeRowInfo) -> ItemView {
    ItemView {
        name: name_or_empty(n.meta),
        namespace: None,
        status: if n.conditions matches Some(cs) && has_condition(cs@, "Ready"@, "True"@) { "Ready"@ } else { "NotReady"@ },
        ready: None,
        restarts: None,
    }
}

/// The row of one node.
pub fn node_item(n: &NodeRowInfo) -> (r: ResourceItem)
    ensures
        fixed(r) == node_view(*n),
        age_ok(r.age@, r.age_seconds, n.meta.created),
{
    let ready = match &n.conditions {
        Some(cs) => has_condition_exec(cs, "Ready", "True"),
        None => false,
    };
    let status = if ready { String::from_str("Ready") } else { String::from_str("NotReady") };
    timed_item(&n.meta, None, status, None, None)
}

/// A role or cluster role: how many rules it has.
pub struct RoleInfo {
    pub meta: Meta,
    pub rules: Option<usize>,
}

/// The clock-independent columns of a role row.
pub open spec fn role_view(r: RoleInfo) -> ItemView {
    ItemView {
        name: name_or_empty(r.meta),
        namespace: opt_view(r.meta.namespace),
        status: nat_dec(or_zero_n(r.rules)) + " rules"@,
        ready: None,
        restarts: None,
    }
}

/// The clock-independent columns of a cluster role row.
pub open spec fn clusterrole_view(r: RoleInfo) -> ItemView {
    ItemView { namespace: None, ..role_view(r) }
}

fn rules_label(r: &RoleInfo) -> (s: String)
    ensures
        s@ == nat_dec(or_zero_n(r.rules)) + " rules"@,
{
    let mut v = u64_dec(or_zero_usize(r.rules) as u64);
    push_str(&mut v, " rules");
    string_of(v.as_slice())
}

/// The row of one role.
pub fn role_item(r: &RoleInfo) -> (out: ResourceItem)
    ensures
        fixed(out) == role_view(*r),
        age_ok(out.age@, out.age_seconds, r.meta.created),
{
    timed_item(&r.meta, opt_clone(&r.meta.namespace), rules_label(r), None, None)
}

/// The row of one cluster role.
pub fn clusterrole_item(r: &RoleInfo) -> (out: ResourceItem)
    ensures
        fixed(out) == clusterrole_view(*r),
        age_ok(out.age@, out.age_seconds, r.meta.created),
{
    timed_item(&r.meta, None, rules_label(r), None, None)
}

/// A role binding or cluster role binding: the kind and name of the role
/// it refers to.
pub struct BindingInfo {
    pub meta: Meta,
    pub role_kind: String,
    pub role_name: String,
}

/// The clock-independent columns of a role binding row.
pub open spec fn rolebinding_view(b: BindingInfo) -> ItemView {
    ItemView {
        name: name_or_empty(b.meta),
        namespace: opt_view(b.meta.namespace),
        status: b.role_kind@ + "/"@ + b.role_name@,
        ready: None,
        restarts: None,
    }
}

/// The clock-independent columns of a cluster role binding row.
pub open spec fn clusterrolebinding_view(b: BindingInfo) -> ItemView {
    ItemView { namespace: None, ..rolebinding_view(b) }
}

fn role_ref_label(b: &BindingInfo) -> (s: String)
    ensures
        s@ == b.role_kind@ + "/"@ + b.role_name@,
{
    let mut v = crate::text::chars_of(b.role_kind.as_str());
    push_str(&mut v, "/");
    push_all(&mut v, crate::text::chars_of(b.role_name.as_str()).as_slice());
    string_of(v.as_slice())
}

/// The row of one role binding.
pub fn rolebinding_item(b: &BindingInfo) -> (r: ResourceItem)
    ensures
        fixed(r) == rolebinding_view(*b),
        age_ok(r.age@, r.age_seconds, b.meta.created),
{
    timed_item(&b.meta, opt_clone(&b.meta.namespace), role_ref_label(b), None, None)
}

/// The row of one cluster role binding.
pub fn clusterrolebinding_item(b: &BindingInfo) -> (r: ResourceItem)
    ensures
        fixed(r) == clusterrolebinding_view(*b),
        age_ok(r.age@, r.age_seconds, b.meta.created),
{
    timed_item(&b.meta, None, role_ref_label(b), None, None)
}

/// Rows for a list of nodes.
pub fn nodes_to_items(nodes: &[NodeRowInfo]) -> (r: Vec<ResourceItem>)
    ensures
        r@.len() == nodes@.len(),
        forall|i: int| 0 <= i < nodes@.len() ==> fixed(#[trigger] r@[i]) == node_view(nodes@[i])
            && age_ok(r@[i].age@, r@[i].age_seconds, nodes@[i].meta.created),
{
    let mut r: Vec<ResourceItem> = Vec::new();
    let mut i: usize = 0;
    while i < nodes.len()
        invariant
            i <= nodes@.len(),
            r@.len() == i,
            forall|j: int| 0 <= j < i ==> fixed(#[trigger] r@[j]) == node_view(nodes@[j])
                && age_ok(r@[j].age@, r@[j].age_seconds, nodes@[j].meta.created),
        decreases nodes@.len() - i,
    {
        r.push(node_item(&nodes[i]));
        i += 1;
    }
    r
}

/// Rows for a list of roles.
pub fn roles_to_items(roles: &[RoleInfo]) -> (r: Vec<ResourceItem>)
    ensures
        r@.len() == roles@.len(),
        forall|i: int| 0 <= i < roles@.len() ==> fixed(#[trigger] r@[i]) == role_view(roles@[i])
            && age_ok(r@[i].age@, r@[i].age_seconds, roles@[i].meta.created),
{
    let mut r: Vec<ResourceItem> = Vec::new();
    let mut i: usize = 0;
    while i < roles.len()
        invariant
            i <= roles@.len(),
            r@.len() == i,
            forall|j: int| 0 <= j < i ==> fixed(#[trigger] r@[j]) == role_view(roles@[j])
                && age_ok(r@[j].age@, r@[j].age_seconds, roles@[j].meta.created),
        decreases roles@.len() - i,
    {
        r.push(role_item(&roles[i]));
        i += 1;
    }
    r
}

/// Rows for a list of cluster roles.
pub fn clusterroles_to_items(clusterroles: &[RoleInfo]) -> (r: Vec<ResourceItem>)
    ensures
        r@.len() == clusterroles@.len(),
        forall|i: int| 0 <= i < clusterroles@.len() ==> fixed(#[trigger] r@[i]) == clusterrole_view(clusterroles@[i])
            && age_ok(r@[i].age@, r@[i].age_seconds, clusterroles@[i].meta.created),
{
    let mut r: Vec<ResourceItem> = Vec::new();
    let mut i: usize = 0;
    while i < clusterroles.len()
        invariant
            i <= clusterroles@.len(),
            r@.len() == i,
            forall|j: int| 0 <= j < i ==> fixed(#[trigger] r@[j]) == clusterrole_view(clusterroles@[j])
                && age_ok(r@[j].age@, r@[j].age_seconds, clusterroles@[j].meta.created),
        decreases clusterroles@.len() - i,
    {
        r.push(clusterrole_item(&clusterroles[i]));
        i += 1;
    }
    r
}

/// Rows for a list of role bindings.
pub fn rolebindings_to_items(rolebindings: &[BindingInfo]) -> (r: Vec<ResourceItem>)
    ensures
        r@.len() == rolebindings@.len(),
        forall|i: int| 0 <= i < rolebindings@.len() ==> fixed(#[trigger] r@[i]) == rolebinding_view(rolebindings@[i])
            && age_ok(r@[i].age@, r@[i].age_seconds, rolebindings@[i].meta.created),
{
    let mut r: Vec<ResourceItem> = Vec::new();
    let mut i: usize = 0;
    while i < rolebindings.len()
        invariant
            i <= rolebindings@.len(),
            r@.len() == i,
            forall|j: int| 0 <= j < i ==> fixed(#[trigger] r@[j]) == rolebinding_view(rolebindings@[j])
                && age_ok(r@[j].age@, r@[j].age_seconds, rolebindings@[j].meta.created),
        decreases rolebindings@.len() - i,
    {
        r.push(rolebinding_item(&rolebindings[i]));
        i += 1;
    }
    r
}

/// Rows for a list of cluster role bindings.
pub fn clusterrolebindings_to_items(crbs: &[BindingInfo]) -> (r: Vec<ResourceItem>)
    ensures
        r@.len() == crbs@.len(),
        forall|i: int| 0 <= i < crbs@.len() ==> fixed(#[trigger] r@[i]) == clusterrolebinding_view(crbs@[i])
            && age_ok(r@[i].age@, r@[i].age_seconds, crbs@[i].meta.created),
{
    let mut r: Vec<ResourceItem> = Vec::new();
    let mut i: usize = 0;
    while i < crbs.len()
        invariant
            i <= crbs@.len(),
            r@.len() == i,
            forall|j: int| 0 <= j < i ==> fixed(#[trigger] r@[j]) == clusterrolebinding_view(crbs@[j])
                && age_ok(r@[j].age@, r@[j].age_seconds, crbs@[j].meta.created),
        decreases crbs@.len() - i,
    {
        r.push(clusterrolebinding_item(&crbs[i]));
        i += 1;
    }
    r
}

} // verus!
