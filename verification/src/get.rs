//! `skate get`: listing the objects of the cluster, filtered by name and namespace.
use vstd::prelude::*;
use crate::cli::ConfigFileArgs;
use crate::errors::SkateError;
use crate::naming::{NamespacedName, NamespacedNameView};
use crate::resource::ResourceType;
use crate::state::{
    labelled_pods, ClusterState, NodeStateView, ObjectListItem, ObjectListItemView, PodmanContainerInfo,
    PodmanContainerInfoView, PodmanPodInfo, PodmanPodInfoView, PodmanPodStatus, node_pods, node_resources,
};
use crate::text::{decimal, owned, push_char, push_decimal, text_eq};

verus! {

/// What `skate get` is given.
#[derive(Debug)]
pub struct GetArgs {
    pub commands: GetCommands,
}

/// How a listing is printed.
#[derive(Debug, Clone, Copy, PartialEq, Eq, Structural)]
pub enum OutputFormat {
    Json,
    Yaml,
    Name,
}

/// The output format that a name denotes: `json`, `yaml` or `name`, in lower case.
pub open spec fn output_format_spec(s: Seq<char>) -> Option<OutputFormat> {
    if s == "json"@ {
        Some(OutputFormat::Json)
    } else if s == "yaml"@ {
        Some(OutputFormat::Yaml)
    } else if s == "name"@ {
        Some(OutputFormat::Name)
    } else {
        None
    }
}

impl OutputFormat {
    /// Parses an output format (see `output_format_spec`); other names are refused.
    pub fn from_str(s: &str) -> (res: Result<OutputFormat, SkateError>)
        ensures
            match output_format_spec(s@) {
                Some(f) => res == Ok::<OutputFormat, SkateError>(f),
                None => res matches Err(e) && e.message() == "Matching variant not found"@,
            },
    {
        if text_eq(s, "json") {
            Ok(OutputFormat::Json)
        } else if text_eq(s, "yaml") {
            Ok(OutputFormat::Yaml)
        } else if text_eq(s, "name") {
            Ok(OutputFormat::Name)
        } else {
            Err(SkateError::msg("Matching variant not found"))
        }
    }
}

/// Which objects to list and how.
#[derive(Debug)]
pub struct GetObjectArgs {
    pub config: ConfigFileArgs,
    /// Only objects of this namespace.
    pub namespace: Option<String>,
    /// Only the object of this name (or id).
    pub id: Option<String>,
    pub output: Option<OutputFormat>,
}

/// The kinds of objects `skate get` lists.
#[derive(Debug)]
pub enum GetCommands {
    Pod(GetObjectArgs),
    Deployment(GetObjectArgs),
    Daemonset(GetObjectArgs),
    Node(GetObjectArgs),
    Ingress(GetObjectArgs),
    Cronjob(GetObjectArgs),
    Secret(GetObjectArgs),
    Service(GetObjectArgs),
}

/// Whether an object (its id, name and namespace) passes the filters of a listing: the
/// namespace, where one is given, must be the object's; the name, where one is given, must be
/// its id or its name; and with no filter at all, objects of skate's own namespace `skate` are
/// left out.
pub open spec fn matches_ns_name_spec(id: Seq<char>, name: Seq<char>, namespace: Seq<char>, filter_name: Seq<char>, filter_ns: Seq<char>) -> bool {
    &&& !(filter_ns.len() > 0 && namespace != filter_ns)
    &&& !(filter_name.len() > 0 && id != filter_name && name != filter_name)
    &&& !(filter_ns.len() == 0 && filter_name.len() == 0 && namespace == "skate"@)
}

/// Whether an object passes the filters of a listing (see `matches_ns_name_spec`).
pub fn matches_ns_name(id: &str, name: &str, namespace: &str, filter_name: &str, filter_ns: &str) -> (res: bool)
    ensures
        res == matches_ns_name_spec(id@, name@, namespace@, filter_name@, filter_ns@),
{
    let ns_empty = filter_ns.unicode_len() == 0;
    let name_empty = filter_name.unicode_len() == 0;
    if !ns_empty && !text_eq(namespace, filter_ns) {
        return false;
    }
    if !name_empty && !text_eq(id, filter_name) && !text_eq(name, filter_name) {
        return false;
    }
    if ns_empty && name_empty && text_eq(namespace, "skate") {
        return false;
    }
    true
}

/// The value of a label, empty where the label is missing.
pub open spec fn label_or_empty(labels: Map<Seq<char>, Seq<char>>, key: Seq<char>) -> Seq<char> {
    if labels.contains_key(key) { labels[key] } else { Seq::empty() }
}

/// Whether a pod passes the filters of a listing; a pod's name and namespace are its skate
/// labels, and its id is podman's.
pub open spec fn pod_matches(p: PodmanPodInfoView, filter_name: Seq<char>, filter_ns: Seq<char>) -> bool {
    matches_ns_name_spec(p.id, label_or_empty(p.labels, "skate.io/name"@), label_or_empty(p.labels, "skate.io/namespace"@), filter_name, filter_ns)
}

/// The pods of a list that pass the filters, in order.
pub open spec fn matching_pods(pods: Seq<PodmanPodInfoView>, filter_name: Seq<char>, filter_ns: Seq<char>) -> Seq<PodmanPodInfoView>
    decreases pods.len(),
{
    if pods.len() == 0 {
        Seq::empty()
    } else {
        let rest = matching_pods(pods.drop_last(), filter_name, filter_ns);
        if pod_matches(pods.last(), filter_name, filter_ns) { rest.push(pods.last()) } else { rest }
    }
}

/// The pods of the cluster that pass the filters, node by node in the cluster's order.
pub open spec fn listed_pods(nodes: Seq<NodeStateView>, filter_name: Seq<char>, filter_ns: Seq<char>) -> Seq<PodmanPodInfoView>
    decreases nodes.len(),
{
    if nodes.len() == 0 {
        Seq::empty()
    } else {
        listed_pods(nodes.drop_last(), filter_name, filter_ns) + matching_pods(node_pods(nodes.last()), filter_name, filter_ns)
    }
}

fn label_text(p: &PodmanPodInfo, key: &str) -> (res: String)
    ensures
        res@ == label_or_empty(p.labels@, key@),
{
    match p.labels.get(key) {
        Some(v) => v,
        None => String::new(),
    }
}

/// The pods of the cluster that pass a listing's filters (see `listed_pods`); missing filters
/// are empty.
pub fn list_pods(state: &ClusterState, args: &GetObjectArgs) -> (res: Vec<PodmanPodInfo>)
    ensures
        res.deep_view() == listed_pods(
            state.deep_view().nodes,
            match args.id { Some(i) => i@, None => Seq::empty() },
            match args.namespace { Some(n) => n@, None => Seq::empty() },
        ),
{
    let name = match &args.id { Some(i) => i.clone(), None => String::new() };
    let ns = match &args.namespace { Some(n) => n.clone(), None => String::new() };
    let ghost nodes = state.nodes.deep_view();
    let mut out: Vec<PodmanPodInfo> = Vec::new();
    let mut i: usize = 0;
    while i < state.nodes.len()
        invariant
            i <= state.nodes@.len(),
            nodes == state.nodes.deep_view(),
            out.deep_view() == listed_pods(nodes.take(i as int), name@, ns@),
        decreases state.nodes.len() - i,
    {
        let node = &state.nodes[i];
        proof {
            assert(nodes.take(i + 1).drop_last() =~= nodes.take(i as int));
            assert(nodes.take(i + 1).last() == node.deep_view());
        }
        let empty: Vec<PodmanPodInfo> = Vec::new();
        let pods: &Vec<PodmanPodInfo> = match &node.host_info {
            Some(h) => match &h.system_info {
                Some(si) => match &si.pods {
                    Some(p) => p,
                    None => &empty,
                },
                None => &empty,
            },
            None => &empty,
        };
        let ghost ps = pods.deep_view();
        assert(ps =~= node_pods(node.deep_view()));
        let ghost base = out.deep_view();
        let mut j: usize = 0;
        while j < pods.len()
            invariant
                j <= pods@.len(),
                ps == pods.deep_view(),
                out.deep_view() == base + matching_pods(ps.take(j as int), name@, ns@),
            decreases pods.len() - j,
        {
            let p = &pods[j];
            proof {
                assert(ps.take(j + 1).drop_last() =~= ps.take(j as int));
                assert(ps.take(j + 1).last() == p.deep_view());
            }
            let pn = label_text(p, "skate.io/name");
            let pns = label_text(p, "skate.io/namespace");
            if matches_ns_name(p.id.as_str(), pn.as_str(), pns.as_str(), name.as_str(), ns.as_str()) {
                let ghost before = out.deep_view();
                out.push(p.clone());
                proof {
                    assert(out.deep_view() =~= before.push(p.deep_view()));
                    assert(out.deep_view() =~= base + matching_pods(ps.take(j + 1), name@, ns@));
                }
            } else {
                assert(out.deep_view() =~= base + matching_pods(ps.take(j + 1), name@, ns@));
            }
            j = j + 1;
        }
        assert(ps.take(ps.len() as int) =~= ps);
        i = i + 1;
    }
    assert(nodes.take(nodes.len() as int) =~= nodes);
    out
}

/// A row of the pod listing.
#[derive(Debug)]
pub struct PodListItem {
    pub namespace: String,
    pub name: String,
    /// Running containers over all containers (`2/3`).
    pub ready: String,
    pub status: String,
    /// The restarts of all containers together.
    pub restarts: String,
    pub age: String,
}

/// The name of a pod state as it is shown.
pub open spec fn pod_status_text(s: PodmanPodStatus) -> Seq<char> {
    match s {
        PodmanPodStatus::Created => "Created"@,
        PodmanPodStatus::Running => "Running"@,
        PodmanPodStatus::Stopped => "Stopped"@,
        PodmanPodStatus::Exited => "Exited"@,
        PodmanPodStatus::Dead => "Dead"@,
        PodmanPodStatus::Degraded => "Degraded"@,
        PodmanPodStatus::Error => "Error"@,
        PodmanPodStatus::Unknown => "Unknown"@,
    }
}

/// How many containers of a list are running.
pub open spec fn running_count(cs: Seq<PodmanContainerInfoView>) -> nat
    decreases cs.len(),
{
    if cs.len() == 0 {
        0
    } else {
        running_count(cs.drop_last()) + if cs.last().status == "running"@ { 1nat } else { 0nat }
    }
}

/// The restarts of all containers of a list together (a container that reports none counts 0).
pub open spec fn restart_total(cs: Seq<PodmanContainerInfoView>) -> nat
    decreases cs.len(),
{
    if cs.len() == 0 {
        0
    } else {
        restart_total(cs.drop_last()) + match cs.last().restart_count { Some(r) => r as nat, None => 0nat }
    }
}

proof fn lemma_running_count_le(cs: Seq<PodmanContainerInfoView>)
    ensures
        running_count(cs) <= cs.len(),
    decreases cs.len(),
{
    if cs.len() > 0 {
        lemma_running_count_le(cs.drop_last());
    }
}

proof fn lemma_restart_total_mono(cs: Seq<PodmanContainerInfoView>, k: int)
    requires
        0 <= k <= cs.len(),
    ensures
        restart_total(cs.take(k)) <= restart_total(cs),
    decreases cs.len() - k,
{
    if k < cs.len() {
        lemma_restart_total_mono(cs, k + 1);
        assert(cs.take(k + 1).drop_last() =~= cs.take(k));
    } else {
        assert(cs.take(k) =~= cs);
    }
}

/// The containers of a pod (none where it reports none).
pub open spec fn pod_containers(p: PodmanPodInfoView) -> Seq<PodmanContainerInfoView> {
    match p.containers { Some(c) => c, None => Seq::empty() }
}

impl PodListItem {
    /// The row for a pod: its skate name and namespace, running containers over containers,
    /// its state, its containers' restarts together, and its age as given.
    pub fn from(pod: &PodmanPodInfo, age: String) -> (res: PodListItem)
        requires
            restart_total(pod_containers(pod.deep_view())) <= u64::MAX,
        ensures
            res.namespace@ == label_or_empty(pod.labels@, "skate.io/namespace"@),
            res.name@ == label_or_empty(pod.labels@, "skate.io/name"@),
            res.ready@ == decimal(running_count(pod_containers(pod.deep_view())))
                + "/"@ + decimal(pod_containers(pod.deep_view()).len()),
            res.status@ == pod_status_text(pod.status),
            res.restarts@ == decimal(restart_total(pod_containers(pod.deep_view()))),
            res.age == age,
    {
        let empty: Vec<PodmanContainerInfo> = Vec::new();
        let cs: &Vec<PodmanContainerInfo> = match &pod.containers {
            Some(c) => c,
            None => &empty,
        };
        let ghost v = cs.deep_view();
        assert(v =~= pod_containers(pod.deep_view()));
        let mut running: u64 = 0;
        let mut restarts: u64 = 0;
        let mut i: usize = 0;
        while i < cs.len()
            invariant
                i <= cs@.len(),
                v == cs.deep_view(),
                restart_total(v) <= u64::MAX,
                running == running_count(v.take(i as int)),
                restarts == restart_total(v.take(i as int)),
            decreases cs.len() - i,
        {
            let c = &cs[i];
            proof {
                assert(v.take(i + 1).drop_last() =~= v.take(i as int));
                assert(v.take(i + 1).last() == c.deep_view());
                lemma_running_count_le(v.take(i as int));
                lemma_restart_total_mono(v, i + 1);
            }
            if text_eq(c.status.as_str(), "running") {
                running = running + 1;
            }
            let r: u64 = match c.restart_count { Some(r) => r, None => 0 };
            restarts = restarts + r;
            i = i + 1;
        }
        assert(v.take(v.len() as int) =~= v);
        let mut ready = String::new();
        push_decimal(&mut ready, running);
        push_char(&mut ready, '/');
        push_decimal(&mut ready, cs.len() as u64);
        proof {
            reveal_strlit("/");
            assert(ready@ =~= decimal(running as nat) + "/"@ + decimal(cs@.len()));
        }
        let status = match pod.status {
            PodmanPodStatus::Created => owned("Created"),
            PodmanPodStatus::Running => owned("Running"),
            PodmanPodStatus::Stopped => owned("Stopped"),
            PodmanPodStatus::Exited => owned("Exited"),
            PodmanPodStatus::Dead => owned("Dead"),
            PodmanPodStatus::Degraded => owned("Degraded"),
            PodmanPodStatus::Error => owned("Error"),
            PodmanPodStatus::Unknown => owned("Unknown"),
        };
        let mut rs = String::new();
        push_decimal(&mut rs, restarts);
        assert(rs@ =~= decimal(restarts as nat));
        PodListItem {
            namespace: label_text(pod, "skate.io/namespace"),
            name: label_text(pod, "skate.io/name"),
            ready,
            status,
            restarts: rs,
            age,
        }
    }
}

/// Whether a pod belongs to the owner named `name` in namespace `ns`: its owner label `key`
/// holds the name, and its namespace label (`default` where it has none) is the namespace.
pub open spec fn owned_by(p: PodmanPodInfoView, key: Seq<char>, name: Seq<char>, ns: Seq<char>) -> bool {
    &&& p.labels.contains_key(key) && p.labels[key] == name
    &&& (if p.labels.contains_key("skate.io/namespace"@) { p.labels["skate.io/namespace"@] } else { "default"@ }) == ns
}

/// The pods of a list that belong to the owner, in order.
pub open spec fn owned_in(pods: Seq<PodmanPodInfoView>, key: Seq<char>, name: Seq<char>, ns: Seq<char>) -> Seq<PodmanPodInfoView>
    decreases pods.len(),
{
    if pods.len() == 0 {
        Seq::empty()
    } else {
        let rest = owned_in(pods.drop_last(), key, name, ns);
        if owned_by(pods.last(), key, name, ns) { rest.push(pods.last()) } else { rest }
    }
}

/// The pods of the cluster that belong to the owner, node by node in the cluster's order.
pub open spec fn owned_pods(nodes: Seq<NodeStateView>, key: Seq<char>, name: Seq<char>, ns: Seq<char>) -> Seq<PodmanPodInfoView>
    decreases nodes.len(),
{
    if nodes.len() == 0 {
        Seq::empty()
    } else {
        owned_pods(nodes.drop_last(), key, name, ns) + owned_in(node_pods(nodes.last()), key, name, ns)
    }
}

/// How many of a list of pods run.
pub open spec fn running_in(ps: Seq<PodmanPodInfoView>) -> nat
    decreases ps.len(),
{
    if ps.len() == 0 {
        0
    } else {
        running_in(ps.drop_last()) + if ps.last().status == PodmanPodStatus::Running { 1nat } else { 0nat }
    }
}

/// The earliest creation time of a list of pods, and `now` where none was created before it.
pub open spec fn earliest_created(ps: Seq<PodmanPodInfoView>, now: i64) -> i64
    decreases ps.len(),
{
    if ps.len() == 0 {
        now
    } else {
        let e = earliest_created(ps.drop_last(), now);
        if ps.last().created < e { ps.last().created } else { e }
    }
}

/// What the listings show about the pods of one deployment or daemonset.
#[derive(Debug)]
pub struct OwnerPods {
    /// How many pods it has.
    pub total: usize,
    /// How many of them run.
    pub running: usize,
    /// When the oldest was created (the time given where it has none).
    pub earliest_created: i64,
}

proof fn lemma_running_in_le(ps: Seq<PodmanPodInfoView>)
    ensures
        running_in(ps) <= ps.len(),
    decreases ps.len(),
{
    if ps.len() > 0 {
        lemma_running_in_le(ps.drop_last());
    }
}

/// The pods that a deployment or daemonset owns (see `owned_by`) across the cluster, counted:
/// all of them, the running ones, and the oldest creation time (`now` where there is none
/// older).
pub fn owner_pods(state: &ClusterState, key: &str, name: &str, ns: &str, now: i64) -> (res: OwnerPods)
    ensures
        res.total == owned_pods(state.deep_view().nodes, key@, name@, ns@).len(),
        res.running == running_in(owned_pods(state.deep_view().nodes, key@, name@, ns@)),
        res.earliest_created == earliest_created(owned_pods(state.deep_view().nodes, key@, name@, ns@), now),
{
    let ghost nodes = state.nodes.deep_view();
    let mut mine: Vec<PodmanPodInfo> = Vec::new();
    let mut running: usize = 0;
    let mut earliest: i64 = now;
    let ghost mut seen: Seq<PodmanPodInfoView> = Seq::empty();
    let mut i: usize = 0;
    while i < state.nodes.len()
        invariant
            i <= state.nodes@.len(),
            nodes == state.nodes.deep_view(),
            seen == owned_pods(nodes.take(i as int), key@, name@, ns@),
            mine.deep_view() == seen,
            running == running_in(seen),
            earliest == earliest_created(seen, now),
        decreases state.nodes.len() - i,
    {
        let node = &state.nodes[i];
        proof {
            assert(nodes.take(i + 1).drop_last() =~= nodes.take(i as int));
            assert(nodes.take(i + 1).last() == node.deep_view());
        }
        let empty: Vec<PodmanPodInfo> = Vec::new();
        let pods: &Vec<PodmanPodInfo> = match &node.host_info {
            Some(h) => match &h.system_info {
                Some(si) => match &si.pods {
                    Some(p) => p,
                    None => &empty,
                },
                None => &empty,
            },
            None => &empty,
        };
        let ghost ps = pods.deep_view();
        assert(ps =~= node_pods(node.deep_view()));
        let ghost base = seen;
        let mut j: usize = 0;
        while j < pods.len()
            invariant
                j <= pods@.len(),
                ps == pods.deep_view(),
                seen == base + owned_in(ps.take(j as int), key@, name@, ns@),
                mine.deep_view() == seen,
                running == running_in(seen),
                earliest == earliest_created(seen, now),
            decreases pods.len() - j,
        {
            let p = &pods[j];
            proof {
                assert(ps.take(j + 1).drop_last() =~= ps.take(j as int));
                assert(ps.take(j + 1).last() == p.deep_view());
            }
            let pn = label_text(p, key);
            let pns = match p.labels.get("skate.io/namespace") {
                Some(v) => v,
                None => owned("default"),
            };
            if p.labels.contains_key(key) && text_eq(pn.as_str(), name) && text_eq(pns.as_str(), ns) {
                proof {
                    lemma_running_in_le(seen);
                }
                let ghost old_seen = seen;
                mine.push(p.clone());
                let count = mine.len();
                proof {
                    seen = seen.push(p.deep_view());
                    assert(seen.drop_last() =~= old_seen);
                    assert(mine.deep_view() =~= seen);
                    assert(seen =~= base + owned_in(ps.take(j + 1), key@, name@, ns@));
                    assert(running < count);
                }
                if p.status == PodmanPodStatus::Running {
                    running = running + 1;
                }
                if p.created < earliest {
                    earliest = p.created;
                }
            } else {
                assert(seen =~= base + owned_in(ps.take(j + 1), key@, name@, ns@));
            }
            j = j + 1;
        }
        assert(ps.take(ps.len() as int) =~= ps);
        i = i + 1;
    }
    assert(nodes.take(nodes.len() as int) =~= nodes);
    OwnerPods { total: mine.len(), running, earliest_created: earliest }
}

/// The ready column of a deployment: running pods over all its pods (`1/2`).
pub fn ready_text(o: &OwnerPods) -> (res: String)
    ensures
        res@ == decimal(o.running as nat) + "/"@ + decimal(o.total as nat),
{
    let mut s = String::new();
    push_decimal(&mut s, o.running as u64);
    push_char(&mut s, '/');
    push_decimal(&mut s, o.total as u64);
    proof {
        reveal_strlit("/");
        assert(s@ =~= decimal(o.running as nat) + "/"@ + decimal(o.total as nat));
    }
    s
}

/// Every resource that the nodes report holding, node by node in the cluster's order.
pub open spec fn all_resources(nodes: Seq<NodeStateView>) -> Seq<ObjectListItemView>
    decreases nodes.len(),
{
    if nodes.len() == 0 {
        Seq::empty()
    } else {
        all_resources(nodes.drop_last()) + node_resources(nodes.last())
    }
}

/// Whether a list of resources holds one of this name.
pub open spec fn names_contain(items: Seq<ObjectListItemView>, n: NamespacedNameView) -> bool {
    exists|j: int| 0 <= j < items.len() && #[trigger] items[j].name == n
}

/// Whether a stored resource is of kind `t` and passes a listing's filters (its name stands
/// for its id).
pub open spec fn catalogue_keeps(o: ObjectListItemView, t: ResourceType, filter_name: Seq<char>, filter_ns: Seq<char>) -> bool {
    o.resource_type == t && matches_ns_name_spec(o.name.name, o.name.name, o.name.namespace, filter_name, filter_ns)
}

/// The resources of a list that are of kind `t` and pass a listing's filters, each name once
/// (where it first occurs), in the order in which they occur.
pub open spec fn catalogue_of(items: Seq<ObjectListItemView>, t: ResourceType, filter_name: Seq<char>, filter_ns: Seq<char>) -> Seq<ObjectListItemView>
    decreases items.len(),
{
    if items.len() == 0 {
        Seq::empty()
    } else {
        let prev = catalogue_of(items.drop_last(), t, filter_name, filter_ns);
        let o = items.last();
        if catalogue_keeps(o, t, filter_name, filter_ns) && !names_contain(prev, o.name) {
            prev.push(o)
        } else {
            prev
        }
    }
}

fn has_name(items: &Vec<ObjectListItem>, n: &NamespacedName) -> (res: bool)
    ensures
        res == names_contain(items.deep_view(), n.deep_view()),
{
    let ghost s = items.deep_view();
    let mut i: usize = 0;
    while i < items.len()
        invariant
            i <= items@.len(),
            s == items.deep_view(),
            forall|k: int| 0 <= k < i ==> (#[trigger] s[k]).name != n.deep_view(),
        decreases items.len() - i,
    {
        let o = &items[i];
        assert(s[i as int] == o.deep_view());
        if text_eq(o.name.name.as_str(), n.name.as_str()) && text_eq(o.name.namespace.as_str(), n.namespace.as_str()) {
            assert(s[i as int].name == n.deep_view());
            return true;
        }
        i = i + 1;
    }
    false
}

/// The resources of kind `t` that the cluster holds and that pass a listing's filters, each
/// name once, in the order in which the nodes report them (see `catalogue_of`).
pub fn catalogue(state: &ClusterState, t: ResourceType, filter_name: &str, filter_ns: &str) -> (res: Vec<ObjectListItem>)
    ensures
        res.deep_view() == catalogue_of(all_resources(state.deep_view().nodes), t, filter_name@, filter_ns@),
{
    let ghost nodes = state.nodes.deep_view();
    let mut out: Vec<ObjectListItem> = Vec::new();
    let mut i: usize = 0;
    while i < state.nodes.len()
        invariant
            i <= state.nodes@.len(),
            nodes == state.nodes.deep_view(),
            out.deep_view() == catalogue_of(all_resources(nodes.take(i as int)), t, filter_name@, filter_ns@),
        decreases state.nodes.len() - i,
    {
        let node = &state.nodes[i];
        proof {
            assert(nodes.take(i + 1).drop_last() =~= nodes.take(i as int));
            assert(nodes.take(i + 1).last() == node.deep_view());
        }
        let empty: Vec<ObjectListItem> = Vec::new();
        let rs: &Vec<ObjectListItem> = match &node.host_info {
            Some(h) => match &h.system_info {
                Some(si) => match &si.resources {
                    Some(r) => r,
                    None => &empty,
                },
                None => &empty,
            },
            None => &empty,
        };
        let ghost items = rs.deep_view();
        assert(items =~= node_resources(node.deep_view()));
        let ghost prefix = all_resources(nodes.take(i as int));
        assert(prefix + items.take(0) =~= prefix);
        let mut j: usize = 0;
        while j < rs.len()
            invariant
                j <= rs@.len(),
                items == rs.deep_view(),
                out.deep_view() == catalogue_of(prefix + items.take(j as int), t, filter_name@, filter_ns@),
            decreases rs.len() - j,
        {
            let o = &rs[j];
            let ghost before = out.deep_view();
            proof {
                let cur = prefix + items.take(j + 1);
                assert(cur.drop_last() =~= prefix + items.take(j as int));
                assert(cur.last() == o.deep_view());
            }
            let keep = o.resource_type == t
                && matches_ns_name(o.name.name.as_str(), o.name.name.as_str(), o.name.namespace.as_str(), filter_name, filter_ns)
                && !has_name(&out, &o.name);
            if keep {
                out.push(o.clone());
                proof {
                    assert(out.deep_view() =~= before.push(o.deep_view()));
                }
            }
            j = j + 1;
        }
        assert(items.take(items.len() as int) =~= items);
        i = i + 1;
    }
    assert(nodes.take(nodes.len() as int) =~= nodes);
    out
}

/// A row of the daemonset listing: the daemonset, how many nodes it should run on, and its pods
/// counted (see `owner_pods`).
#[derive(Debug)]
pub struct DaemonsetRow {
    pub namespace: String,
    pub name: String,
    /// Every node of the cluster.
    pub desired: usize,
    pub pods: OwnerPods,
}

/// A row of the deployment listing: the deployment and its pods counted (see `owner_pods`).
#[derive(Debug)]
pub struct DeploymentRow {
    pub namespace: String,
    pub name: String,
    pub pods: OwnerPods,
}

/// Whether the counts describe the pods of the cluster that the owner named `name` in `ns`
/// owns through the label `key`, with `now` where none is older.
pub open spec fn counts_owned(p: OwnerPods, nodes: Seq<NodeStateView>, key: Seq<char>, name: Seq<char>, ns: Seq<char>, now: i64) -> bool {
    let ps = owned_pods(nodes, key, name, ns);
    p.total == ps.len() && p.running == running_in(ps) && p.earliest_created == earliest_created(ps, now)
}

/// The daemonset listing: one row for each daemonset that the cluster holds and that passes the
/// filters (see `catalogue`), in that order, with the pods labelled as its own.
pub fn daemonset_rows(state: &ClusterState, filter_name: &str, filter_ns: &str, now: i64) -> (res: Vec<DaemonsetRow>)
    ensures
        ({
            let nodes = state.deep_view().nodes;
            let cat = catalogue_of(all_resources(nodes), ResourceType::DaemonSet, filter_name@, filter_ns@);
            &&& res@.len() == cat.len()
            &&& forall|i: int| 0 <= i < cat.len() ==> {
                let r = #[trigger] res@[i];
                &&& r.namespace@ == cat[i].name.namespace
                &&& r.name@ == cat[i].name.name
                &&& r.desired == nodes.len()
                &&& counts_owned(r.pods, nodes, "skate.io/daemonset"@, cat[i].name.name, cat[i].name.namespace, now)
            }
        }),
{
    let cat = catalogue(state, ResourceType::DaemonSet, filter_name, filter_ns);
    let ghost cv = cat.deep_view();
    let mut rows: Vec<DaemonsetRow> = Vec::new();
    let mut i: usize = 0;
    while i < cat.len()
        invariant
            i <= cat@.len(),
            cv == cat.deep_view(),
            rows@.len() == i,
            forall|k: int| 0 <= k < i ==> {
                let r = #[trigger] rows@[k];
                &&& r.namespace@ == cv[k].name.namespace
                &&& r.name@ == cv[k].name.name
                &&& r.desired == state.deep_view().nodes.len()
                &&& counts_owned(r.pods, state.deep_view().nodes, "skate.io/daemonset"@, cv[k].name.name, cv[k].name.namespace, now)
            },
        decreases cat.len() - i,
    {
        let o = &cat[i];
        assert(cv[i as int] == o.deep_view());
        let pods = owner_pods(state, "skate.io/daemonset", o.name.name.as_str(), o.name.namespace.as_str(), now);
        rows.push(DaemonsetRow {
            namespace: o.name.namespace.clone(),
            name: o.name.name.clone(),
            desired: state.nodes.len(),
            pods,
        });
        i = i + 1;
    }
    rows
}

/// The deployment listing: one row for each deployment that the cluster holds and that passes
/// the filters (see `catalogue`), in that order, with the pods labelled as its own.
pub fn deployment_rows(state: &ClusterState, filter_name: &str, filter_ns: &str, now: i64) -> (res: Vec<DeploymentRow>)
    ensures
        ({
            let nodes = state.deep_view().nodes;
            let cat = catalogue_of(all_resources(nodes), ResourceType::Deployment, filter_name@, filter_ns@);
            &&& res@.len() == cat.len()
            &&& forall|i: int| 0 <= i < cat.len() ==> {
                let r = #[trigger] res@[i];
                &&& r.namespace@ == cat[i].name.namespace
                &&& r.name@ == cat[i].name.name
                &&& counts_owned(r.pods, nodes, "skate.io/deployment"@, cat[i].name.name, cat[i].name.namespace, now)
            }
        }),
{
    let cat = catalogue(state, ResourceType::Deployment, filter_name, filter_ns);
    let ghost cv = cat.deep_view();
    let mut rows: Vec<DeploymentRow> = Vec::new();
    let mut i: usize = 0;
    while i < cat.len()
        invariant
            i <= cat@.len(),
            cv == cat.deep_view(),
            rows@.len() == i,
            forall|k: int| 0 <= k < i ==> {
                let r = #[trigger] rows@[k];
                &&& r.namespace@ == cv[k].name.namespace
                &&& r.name@ == cv[k].name.name
                &&& counts_owned(r.pods, state.deep_view().nodes, "skate.io/deployment"@, cv[k].name.name, cv[k].name.namespace, now)
            },
        decreases cat.len() - i,
    {
        let o = &cat[i];
        assert(cv[i as int] == o.deep_view());
        let pods = owner_pods(state, "skate.io/deployment", o.name.name.as_str(), o.name.namespace.as_str(), now);
        rows.push(DeploymentRow { namespace: o.name.namespace.clone(), name: o.name.name.clone(), pods });
        i = i + 1;
    }
    rows
}

proof fn lemma_owned_in_exact(pods: Seq<PodmanPodInfoView>, key: Seq<char>, name: Seq<char>, ns: Seq<char>)
    ensures
        forall|x: PodmanPodInfoView| #[trigger] owned_in(pods, key, name, ns).contains(x) <==> (pods.contains(x) && owned_by(x, key, name, ns)),
    decreases pods.len(),
{
    if pods.len() > 0 {
        let p = pods.drop_last();
        lemma_owned_in_exact(p, key, name, ns);
        let o = owned_in(pods, key, name, ns);
        let op = owned_in(p, key, name, ns);
        assert forall|x: PodmanPodInfoView| #[trigger] o.contains(x) <==> (pods.contains(x) && owned_by(x, key, name, ns)) by {
            if o.contains(x) {
                let k = choose|k: int| 0 <= k < o.len() && o[k] == x;
                if k < op.len() {
                    assert(op[k] == x);
                    assert(op.contains(x));
                    let m = choose|m: int| 0 <= m < p.len() && p[m] == x;
                    assert(pods[m] == x);
                } else {
                    assert(x == pods.last());
                    assert(pods[pods.len() - 1] == x);
                }
            }
            if pods.contains(x) && owned_by(x, key, name, ns) {
                let m = choose|m: int| 0 <= m < pods.len() && pods[m] == x;
                if m < pods.len() - 1 {
                    assert(p[m] == x);
                    assert(p.contains(x));
                    assert(op.contains(x));
                    let k = choose|k: int| 0 <= k < op.len() && op[k] == x;
                    if owned_by(pods.last(), key, name, ns) {
                        assert(o == op.push(pods.last()));
                        assert(o[k] == x);
                    } else {
                        assert(o == op);
                    }
                } else {
                    assert(o[o.len() - 1] == x);
                }
            }
        }
    }
}

/// The pods counted for a deployment or daemonset are exactly the pods of the cluster that
/// carry its name in the owner label and its namespace in the namespace label (`default` where
/// a pod has none): each one counted is such a pod, and every such pod on any node is counted.
pub proof fn lemma_owned_pods_exact(nodes: Seq<NodeStateView>, key: Seq<char>, name: Seq<char>, ns: Seq<char>)
    ensures
        forall|x: PodmanPodInfoView| #[trigger] owned_pods(nodes, key, name, ns).contains(x) ==> (
            x.labels.contains_key(key) && x.labels[key] == name
            && (if x.labels.contains_key("skate.io/namespace"@) { x.labels["skate.io/namespace"@] } else { "default"@ }) == ns),
        forall|i: int, j: int| 0 <= i < nodes.len() && 0 <= j < node_pods(nodes[i]).len()
            && (#[trigger] node_pods(nodes[i])[j]).labels.contains_key(key) && node_pods(nodes[i])[j].labels[key] == name
            && (if node_pods(nodes[i])[j].labels.contains_key("skate.io/namespace"@) { node_pods(nodes[i])[j].labels["skate.io/namespace"@] } else { "default"@ }) == ns
            ==> owned_pods(nodes, key, name, ns).contains(node_pods(nodes[i])[j]),
    decreases nodes.len(),
{
    if nodes.len() > 0 {
        let p = nodes.drop_last();
        lemma_owned_pods_exact(p, key, name, ns);
        let last = node_pods(nodes.last());
        lemma_owned_in_exact(last, key, name, ns);
        let a = owned_pods(p, key, name, ns);
        let b = owned_in(last, key, name, ns);
        let all = owned_pods(nodes, key, name, ns);
        assert(all == a + b);
        assert forall|x: PodmanPodInfoView| #[trigger] all.contains(x) implies (
            x.labels.contains_key(key) && x.labels[key] == name
            && (if x.labels.contains_key("skate.io/namespace"@) { x.labels["skate.io/namespace"@] } else { "default"@ }) == ns) by {
            let k = choose|k: int| 0 <= k < all.len() && all[k] == x;
            if k < a.len() {
                assert(a[k] == x);
                assert(a.contains(x));
            } else {
                assert(b[k - a.len()] == x);
                assert(b.contains(x));
            }
        }
        assert forall|i: int, j: int| 0 <= i < nodes.len() && 0 <= j < node_pods(nodes[i]).len()
            && (#[trigger] node_pods(nodes[i])[j]).labels.contains_key(key) && node_pods(nodes[i])[j].labels[key] == name
            && (if node_pods(nodes[i])[j].labels.contains_key("skate.io/namespace"@) { node_pods(nodes[i])[j].labels["skate.io/namespace"@] } else { "default"@ }) == ns
            implies all.contains(node_pods(nodes[i])[j]) by {
            let x = node_pods(nodes[i])[j];
            if i < nodes.len() - 1 {
                assert(p[i] == nodes[i]);
                assert(node_pods(p[i])[j] == x);
                let k = choose|k: int| 0 <= k < a.len() && a[k] == x;
                assert(all[k] == x);
            } else {
                assert(last[j] == x);
                assert(last.contains(x));
                assert(b.contains(x));
                let k = choose|k: int| 0 <= k < b.len() && b[k] == x;
                assert(all[a.len() + k] == x);
            }
        }
    }
}

} // verus!
