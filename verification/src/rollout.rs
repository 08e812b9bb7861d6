//! `skate rollout restart`: redeploying the pods of deployments and daemonsets.
use vstd::prelude::*;
use crate::cli::ConfigFileArgs;
use crate::errors::SkateError;
use crate::get::label_or_empty;
use crate::naming::{NamespacedName, NamespacedNameView};
use crate::resource::{ResourceType, resource_type_from_text, resource_type_text};
use crate::state::{
    ClusterState, HostInfo, HostInfoView, NodeState, NodeStateView, PodmanPodInfo, PodmanPodInfoView,
    SystemInfo, SystemInfoView, node_pods,
};
use crate::text::{join2, owned, split_once_char, split_once_spec};

verus! {

/// What `skate rollout` is given.
#[derive(Debug)]
pub struct RolloutArgs {
    pub config: ConfigFileArgs,
    pub command: Commands,
}

/// The subcommands of `skate rollout`.
#[derive(Debug)]
pub enum Commands {
    /// Restart a resource's rollout.
    Restart(RestartArgs),
}

/// What `skate rollout restart` is given.
#[derive(Debug)]
pub struct RestartArgs {
    pub config: ConfigFileArgs,
    /// Report what would change without changing the cluster.
    pub dry_run: bool,
    pub resource: ResourceArg,
    /// The resource's namespace (`default` where none is given).
    pub namespace: String,
    /// Answer yes to the confirmation.
    pub yes: bool,
}

/// A resource named on the command line: `<kind>` or `<kind>/<name>`.
#[derive(Debug)]
pub struct ResourceArg(pub String);

/// The kind and, where one is given, the name that a resource argument denotes: the text up to
/// the first `/` is the kind, the rest the name.
pub open spec fn resource_arg_spec(s: Seq<char>) -> Option<(ResourceType, Option<Seq<char>>)> {
    match split_once_spec(s, '/') {
        Some((k, n)) => match resource_type_from_text(k) {
            Some(t) => Some((t, Some(n))),
            None => None,
        },
        None => match resource_type_from_text(s) {
            Some(t) => Some((t, None)),
            None => None,
        },
    }
}

impl ResourceArg {
    /// The kind and name the argument denotes (see `resource_arg_spec`); an unknown kind is
    /// refused.
    pub fn parse(&self) -> (res: Result<(ResourceType, Option<String>), SkateError>)
        ensures
            match resource_arg_spec(self.0@) {
                Some((t, n)) => res matches Ok((rt, rn)) && rt == t
                    && (match n { Some(x) => rn matches Some(y) && y@ == x, None => rn is None }),
                None => res is Err,
            },
    {
        match split_once_char(self.0.as_str(), '/') {
            Some((k, n)) => {
                let t = ResourceType::from_str(k.as_str())?;
                Ok((t, Some(n)))
            },
            None => {
                let t = ResourceType::from_str(self.0.as_str())?;
                Ok((t, None))
            },
        }
    }
}

/// Only deployments and daemonsets can be restarted.
pub fn restartable(t: ResourceType) -> (res: Result<(), SkateError>)
    ensures
        (t == ResourceType::Deployment || t == ResourceType::DaemonSet) ==> res is Ok,
        !(t == ResourceType::Deployment || t == ResourceType::DaemonSet) ==> (res matches Err(e)
            && e.message() == "resource type not supported"@),
{
    match t {
        ResourceType::Deployment | ResourceType::DaemonSet => Ok(()),
        _ => Err(SkateError::msg("resource type not supported")),
    }
}

/// The label that names a pod's owner of a kind: `skate.io/<kind>`.
pub open spec fn owner_label(t: ResourceType) -> Seq<char> {
    "skate.io/"@ + resource_type_text(t)
}

/// The label that names a pod's owner of a kind (see `owner_label`).
pub fn owner_label_key(t: ResourceType) -> (res: String)
    ensures
        res@ == owner_label(t),
{
    let k = t.to_string();
    join2("skate.io/", k.as_str())
}

/// The owner that a pod names in the owner label `key` and in its namespace label (each empty
/// where missing).
pub open spec fn pod_owner(p: PodmanPodInfoView, key: Seq<char>) -> NamespacedNameView {
    NamespacedNameView {
        name: label_or_empty(p.labels, key),
        namespace: label_or_empty(p.labels, "skate.io/namespace"@),
    }
}

/// A pod once tainted for the restart of `names`: its hash label is emptied when its owner is
/// the first of the names; the later names are never reached for a pod, since the first
/// name that differs from the pod's owner ends the walk over the names.
pub open spec fn tainted_pod(p: PodmanPodInfoView, key: Seq<char>, names: Seq<NamespacedNameView>) -> PodmanPodInfoView {
    if names.len() > 0 && pod_owner(p, key) == names[0] {
        PodmanPodInfoView { labels: p.labels.insert("skate.io/hash"@, Seq::empty()), ..p }
    } else {
        p
    }
}

/// A node once its pods are tainted (see `tainted_pod`); a node that reports no pods is
/// unchanged.
pub open spec fn tainted_node(n: NodeStateView, key: Seq<char>, names: Seq<NamespacedNameView>) -> NodeStateView {
    match n.host_info {
        Some(h) => match h.system_info {
            Some(si) => match si.pods {
                Some(ps) => NodeStateView {
                    host_info: Some(HostInfoView {
                        system_info: Some(SystemInfoView {
                            pods: Some(ps.map_values(|p: PodmanPodInfoView| tainted_pod(p, key, names))),
                            ..si
                        }),
                        ..h
                    }),
                    ..n
                },
                None => n,
            },
            None => n,
        },
        None => n,
    }
}

fn taint_pod(p: &PodmanPodInfo, key: &str, names: &Vec<NamespacedName>) -> (res: PodmanPodInfo)
    ensures
        res.deep_view() == tainted_pod(p.deep_view(), key@, names.deep_view()),
{
    let mut q = p.clone();
    if names.len() > 0 {
        let owner = NamespacedName {
            name: match p.labels.get(key) { Some(v) => v, None => String::new() },
            namespace: match p.labels.get("skate.io/namespace") { Some(v) => v, None => String::new() },
        };
        if owner.same_as(&names[0]) {
            q.labels.insert(owner_hash_key(), String::new());
            proof {
                reveal_strlit("skate.io/hash");
            }
        }
    }
    q
}

fn owner_hash_key() -> (res: String)
    ensures
        res@ == "skate.io/hash"@,
{
    owned("skate.io/hash")
}

fn taint_node(n: &NodeState, key: &str, names: &Vec<NamespacedName>) -> (res: NodeState)
    ensures
        res.deep_view() == tainted_node(n.deep_view(), key@, names.deep_view()),
{
    match &n.host_info {
        Some(h) => match &h.system_info {
            Some(si) => match &si.pods {
                Some(ps) => {
                    let mut out: Vec<PodmanPodInfo> = Vec::new();
                    let ghost v = ps.deep_view();
                    let mut i: usize = 0;
                    while i < ps.len()
                        invariant
                            i <= ps@.len(),
                            v == ps.deep_view(),
                            out.deep_view() == v.take(i as int).map_values(|p: PodmanPodInfoView| tainted_pod(p, key@, names.deep_view())),
                        decreases ps.len() - i,
                    {
                        let ghost before = out.deep_view();
                        out.push(taint_pod(&ps[i], key, names));
                        proof {
                            assert(out.deep_view() =~= before.push(tainted_pod(v[i as int], key@, names.deep_view())));
                            assert(v.take(i + 1) =~= v.take(i as int).push(v[i as int]));
                            assert(v.take(i + 1).map_values(|p: PodmanPodInfoView| tainted_pod(p, key@, names.deep_view()))
                                =~= v.take(i as int).map_values(|p: PodmanPodInfoView| tainted_pod(p, key@, names.deep_view())).push(tainted_pod(v[i as int], key@, names.deep_view())));
                        }
                        i = i + 1;
                    }
                    assert(v.take(v.len() as int) =~= v);
                    let resources = si.resources.clone();
                    assert(resources is Some ==> resources->0.deep_view() =~= si.resources->0.deep_view());
                    let r = NodeState {
                        node_name: n.node_name.clone(),
                        status: n.status,
                        message: n.message.clone(),
                        host_info: Some(HostInfo {
                            node_name: h.node_name.clone(),
                            system_info: Some(SystemInfo {
                                hostname: si.hostname.clone(),
                                cordoned: si.cordoned,
                                pods: Some(out),
                                resources,
                            }),
                        }),
                    };
                    r
                },
                None => n.clone(),
            },
            None => n.clone(),
        },
        None => n.clone(),
    }
}

/// Marks the pods owned by the resources being restarted so that the scheduler redeploys
/// them: every node's pods are tainted (see `tainted_pod`), with `key` the owner label of the
/// restarted kind.
pub fn taint_pods(state: &mut ClusterState, key: &str, names: &Vec<NamespacedName>)
    ensures
        final(state).deep_view().cluster_name == old(state).deep_view().cluster_name,
        final(state).deep_view().nodes == old(state).deep_view().nodes.map_values(
            |n: NodeStateView| tainted_node(n, key@, names.deep_view()),
        ),
{
    let ghost v = state.nodes.deep_view();
    let mut nodes: Vec<NodeState> = Vec::new();
    let mut i: usize = 0;
    while i < state.nodes.len()
        invariant
            i <= state.nodes@.len(),
            v == state.nodes.deep_view(),
            nodes.deep_view() == v.take(i as int).map_values(|n: NodeStateView| tainted_node(n, key@, names.deep_view())),
        decreases state.nodes.len() - i,
    {
        let ghost before = nodes.deep_view();
        nodes.push(taint_node(&state.nodes[i], key, names));
        proof {
            assert(nodes.deep_view() =~= before.push(tainted_node(v[i as int], key@, names.deep_view())));
            assert(v.take(i + 1) =~= v.take(i as int).push(v[i as int]));
            assert(v.take(i + 1).map_values(|n: NodeStateView| tainted_node(n, key@, names.deep_view()))
                =~= v.take(i as int).map_values(|n: NodeStateView| tainted_node(n, key@, names.deep_view())).push(tainted_node(v[i as int], key@, names.deep_view())));
        }
        i = i + 1;
    }
    assert(v.take(v.len() as int) =~= v);
    state.nodes = nodes;
}

/// Tainting a node for a restart empties the hash label of each pod that the first restarted
/// name owns, so that the scheduler redeploys it, and leaves every other pod, and the pods'
/// order and number, as they were.
pub proof fn lemma_taint_clears_owned(n: NodeStateView, key: Seq<char>, names: Seq<NamespacedNameView>)
    ensures
        node_pods(tainted_node(n, key, names)).len() == node_pods(n).len(),
        forall|i: int| 0 <= i < node_pods(n).len() ==> {
            let p = #[trigger] node_pods(n)[i];
            let q = node_pods(tainted_node(n, key, names))[i];
            if names.len() > 0 && pod_owner(p, key) == names[0] {
                q.labels.contains_key("skate.io/hash"@) && q.labels["skate.io/hash"@] == Seq::<char>::empty()
                    && q == (PodmanPodInfoView { labels: p.labels.insert("skate.io/hash"@, Seq::empty()), ..p })
            } else {
                q == p
            }
        },
{
}

} // verus!
