//! The known state of a cluster: its nodes, the pods they run and the resources they hold.
use vstd::prelude::*;
use crate::labels::StringMap;
use crate::naming::{NamespacedName, NamespacedNameView};
use crate::resource::ResourceType;

verus! {

/// The state of a pod as podman reports it.
#[derive(Debug, Clone, Copy, PartialEq, Eq, Structural)]
pub enum PodmanPodStatus {
    Created,
    Running,
    Stopped,
    Exited,
    Dead,
    Degraded,
    Error,
    Unknown,
}

/// Whether a node answered the last refresh.
#[derive(Debug, Clone, Copy, PartialEq, Eq, Structural)]
pub enum NodeStatus {
    Unknown,
    Healthy,
    Unhealthy,
}

impl DeepView for PodmanPodStatus {
    type V = PodmanPodStatus;

    open spec fn deep_view(&self) -> PodmanPodStatus {
        *self
    }
}

impl DeepView for NodeStatus {
    type V = NodeStatus;

    open spec fn deep_view(&self) -> NodeStatus {
        *self
    }
}

impl DeepView for ResourceType {
    type V = ResourceType;

    open spec fn deep_view(&self) -> ResourceType {
        *self
    }
}

/// A container of a pod, as podman reports it.
#[derive(Debug)]
pub struct PodmanContainerInfo {
    pub id: String,
    pub names: String,
    pub status: String,
    pub restart_count: Option<u64>,
}

/// `PodmanContainerInfo` as plain values.
pub struct PodmanContainerInfoView {
    pub id: Seq<char>,
    pub names: Seq<char>,
    pub status: Seq<char>,
    pub restart_count: Option<u64>,
}

impl DeepView for PodmanContainerInfo {
    type V = PodmanContainerInfoView;

    open spec fn deep_view(&self) -> PodmanContainerInfoView {
        PodmanContainerInfoView {
            id: self.id.deep_view(),
            names: self.names.deep_view(),
            status: self.status.deep_view(),
            restart_count: self.restart_count.deep_view(),
        }
    }
}

impl Clone for PodmanContainerInfo {
    fn clone(&self) -> (res: PodmanContainerInfo)
        ensures
            res.deep_view() == self.deep_view(),
    {
        let id = self.id.clone();
        let names = self.names.clone();
        let status = self.status.clone();
        let restart_count = self.restart_count.clone();
        PodmanContainerInfo { id, names, status, restart_count }
    }
}

/// A pod running on a node, as podman reports it.
#[derive(Debug)]
pub struct PodmanPodInfo {
    pub id: String,
    pub name: String,
    pub status: PodmanPodStatus,
    pub created: i64,
    pub labels: StringMap,
    pub containers: Option<Vec<PodmanContainerInfo>>,
}

/// `PodmanPodInfo` as plain values.
pub struct PodmanPodInfoView {
    pub id: Seq<char>,
    pub name: Seq<char>,
    pub status: PodmanPodStatus,
    pub created: i64,
    pub labels: Map<Seq<char>, Seq<char>>,
    pub containers: Option<Seq<PodmanContainerInfoView>>,
}

impl DeepView for PodmanPodInfo {
    type V = PodmanPodInfoView;

    open spec fn deep_view(&self) -> PodmanPodInfoView {
        PodmanPodInfoView {
            id: self.id.deep_view(),
            name: self.name.deep_view(),
            status: self.status.deep_view(),
            created: self.created.deep_view(),
            labels: self.labels.deep_view(),
            containers: self.containers.deep_view(),
        }
    }
}

impl Clone for PodmanPodInfo {
    fn clone(&self) -> (res: PodmanPodInfo)
        ensures
            res.deep_view() == self.deep_view(),
    {
        let id = self.id.clone();
        let name = self.name.clone();
        let status = self.status.clone();
        let created = self.created.clone();
        let labels = self.labels.clone();
        let containers = self.containers.clone();
        assert(containers is Some ==> containers->0.deep_view() =~= self.containers->0.deep_view());
        PodmanPodInfo { id, name, status, created, labels, containers }
    }
}

/// A resource that a node holds in its store.
#[derive(Debug)]
pub struct ObjectListItem {
    pub resource_type: ResourceType,
    pub name: NamespacedName,
    pub manifest_hash: String,
    pub generation: i64,
}

/// `ObjectListItem` as plain values.
pub struct ObjectListItemView {
    pub resource_type: ResourceType,
    pub name: NamespacedNameView,
    pub manifest_hash: Seq<char>,
    pub generation: i64,
}

impl DeepView for ObjectListItem {
    type V = ObjectListItemView;

    open spec fn deep_view(&self) -> ObjectListItemView {
        ObjectListItemView {
            resource_type: self.resource_type.deep_view(),
            name: self.name.deep_view(),
            manifest_hash: self.manifest_hash.deep_view(),
            generation: self.generation.deep_view(),
        }
    }
}

impl Clone for ObjectListItem {
    fn clone(&self) -> (res: ObjectListItem)
        ensures
            res.deep_view() == self.deep_view(),
    {
        let resource_type = self.resource_type.clone();
        let name = self.name.clone();
        let manifest_hash = self.manifest_hash.clone();
        let generation = self.generation.clone();
        ObjectListItem { resource_type, name, manifest_hash, generation }
    }
}

/// What a node's agent reports about the node.
#[derive(Debug)]
pub struct SystemInfo {
    pub hostname: String,
    pub cordoned: bool,
    pub pods: Option<Vec<PodmanPodInfo>>,
    pub resources: Option<Vec<ObjectListItem>>,
}

/// `SystemInfo` as plain values.
pub struct SystemInfoView {
    pub hostname: Seq<char>,
    pub cordoned: bool,
    pub pods: Option<Seq<PodmanPodInfoView>>,
    pub resources: Option<Seq<ObjectListItemView>>,
}

impl DeepView for SystemInfo {
    type V = SystemInfoView;

    open spec fn deep_view(&self) -> SystemInfoView {
        SystemInfoView {
            hostname: self.hostname.deep_view(),
            cordoned: self.cordoned.deep_view(),
            pods: self.pods.deep_view(),
            resources: self.resources.deep_view(),
        }
    }
}

impl Clone for SystemInfo {
    fn clone(&self) -> (res: SystemInfo)
        ensures
            res.deep_view() == self.deep_view(),
    {
        let hostname = self.hostname.clone();
        let cordoned = self.cordoned.clone();
        let pods = self.pods.clone();
        assert(pods is Some ==> pods->0.deep_view() =~= self.pods->0.deep_view());
        let resources = self.resources.clone();
        assert(resources is Some ==> resources->0.deep_view() =~= self.resources->0.deep_view());
        SystemInfo { hostname, cordoned, pods, resources }
    }
}

/// The answer a node gave when its state was refreshed.
#[derive(Debug)]
pub struct HostInfo {
    pub node_name: String,
    pub system_info: Option<SystemInfo>,
}

/// `HostInfo` as plain values.
pub struct HostInfoView {
    pub node_name: Seq<char>,
    pub system_info: Option<SystemInfoView>,
}

impl DeepView for HostInfo {
    type V = HostInfoView;

    open spec fn deep_view(&self) -> HostInfoView {
        HostInfoView {
            node_name: self.node_name.deep_view(),
            system_info: self.system_info.deep_view(),
        }
    }
}

impl Clone for HostInfo {
    fn clone(&self) -> (res: HostInfo)
        ensures
            res.deep_view() == self.deep_view(),
    {
        let node_name = self.node_name.clone();
        let system_info = self.system_info.clone();
        HostInfo { node_name, system_info }
    }
}

/// The known state of one node.
#[derive(Debug)]
pub struct NodeState {
    pub node_name: String,
    pub status: NodeStatus,
    pub message: Option<String>,
    pub host_info: Option<HostInfo>,
}

/// `NodeState` as plain values.
pub struct NodeStateView {
    pub node_name: Seq<char>,
    pub status: NodeStatus,
    pub message: Option<Seq<char>>,
    pub host_info: Option<HostInfoView>,
}

impl DeepView for NodeState {
    type V = NodeStateView;

    open spec fn deep_view(&self) -> NodeStateView {
        NodeStateView {
            node_name: self.node_name.deep_view(),
            status: self.status.deep_view(),
            message: self.message.deep_view(),
            host_info: self.host_info.deep_view(),
        }
    }
}

impl Clone for NodeState {
    fn clone(&self) -> (res: NodeState)
        ensures
            res.deep_view() == self.deep_view(),
    {
        let node_name = self.node_name.clone();
        let status = self.status.clone();
        let message = self.message.clone();
        let host_info = self.host_info.clone();
        NodeState { node_name, status, message, host_info }
    }
}

/// The known state of every node of a cluster.
#[derive(Debug)]
pub struct ClusterState {
    pub cluster_name: String,
    pub nodes: Vec<NodeState>,
}

/// `ClusterState` as plain values.
pub struct ClusterStateView {
    pub cluster_name: Seq<char>,
    pub nodes: Seq<NodeStateView>,
}

impl DeepView for ClusterState {
    type V = ClusterStateView;

    open spec fn deep_view(&self) -> ClusterStateView {
        ClusterStateView {
            cluster_name: self.cluster_name.deep_view(),
            nodes: self.nodes.deep_view(),
        }
    }
}

impl Clone for ClusterState {
    fn clone(&self) -> (res: ClusterState)
        ensures
            res.deep_view() == self.deep_view(),
    {
        let cluster_name = self.cluster_name.clone();
        let nodes = self.nodes.clone();
        assert(nodes.deep_view() =~= self.nodes.deep_view());
        ClusterState { cluster_name, nodes }
    }
}

/// Whether a node answered the last refresh and is not cordoned, so that work may go to it.
pub open spec fn node_schedulable(n: NodeStateView) -> bool {
    n.status == NodeStatus::Healthy && !node_cordoned(n)
}

/// Whether a node's agent reported the node as cordoned.
pub open spec fn node_cordoned(n: NodeStateView) -> bool {
    n.host_info matches Some(h) && (h.system_info matches Some(si) && si.cordoned)
}

/// The pods a node reported (none where it reported nothing).
pub open spec fn node_pods(n: NodeStateView) -> Seq<PodmanPodInfoView> {
    match n.host_info {
        Some(h) => match h.system_info {
            Some(si) => match si.pods {
                Some(p) => p,
                None => Seq::empty(),
            },
            None => Seq::empty(),
        },
        None => Seq::empty(),
    }
}

/// The resources a node reported holding (none where it reported nothing).
pub open spec fn node_resources(n: NodeStateView) -> Seq<ObjectListItemView> {
    match n.host_info {
        Some(h) => match h.system_info {
            Some(si) => match si.resources {
                Some(r) => r,
                None => Seq::empty(),
            },
            None => Seq::empty(),
        },
        None => Seq::empty(),
    }
}

/// Whether a stored resource is the one of this kind, namespace and name.
pub open spec fn item_is(o: ObjectListItemView, t: ResourceType, ns: Seq<char>, name: Seq<char>) -> bool {
    o.resource_type == t && o.name.namespace == ns && o.name.name == name
}

/// The first stored resource of this kind, namespace and name.
pub open spec fn first_item(items: Seq<ObjectListItemView>, t: ResourceType, ns: Seq<char>, name: Seq<char>) -> Option<ObjectListItemView>
    decreases items.len(),
{
    if items.len() == 0 {
        None
    } else if item_is(items[0], t, ns, name) {
        Some(items[0])
    } else {
        first_item(items.drop_first(), t, ns, name)
    }
}

/// The first node, in the cluster's order, that holds the resource, with what it holds.
pub open spec fn first_in_cluster(nodes: Seq<NodeStateView>, t: ResourceType, ns: Seq<char>, name: Seq<char>) -> Option<(ObjectListItemView, NodeStateView)>
    decreases nodes.len(),
{
    if nodes.len() == 0 {
        None
    } else {
        match first_item(node_resources(nodes[0]), t, ns, name) {
            Some(o) => Some((o, nodes[0])),
            None => first_in_cluster(nodes.drop_first(), t, ns, name),
        }
    }
}

/// Whether a pod carries `key = value` and `skate.io/namespace = ns` among its labels.
pub open spec fn pod_labelled(p: PodmanPodInfoView, key: Seq<char>, value: Seq<char>, ns: Seq<char>) -> bool {
    &&& p.labels.contains_key(key) && p.labels[key] == value
    &&& p.labels.contains_key("skate.io/namespace"@) && p.labels["skate.io/namespace"@] == ns
}

/// The pods of one node that carry `key = value` in namespace `ns`, each with the node.
pub open spec fn labelled_on_node(pods: Seq<PodmanPodInfoView>, node: NodeStateView, key: Seq<char>, value: Seq<char>, ns: Seq<char>) -> Seq<(PodmanPodInfoView, NodeStateView)>
    decreases pods.len(),
{
    if pods.len() == 0 {
        Seq::empty()
    } else if pod_labelled(pods[0], key, value, ns) {
        seq![(pods[0], node)] + labelled_on_node(pods.drop_first(), node, key, value, ns)
    } else {
        labelled_on_node(pods.drop_first(), node, key, value, ns)
    }
}

/// The pods of the cluster that carry `key = value` in namespace `ns`, node by node in the
/// cluster's order, each with its node.
pub open spec fn labelled_pods(nodes: Seq<NodeStateView>, key: Seq<char>, value: Seq<char>, ns: Seq<char>) -> Seq<(PodmanPodInfoView, NodeStateView)>
    decreases nodes.len(),
{
    if nodes.len() == 0 {
        Seq::empty()
    } else {
        labelled_on_node(node_pods(nodes[0]), nodes[0], key, value, ns) + labelled_pods(nodes.drop_first(), key, value, ns)
    }
}

/// Every generation a node holds can be incremented.
pub open spec fn generations_bounded(nodes: Seq<NodeStateView>) -> bool {
    forall|i: int, j: int|
        0 <= i < nodes.len() && 0 <= j < node_resources(nodes[i]).len() ==> #[trigger] node_resources(nodes[i])[j].generation < i64::MAX
}

proof fn lemma_first_item_bounded(items: Seq<ObjectListItemView>, t: ResourceType, ns: Seq<char>, name: Seq<char>)
    requires
        forall|j: int| 0 <= j < items.len() ==> #[trigger] items[j].generation < i64::MAX,
    ensures
        first_item(items, t, ns, name) matches Some(o) ==> o.generation < i64::MAX,
    decreases items.len(),
{
    if items.len() > 0 {
        assert(items[0].generation < i64::MAX);
        lemma_first_item_bounded(items.drop_first(), t, ns, name);
    }
}

/// The resource that the cluster-wide lookup finds has a generation that can be incremented.
pub proof fn lemma_first_in_cluster_bounded(nodes: Seq<NodeStateView>, t: ResourceType, ns: Seq<char>, name: Seq<char>)
    requires
        generations_bounded(nodes),
    ensures
        first_in_cluster(nodes, t, ns, name) matches Some((o, _)) ==> o.generation < i64::MAX,
    decreases nodes.len(),
{
    if nodes.len() > 0 {
        assert forall|j: int| 0 <= j < node_resources(nodes[0]).len() implies #[trigger] node_resources(nodes[0])[j].generation < i64::MAX by {
            assert(node_resources(nodes[0])[j].generation < i64::MAX);
        }
        lemma_first_item_bounded(node_resources(nodes[0]), t, ns, name);
        assert(generations_bounded(nodes.drop_first())) by {
            assert forall|i: int, j: int|
                0 <= i < nodes.drop_first().len() && 0 <= j < node_resources(nodes.drop_first()[i]).len() implies
                #[trigger] node_resources(nodes.drop_first()[i])[j].generation < i64::MAX by {
                assert(nodes.drop_first()[i] == nodes[i + 1]);
                assert(node_resources(nodes[i + 1])[j].generation < i64::MAX);
            }
        }
        lemma_first_in_cluster_bounded(nodes.drop_first(), t, ns, name);
    }
}

impl NodeState {
    /// Whether work may go to the node (see `node_schedulable`).
    pub fn schedulable(&self) -> (res: bool)
        ensures
            res == node_schedulable(self.deep_view()),
    {
        let cordoned = match &self.host_info {
            Some(h) => match &h.system_info {
                Some(si) => si.cordoned,
                None => false,
            },
            None => false,
        };
        match self.status {
            NodeStatus::Healthy => !cordoned,
            _ => false,
        }
    }

    /// The first resource of this kind, namespace and name that the node holds.
    pub fn find_resource(&self, t: ResourceType, ns: &str, name: &str) -> (res: Option<ObjectListItem>)
        ensures
            match res {
                Some(o) => first_item(node_resources(self.deep_view()), t, ns@, name@) == Some(o.deep_view()),
                None => first_item(node_resources(self.deep_view()), t, ns@, name@) is None,
            },
    {
        let empty: Vec<ObjectListItem> = Vec::new();
        let items: &Vec<ObjectListItem> = match &self.host_info {
            Some(h) => match &h.system_info {
                Some(si) => match &si.resources {
                    Some(r) => r,
                    None => &empty,
                },
                None => &empty,
            },
            None => &empty,
        };
        assert(items.deep_view() =~= node_resources(self.deep_view()));
        let ghost s = items.deep_view();
        assert(s.skip(0) =~= s);
        let mut i: usize = 0;
        while i < items.len()
            invariant
                i <= items@.len(),
                s == items.deep_view(),
                s == node_resources(self.deep_view()),
                first_item(s, t, ns@, name@) == first_item(s.skip(i as int), t, ns@, name@),
            decreases items.len() - i,
        {
            let o = &items[i];
            assert(s.skip(i as int)[0] == o.deep_view());
            assert(s.skip(i as int).drop_first() =~= s.skip(i + 1));
            if o.resource_type == t && crate::text::text_eq(o.name.namespace.as_str(), ns)
                && crate::text::text_eq(o.name.name.as_str(), name) {
                assert(item_is(s.skip(i as int)[0], t, ns@, name@));
                return Some(o.clone());
            }
            i = i + 1;
        }
        assert(s.skip(i as int).len() == 0);
        None
    }

    /// The pods of this node that carry `key = value` in namespace `ns`, each with the node.
    pub fn labelled_pods(&self, key: &str, value: &str, ns: &str) -> (res: Vec<(PodmanPodInfo, NodeState)>)
        ensures
            res.deep_view() == labelled_on_node(node_pods(self.deep_view()), self.deep_view(), key@, value@, ns@),
    {
        let empty: Vec<PodmanPodInfo> = Vec::new();
        let pods: &Vec<PodmanPodInfo> = match &self.host_info {
            Some(h) => match &h.system_info {
                Some(si) => match &si.pods {
                    Some(p) => p,
                    None => &empty,
                },
                None => &empty,
            },
            None => &empty,
        };
        assert(pods.deep_view() =~= node_pods(self.deep_view()));
        let ghost s = pods.deep_view();
        let ghost me = self.deep_view();
        let mut out: Vec<(PodmanPodInfo, NodeState)> = Vec::new();
        assert(s.skip(0) =~= s);
        assert(out.deep_view() + labelled_on_node(s, me, key@, value@, ns@) =~= labelled_on_node(s, me, key@, value@, ns@));
        let mut i: usize = 0;
        while i < pods.len()
            invariant
                i <= pods@.len(),
                s == pods.deep_view(),
                me == self.deep_view(),
                out.deep_view() + labelled_on_node(s.skip(i as int), me, key@, value@, ns@)
                    == labelled_on_node(s, me, key@, value@, ns@),
            decreases pods.len() - i,
        {
            let p = &pods[i];
            assert(s.skip(i as int)[0] == p.deep_view());
            assert(s.skip(i as int).drop_first() =~= s.skip(i + 1));
            let has_key = match p.labels.get(key) {
                Some(v) => crate::text::text_eq(v.as_str(), value),
                None => false,
            };
            let has_ns = match p.labels.get("skate.io/namespace") {
                Some(v) => crate::text::text_eq(v.as_str(), ns),
                None => false,
            };
            if has_key && has_ns {
                let ghost before = out.deep_view();
                out.push((p.clone(), self.clone()));
                proof {
                    assert(out.deep_view() =~= before.push((p.deep_view(), me)));
                    assert(labelled_on_node(s.skip(i as int), me, key@, value@, ns@) == seq![(p.deep_view(), me)]
                        + labelled_on_node(s.skip(i + 1), me, key@, value@, ns@));
                    assert(before.push((p.deep_view(), me)) + labelled_on_node(s.skip(i + 1), me, key@, value@, ns@)
                        =~= before + (seq![(p.deep_view(), me)] + labelled_on_node(s.skip(i + 1), me, key@, value@, ns@)));
                }
            }
            i = i + 1;
        }
        assert(s.skip(i as int).len() == 0);
        assert(out.deep_view() + labelled_on_node(s.skip(i as int), me, key@, value@, ns@) =~= out.deep_view());
        out
    }
}

impl ClusterState {
    /// The first node, in the cluster's order, that holds the resource, with what it holds.
    pub fn find_in_cluster(&self, t: ResourceType, ns: &str, name: &str) -> (res: Option<(ObjectListItem, NodeState)>)
        ensures
            match res {
                Some((o, n)) => first_in_cluster(self.nodes.deep_view(), t, ns@, name@) == Some((o.deep_view(), n.deep_view())),
                None => first_in_cluster(self.nodes.deep_view(), t, ns@, name@) is None,
            },
    {
        let ghost s = self.nodes.deep_view();
        assert(s.skip(0) =~= s);
        let mut i: usize = 0;
        while i < self.nodes.len()
            invariant
                i <= self.nodes@.len(),
                s == self.nodes.deep_view(),
                first_in_cluster(s, t, ns@, name@) == first_in_cluster(s.skip(i as int), t, ns@, name@),
            decreases self.nodes.len() - i,
        {
            let n = &self.nodes[i];
            assert(s.skip(i as int)[0] == n.deep_view());
            assert(s.skip(i as int).drop_first() =~= s.skip(i + 1));
            match n.find_resource(t, ns, name) {
                Some(o) => {
                    return Some((o, n.clone()));
                },
                None => {},
            }
            i = i + 1;
        }
        assert(s.skip(i as int).len() == 0);
        None
    }

    /// The pods of the cluster that carry `key = value` in namespace `ns`, node by node.
    pub fn labelled_pods(&self, key: &str, value: &str, ns: &str) -> (res: Vec<(PodmanPodInfo, NodeState)>)
        ensures
            res.deep_view() == labelled_pods(self.nodes.deep_view(), key@, value@, ns@),
    {
        let ghost s = self.nodes.deep_view();
        let mut out: Vec<(PodmanPodInfo, NodeState)> = Vec::new();
        assert(s.skip(0) =~= s);
        assert(out.deep_view() + labelled_pods(s, key@, value@, ns@) =~= labelled_pods(s, key@, value@, ns@));
        let mut i: usize = 0;
        while i < self.nodes.len()
            invariant
                i <= self.nodes@.len(),
                s == self.nodes.deep_view(),
                out.deep_view() + labelled_pods(s.skip(i as int), key@, value@, ns@) == labelled_pods(s, key@, value@, ns@),
            decreases self.nodes.len() - i,
        {
            let n = &self.nodes[i];
            assert(s.skip(i as int)[0] == n.deep_view());
            assert(s.skip(i as int).drop_first() =~= s.skip(i + 1));
            let mut found = n.labelled_pods(key, value, ns);
            let ghost before = out.deep_view();
            let ghost f = found.deep_view();
            out.append(&mut found);
            proof {
                assert(out.deep_view() =~= before + f);
                assert(labelled_pods(s.skip(i as int), key@, value@, ns@) == f + labelled_pods(s.skip(i + 1), key@, value@, ns@));
                assert((before + f) + labelled_pods(s.skip(i + 1), key@, value@, ns@) =~= before + (f + labelled_pods(s.skip(i + 1), key@, value@, ns@)));
            }
            i = i + 1;
        }
        assert(s.skip(i as int).len() == 0);
        assert(out.deep_view() + labelled_pods(s.skip(i as int), key@, value@, ns@) =~= out.deep_view());
        out
    }
}

} // verus!
