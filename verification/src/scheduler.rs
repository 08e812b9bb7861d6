//! Planning where resources go: for each resource, which operations on which nodes.
use vstd::prelude::*;
use crate::errors::SkateError;
use crate::labels::{entries_map, StringMap};
use crate::manifest::{
    CronJob, CronJobView, DaemonSet, DaemonSetView, Deployment, DeploymentView, Ingress, IngressView,
    ObjectMeta, ObjectMetaView, Pod, PodSpec, PodSpecView, PodView, Secret, SecretView, Service,
    ServiceView, ClusterIssuer, ClusterIssuerView, SupportedResources, SupportedResourcesView,
};
use crate::naming::{metadata_name, metadata_name_spec, NamespacedName, NamespacedNameView};
use crate::resource::ResourceType;
use crate::state::{
    first_in_cluster, first_item, generations_bounded, labelled_pods, lemma_first_in_cluster_bounded,
    node_pods, node_schedulable, ClusterState, NodeState, NodeStateView, ObjectListItem,
    ObjectListItemView, PodmanPodInfo, PodmanPodInfoView, PodmanPodStatus,
};
use crate::text::{owned, text_eq};
#[allow(unused_imports)]
use colored::Colorize;

verus! {

/// Decides where resources go.
#[derive(Debug)]
pub struct DefaultScheduler {}

impl DefaultScheduler {
    /// A scheduler.
    pub fn new() -> (res: DefaultScheduler) {
        DefaultScheduler {}
    }
}

/// What an operation does.
#[derive(Debug, Clone, Copy, PartialEq, Eq, Structural)]
pub enum OpType {
    Info,
    Create,
    Clobber,
    Delete,
    Unchanged,
}

impl DeepView for OpType {
    type V = OpType;

    open spec fn deep_view(&self) -> OpType {
        *self
    }
}

/// One step of a plan: what to do with a resource, and on which node.
#[derive(Debug)]
pub struct ScheduledOperation {
    pub resource: SupportedResources,
    pub node: Option<NodeState>,
    pub operation: OpType,
    pub error: Option<String>,
    pub silent: bool,
}

/// `ScheduledOperation` as plain values.
pub struct ScheduledOperationView {
    pub resource: SupportedResourcesView,
    pub node: Option<NodeStateView>,
    pub operation: OpType,
    pub error: Option<Seq<char>>,
    pub silent: bool,
}

impl DeepView for ScheduledOperation {
    type V = ScheduledOperationView;

    open spec fn deep_view(&self) -> ScheduledOperationView {
        ScheduledOperationView {
            resource: self.resource.deep_view(),
            node: self.node.deep_view(),
            operation: self.operation.deep_view(),
            error: self.error.deep_view(),
            silent: self.silent.deep_view(),
        }
    }
}

impl Clone for ScheduledOperation {
    fn clone(&self) -> (res: ScheduledOperation)
        ensures
            res.deep_view() == self.deep_view(),
    {
        let resource = self.resource.clone();
        let node = self.node.clone();
        let operation = self.operation.clone();
        let error = self.error.clone();
        let silent = self.silent.clone();
        ScheduledOperation { resource, node, operation, error, silent }
    }
}

/// A node that could not take a resource, and why.
#[derive(Debug)]
pub struct RejectedNode {
    pub node_name: String,
    pub reason: String,
}

/// `RejectedNode` as plain values.
pub struct RejectedNodeView {
    pub node_name: Seq<char>,
    pub reason: Seq<char>,
}

impl DeepView for RejectedNode {
    type V = RejectedNodeView;

    open spec fn deep_view(&self) -> RejectedNodeView {
        RejectedNodeView {
            node_name: self.node_name.deep_view(),
            reason: self.reason.deep_view(),
        }
    }
}

impl Clone for RejectedNode {
    fn clone(&self) -> (res: RejectedNode)
        ensures
            res.deep_view() == self.deep_view(),
    {
        let node_name = self.node_name.clone();
        let reason = self.reason.clone();
        RejectedNode { node_name, reason }
    }
}

/// The node chosen for a resource, and the nodes that were refused.
#[derive(Debug)]
pub struct NodeSelection {
    pub selected: Option<NodeState>,
    pub rejected: Vec<RejectedNode>,
}

/// `NodeSelection` as plain values.
pub struct NodeSelectionView {
    pub selected: Option<NodeStateView>,
    pub rejected: Seq<RejectedNodeView>,
}

impl DeepView for NodeSelection {
    type V = NodeSelectionView;

    open spec fn deep_view(&self) -> NodeSelectionView {
        NodeSelectionView {
            selected: self.selected.deep_view(),
            rejected: self.rejected.deep_view(),
        }
    }
}

impl Clone for NodeSelection {
    fn clone(&self) -> (res: NodeSelection)
        ensures
            res.deep_view() == self.deep_view(),
    {
        let selected = self.selected.clone();
        let rejected = self.rejected.clone();
        assert(rejected.deep_view() =~= self.rejected.deep_view());
        NodeSelection { selected, rejected }
    }
}

/// What scheduling did, operation by operation.
#[derive(Debug)]
pub struct ScheduleResult {
    pub placements: Vec<ScheduledOperation>,
}

/// `ScheduleResult` as plain values.
pub struct ScheduleResultView {
    pub placements: Seq<ScheduledOperationView>,
}

impl DeepView for ScheduleResult {
    type V = ScheduleResultView;

    open spec fn deep_view(&self) -> ScheduleResultView {
        ScheduleResultView {
            placements: self.placements.deep_view(),
        }
    }
}

impl Clone for ScheduleResult {
    fn clone(&self) -> (res: ScheduleResult)
        ensures
            res.deep_view() == self.deep_view(),
    {
        let placements = self.placements.clone();
        assert(placements.deep_view() =~= self.placements.deep_view());
        ScheduleResult { placements }
    }
}

/// An operation as plain values, with no error.
pub open spec fn op_view(r: SupportedResourcesView, node: Option<NodeStateView>, op: OpType, silent: bool) -> ScheduledOperationView {
    ScheduledOperationView { resource: r, node, operation: op, error: None, silent }
}

impl ScheduledOperation {
    /// An operation of this type on a resource, on no node yet.
    pub fn new(op: OpType, resource: SupportedResources) -> (res: ScheduledOperation)
        ensures
            res.deep_view() == op_view(resource.deep_view(), None, op, false),
    {
        ScheduledOperation { resource, node: None, operation: op, error: None, silent: false }
    }

    /// The same operation, not to be reported.
    pub fn silent(self) -> (res: ScheduledOperation)
        ensures
            res.deep_view() == (ScheduledOperationView { silent: true, ..self.deep_view() }),
    {
        let mut s = self;
        s.silent = true;
        s
    }

    /// The same operation, on the given node.
    pub fn node(self, n: NodeState) -> (res: ScheduledOperation)
        ensures
            res.deep_view() == (ScheduledOperationView { node: Some(n.deep_view()), ..self.deep_view() }),
    {
        let mut s = self;
        s.node = Some(n);
        s
    }

    /// The same operation, marked with an error.
    pub fn error(self, err: String) -> (res: ScheduledOperation)
        ensures
            res.deep_view() == (ScheduledOperationView { error: Some(err@), ..self.deep_view() }),
    {
        let mut s = self;
        s.error = Some(err);
        s
    }
}

/// The operations of a plan, grouped under the name of the resource they are for.
#[derive(Debug)]
pub struct ApplyPlan {
    pub actions: Vec<(NamespacedName, Vec<ScheduledOperation>)>,
}

/// The entries of a plan after adding operations under a name: they go after the operations
/// already under that name, or under a new entry at the end.
pub open spec fn plan_add(
    s: Seq<(NamespacedNameView, Seq<ScheduledOperationView>)>,
    k: NamespacedNameView,
    ops: Seq<ScheduledOperationView>,
) -> Seq<(NamespacedNameView, Seq<ScheduledOperationView>)>
    decreases s.len(),
{
    if s.len() == 0 {
        seq![(k, ops)]
    } else if s[0].0 == k {
        seq![(k, s[0].1 + ops)] + s.drop_first()
    } else {
        seq![s[0]] + plan_add(s.drop_first(), k, ops)
    }
}

/// The operations under a name in a plan's entries.
pub open spec fn plan_get(
    s: Seq<(NamespacedNameView, Seq<ScheduledOperationView>)>,
    k: NamespacedNameView,
) -> Option<Seq<ScheduledOperationView>>
    decreases s.len(),
{
    if s.len() == 0 {
        None
    } else if s[0].0 == k {
        Some(s[0].1)
    } else {
        plan_get(s.drop_first(), k)
    }
}

/// No name has two entries.
pub open spec fn distinct_names(s: Seq<(NamespacedNameView, Seq<ScheduledOperationView>)>) -> bool {
    forall|i: int, j: int| 0 <= i < j < s.len() ==> s[i].0 != s[j].0
}

proof fn lemma_plan_add_at(
    s: Seq<(NamespacedNameView, Seq<ScheduledOperationView>)>,
    k: NamespacedNameView,
    ops: Seq<ScheduledOperationView>,
    i: int,
)
    requires
        0 <= i < s.len(),
        s[i].0 == k,
        forall|j: int| 0 <= j < i ==> s[j].0 != k,
    ensures
        plan_add(s, k, ops) == s.update(i, (k, s[i].1 + ops)),
    decreases i,
{
    if i == 0 {
        assert(plan_add(s, k, ops) =~= s.update(i, (k, s[i].1 + ops)));
    } else {
        assert(s[0].0 != k);
        lemma_plan_add_at(s.drop_first(), k, ops, i - 1);
        assert(plan_add(s, k, ops) =~= s.update(i, (k, s[i].1 + ops)));
    }
}

proof fn lemma_plan_add_absent(
    s: Seq<(NamespacedNameView, Seq<ScheduledOperationView>)>,
    k: NamespacedNameView,
    ops: Seq<ScheduledOperationView>,
)
    requires
        forall|j: int| 0 <= j < s.len() ==> s[j].0 != k,
    ensures
        plan_add(s, k, ops) == s.push((k, ops)),
    decreases s.len(),
{
    if s.len() > 0 {
        assert(s[0].0 != k);
        lemma_plan_add_absent(s.drop_first(), k, ops);
        assert(plan_add(s, k, ops) =~= s.push((k, ops)));
    } else {
        assert(plan_add(s, k, ops) =~= s.push((k, ops)));
    }
}

proof fn lemma_plan_add_distinct(
    s: Seq<(NamespacedNameView, Seq<ScheduledOperationView>)>,
    k: NamespacedNameView,
    ops: Seq<ScheduledOperationView>,
)
    requires
        distinct_names(s),
    ensures
        distinct_names(plan_add(s, k, ops)),
        forall|j: int| 0 <= j < plan_add(s, k, ops).len() ==> #[trigger] plan_add(s, k, ops)[j].0 == k || exists|m: int| 0 <= m < s.len() && s[m].0 == plan_add(s, k, ops)[j].0,
    decreases s.len(),
{
    if s.len() > 0 && s[0].0 != k {
        let t = s.drop_first();
        assert(distinct_names(t)) by {
            assert forall|i: int, j: int| 0 <= i < j < t.len() implies t[i].0 != t[j].0 by {
                assert(s[i + 1].0 != s[j + 1].0);
            }
        }
        lemma_plan_add_distinct(t, k, ops);
        let r = plan_add(s, k, ops);
        assert forall|j: int| 0 <= j < r.len() implies #[trigger] r[j].0 == k || exists|m: int| 0 <= m < s.len() && s[m].0 == r[j].0 by {
            if j == 0 {
                assert(s[0].0 == r[0].0);
            } else {
                let rt = plan_add(t, k, ops);
                assert(r[j] == rt[j - 1]);
                if rt[j - 1].0 != k {
                    let m = choose|m: int| 0 <= m < t.len() && t[m].0 == rt[j - 1].0;
                    assert(s[m + 1].0 == r[j].0);
                }
            }
        }
        assert forall|i: int, j: int| 0 <= i < j < r.len() implies r[i].0 != r[j].0 by {
            let rt = plan_add(t, k, ops);
            if i == 0 {
                assert(r[j] == rt[j - 1]);
                if rt[j - 1].0 != k {
                    let m = choose|m: int| 0 <= m < t.len() && t[m].0 == rt[j - 1].0;
                    assert(s[0].0 != s[m + 1].0);
                }
            } else {
                assert(r[i] == rt[i - 1]);
                assert(r[j] == rt[j - 1]);
            }
        }
    } else if s.len() > 0 {
        let r = plan_add(s, k, ops);
        assert forall|j: int| 0 <= j < r.len() implies #[trigger] r[j].0 == k || exists|m: int| 0 <= m < s.len() && s[m].0 == r[j].0 by {
            if j > 0 {
                assert(s[j].0 == r[j].0);
            }
        }
        assert forall|i: int, j: int| 0 <= i < j < r.len() implies r[i].0 != r[j].0 by {
            assert(s[i].0 != s[j].0);
        }
    }
}

impl ApplyPlan {
    /// The plan's entries as plain values.
    pub open spec fn entries(&self) -> Seq<(NamespacedNameView, Seq<ScheduledOperationView>)> {
        self.actions.deep_view()
    }

    /// A plan with one entry.
    pub fn single(k: NamespacedName, ops: Vec<ScheduledOperation>) -> (res: ApplyPlan)
        ensures
            res.entries() == seq![(k.deep_view(), ops.deep_view())],
    {
        let mut actions = Vec::new();
        actions.push((k, ops));
        let res = ApplyPlan { actions };
        assert(res.entries() =~= seq![(k.deep_view(), ops.deep_view())]);
        res
    }

    /// Adds operations under a name (see `plan_add`).
    pub fn add(&mut self, k: NamespacedName, ops: Vec<ScheduledOperation>)
        ensures
            final(self).entries() == plan_add(old(self).entries(), k.deep_view(), ops.deep_view()),
    {
        let ghost s = self.entries();
        let mut i: usize = 0;
        while i < self.actions.len()
            invariant
                i <= self.actions@.len(),
                s == self.entries(),
                s == old(self).entries(),
                forall|j: int| 0 <= j < i ==> s[j].0 != k.deep_view(),
            decreases self.actions.len() - i,
        {
            if self.actions[i].0.same_as(&k) {
                proof {
                    lemma_plan_add_at(s, k.deep_view(), ops.deep_view(), i as int);
                }
                let (name, mut existing) = self.actions.remove(i);
                let mut more = ops;
                let ghost e = existing.deep_view();
                let ghost m = more.deep_view();
                existing.append(&mut more);
                assert(existing.deep_view() =~= e + m);
                self.actions.insert(i, (name, existing));
                proof {
                    assert(self.entries() =~= s.update(i as int, (k.deep_view(), s[i as int].1 + ops.deep_view())));
                }
                return;
            }
            i = i + 1;
        }
        proof {
            lemma_plan_add_absent(s, k.deep_view(), ops.deep_view());
        }
        self.actions.push((k, ops));
        assert(self.entries() =~= s.push((k.deep_view(), ops.deep_view())));
    }

    /// The operations under a name.
    pub fn get(&self, k: &NamespacedName) -> (res: Option<&Vec<ScheduledOperation>>)
        ensures
            match res {
                Some(v) => plan_get(self.entries(), k.deep_view()) == Some(v.deep_view()),
                None => plan_get(self.entries(), k.deep_view()) is None,
            },
    {
        let ghost s = self.entries();
        assert(s.skip(0) =~= s);
        let mut i: usize = 0;
        while i < self.actions.len()
            invariant
                i <= self.actions@.len(),
                s == self.entries(),
                plan_get(s, k.deep_view()) == plan_get(s.skip(i as int), k.deep_view()),
            decreases self.actions.len() - i,
        {
            assert(s.skip(i as int)[0] == s[i as int]);
            assert(s.skip(i as int).drop_first() =~= s.skip(i + 1));
            if self.actions[i].0.same_as(k) {
                return Some(&self.actions[i].1);
            }
            i = i + 1;
        }
        None
    }

    /// The number of entries.
    pub fn len(&self) -> (res: usize)
        ensures
            res == self.entries().len(),
    {
        self.actions.len()
    }
}

/// The generation a resource gets: one more than the generation it has in the cluster when that
/// is positive, else 1.
pub open spec fn next_generation_spec(existing: Option<ObjectListItemView>) -> i64 {
    match existing {
        Some(o) => if o.generation > 0 { (o.generation + 1) as i64 } else { 1 },
        None => 1,
    }
}

/// The generation a resource gets (see `next_generation_spec`).
pub fn next_generation(existing: Option<&ObjectListItem>) -> (res: i64)
    requires
        existing matches Some(o) ==> o.generation < i64::MAX,
    ensures
        res == next_generation_spec(match existing { Some(o) => Some(o.deep_view()), None => None }),
{
    match existing {
        Some(o) => if o.generation > 0 { o.generation + 1 } else { 1 },
        None => 1,
    }
}

/// The prefix under which a pod's node selector is copied into its labels.
pub open spec fn selector_prefix() -> Seq<char> {
    "nodeselector/"@
}

/// A node selector copied into labels: each key `k` becomes `nodeselector/k`.
pub open spec fn selector_labels(sel: Map<Seq<char>, Seq<char>>) -> Map<Seq<char>, Seq<char>> {
    Map::new(
        |k: Seq<char>| k.len() >= 13 && k.take(13) == selector_prefix() && sel.contains_key(k.skip(13)),
        |k: Seq<char>| sel[k.skip(13)],
    )
}

proof fn lemma_selector_labels_push(s: Seq<(Seq<char>, Seq<char>)>, e: (Seq<char>, Seq<char>))
    ensures
        selector_labels(entries_map(s.push(e))) == selector_labels(entries_map(s)).insert(selector_prefix() + e.0, e.1),
{
    reveal_strlit("nodeselector/");
    assert(s.push(e).drop_last() == s);
    let p = selector_prefix();
    assert((p + e.0).take(13) =~= p);
    assert((p + e.0).skip(13) =~= e.0);
    let l = selector_labels(entries_map(s.push(e)));
    let r = selector_labels(entries_map(s)).insert(p + e.0, e.1);
    assert forall|k: Seq<char>| #[trigger] l.contains_key(k) == r.contains_key(k) by {
        if k.len() >= 13 && k.take(13) == p && k.skip(13) == e.0 {
            assert(k =~= p + e.0);
        }
    }
    assert forall|k: Seq<char>| l.contains_key(k) implies #[trigger] l[k] == r[k] by {
        if k.skip(13) == e.0 {
            assert(k =~= p + e.0);
        } else {
            assert(k != p + e.0);
        }
    }
    assert(selector_labels(entries_map(s.push(e))) =~= selector_labels(entries_map(s)).insert(p + e.0, e.1));
}

/// Copies a node selector into labels, each key prefixed with `nodeselector/`.
fn add_selector_labels(labels: &mut StringMap, sel: &StringMap)
    ensures
        final(labels)@ == old(labels)@.union_prefer_right(selector_labels(sel@)),
{
    let ghost s = sel.entry_views();
    let ghost start = labels@;
    assert(s.take(0) =~= Seq::<(Seq<char>, Seq<char>)>::empty());
    assert(start.union_prefer_right(selector_labels(entries_map(s.take(0)))) =~= start);
    let mut i: usize = 0;
    while i < sel.entries.len()
        invariant
            i <= sel.entries@.len(),
            s == sel.entry_views(),
            labels@ == start.union_prefer_right(selector_labels(entries_map(s.take(i as int)))),
        decreases sel.entries.len() - i,
    {
        let e = &sel.entries[i];
        let key = crate::text::join2("nodeselector/", e.0.as_str());
        proof {
            assert(s.take(i + 1) =~= s.take(i as int).push(s[i as int]));
            lemma_selector_labels_push(s.take(i as int), s[i as int]);
            assert(start.union_prefer_right(selector_labels(entries_map(s.take(i as int))).insert(key@, e.1@)) =~= start.union_prefer_right(selector_labels(entries_map(s.take(i as int)))).insert(key@, e.1@));
        }
        labels.insert(key, e.1.clone());
        i = i + 1;
    }
    assert(s.take(sel.entries@.len() as int) =~= s);
}

/// A pod manifest standing for a pod that podman reports: its name and labels.
pub open spec fn pod_from_info(p: PodmanPodInfoView) -> PodView {
    PodView {
        metadata: ObjectMetaView { name: Some(p.name), namespace: None, labels: Some(p.labels), annotations: None, generation: None },
        spec: None,
    }
}

fn pod_from_info_exec(p: &PodmanPodInfo) -> (res: Pod)
    ensures
        res.deep_view() == pod_from_info(p.deep_view()),
{
    Pod {
        metadata: ObjectMeta { name: Some(p.name.clone()), namespace: None, labels: Some(p.labels.clone()), annotations: None, generation: None },
        spec: None,
    }
}

/// The labels of a manifest (none where it has none).
pub open spec fn labels_or_empty(m: ObjectMetaView) -> Map<Seq<char>, Seq<char>> {
    match m.labels {
        Some(l) => l,
        None => Map::empty(),
    }
}

/// The pod that is deployed: the hash label set to the manifest's hash, and the node selector
/// copied into the labels.
pub open spec fn planned_pod(pod: PodView, hash: Seq<char>) -> PodView {
    let l0 = labels_or_empty(pod.metadata).insert("skate.io/hash"@, hash);
    let l1 = match pod.spec {
        Some(sp) => match sp.node_selector {
            Some(sel) => l0.union_prefer_right(selector_labels(sel)),
            None => l0,
        },
        None => l0,
    };
    PodView { metadata: ObjectMetaView { labels: Some(l1), ..pod.metadata }, ..pod }
}

/// The hash label of a running pod (empty where it has none).
pub open spec fn info_hash(p: PodmanPodInfoView) -> Seq<char> {
    if p.labels.contains_key("skate.io/hash"@) { p.labels["skate.io/hash"@] } else { Seq::empty() }
}

/// The operations that put a pod in place. Pods of the same name beyond the first found are
/// deleted; the first found is left alone when its hash is the new one, it runs and its node
/// takes work, and is otherwise deleted and created anew; with none found the pod is created.
pub open spec fn pod_plan(nodes: Seq<NodeStateView>, pod: PodView, hash: Seq<char>) -> Seq<ScheduledOperationView> {
    let np = SupportedResourcesView::Pod(planned_pod(pod, hash));
    let name = metadata_name_spec(pod.metadata);
    let existing = labelled_pods(nodes, "skate.io/name"@, name.name, name.namespace);
    let culls = if existing.len() <= 1 {
        Seq::empty()
    } else {
        Seq::new((existing.len() - 1) as nat, |j: int| op_view(SupportedResourcesView::Pod(pod_from_info(existing[j + 1].0)), Some(existing[j + 1].1), OpType::Delete, false))
    };
    let main = if existing.len() == 0 {
        seq![op_view(np, None, OpType::Create, false)]
    } else if info_hash(existing[0].0) == hash && existing[0].0.status == PodmanPodStatus::Running && node_schedulable(existing[0].1) {
        seq![op_view(np, Some(existing[0].1), OpType::Unchanged, false)]
    } else {
        seq![op_view(np, Some(existing[0].1), OpType::Delete, false), op_view(np, None, OpType::Create, false)]
    };
    culls + main
}

fn push_op(v: &mut Vec<ScheduledOperation>, op: ScheduledOperation)
    ensures
        final(v).deep_view() == old(v).deep_view().push(op.deep_view()),
{
    v.push(op);
    assert(v.deep_view() =~= old(v).deep_view().push(op.deep_view()));
}

impl DefaultScheduler {
    /// Plans a pod given the hash of its manifest (see `pod_plan`).
    pub fn plan_pod(state: &ClusterState, object: &Pod, new_hash: &str) -> (res: Result<Vec<ScheduledOperation>, SkateError>)
        ensures
            res matches Ok(ops) && ops.deep_view() == pod_plan(state.nodes.deep_view(), object.deep_view(), new_hash@),
    {
        let mut new_pod = object.clone();
        let mut labels = match &object.metadata.labels {
            Some(l) => l.clone(),
            None => StringMap::new(),
        };
        labels.insert(owned("skate.io/hash"), owned(new_hash));
        match &object.spec {
            Some(sp) => match &sp.node_selector {
                Some(sel) => add_selector_labels(&mut labels, sel),
                None => {},
            },
            None => {},
        }
        new_pod.metadata.labels = Some(labels);
        assert(new_pod.deep_view() == planned_pod(object.deep_view(), new_hash@));
        let name = metadata_name(&object.metadata);
        let existing = state.labelled_pods("skate.io/name", name.name.as_str(), name.namespace.as_str());
        let ghost ex = existing.deep_view();
        assert(ex.len() == existing@.len());
        let mut ops: Vec<ScheduledOperation> = Vec::new();
        let mut i: usize = 1;
        while i < existing.len()
            invariant
                1 <= i,
                existing@.len() >= 1 ==> i <= existing@.len(),
                existing@.len() == 0 ==> i == 1,
                ex == existing.deep_view(),
                ex.len() == existing@.len(),
                ops.deep_view().len() == i - 1,
                forall|j: int| 0 <= j < i - 1 ==> #[trigger] ops.deep_view()[j] == op_view(SupportedResourcesView::Pod(pod_from_info(ex[j + 1].0)), Some(ex[j + 1].1), OpType::Delete, false),
            decreases existing.len() - i,
        {
            let p = pod_from_info_exec(&existing[i].0);
            let op = ScheduledOperation::new(OpType::Delete, SupportedResources::Pod(p)).node(existing[i].1.clone());
            push_op(&mut ops, op);
            i = i + 1;
        }
        let ghost culls = ops.deep_view();
        assert(ex.len() >= 1 ==> i == ex.len());
        assert(culls.len() == i - 1);
        if existing.len() == 0 {
            push_op(&mut ops, ScheduledOperation::new(OpType::Create, SupportedResources::Pod(new_pod)));
        } else {
            let prev = match existing[0].0.labels.get("skate.io/hash") {
                Some(h) => h,
                None => String::new(),
            };
            let running = match existing[0].0.status {
                PodmanPodStatus::Running => true,
                _ => false,
            };
            if text_eq(prev.as_str(), new_hash) && running && existing[0].1.schedulable() {
                push_op(&mut ops, ScheduledOperation::new(OpType::Unchanged, SupportedResources::Pod(new_pod)).node(existing[0].1.clone()));
            } else {
                let again = new_pod.clone();
                push_op(&mut ops, ScheduledOperation::new(OpType::Delete, SupportedResources::Pod(new_pod)).node(existing[0].1.clone()));
                push_op(&mut ops, ScheduledOperation::new(OpType::Create, SupportedResources::Pod(again)));
            }
        }
        proof {
            let expected = pod_plan(state.nodes.deep_view(), object.deep_view(), new_hash@);
            let c = if ex.len() <= 1 {
                Seq::empty()
            } else {
                Seq::new((ex.len() - 1) as nat, |j: int| op_view(SupportedResourcesView::Pod(pod_from_info(ex[j + 1].0)), Some(ex[j + 1].1), OpType::Delete, false))
            };
            assert(culls.len() == c.len());
            assert forall|j: int| 0 <= j < culls.len() implies culls[j] == c[j] by {
                assert(culls[j] == op_view(SupportedResourcesView::Pod(pod_from_info(ex[j + 1].0)), Some(ex[j + 1].1), OpType::Delete, false));
            }
            assert(culls =~= c);
            assert(ops.deep_view() =~= expected);
        }
        Ok(ops)
    }
}

/// A manifest's metadata with its generation and hash label set.
pub open spec fn stamped(m: ObjectMetaView, generation: i64, hash: Seq<char>) -> ObjectMetaView {
    ObjectMetaView { generation: Some(generation), labels: Some(labels_or_empty(m).insert("skate.io/hash"@, hash)), ..m }
}

fn stamp(m: &ObjectMeta, generation: i64, hash: &str) -> (res: ObjectMeta)
    ensures
        res.deep_view() == stamped(m.deep_view(), generation, hash@),
{
    let mut labels = match &m.labels {
        Some(l) => l.clone(),
        None => StringMap::new(),
    };
    labels.insert(owned("skate.io/hash"), owned(hash));
    ObjectMeta {
        name: crate::config::clone_opt_text(&m.name),
        namespace: crate::config::clone_opt_text(&m.namespace),
        labels: Some(labels),
        annotations: match &m.annotations {
            Some(a) => Some(a.clone()),
            None => None,
        },
        generation: Some(generation),
    }
}

/// The operations for a resource that every node that takes work holds one copy of.
pub open spec fn node_ops(n: NodeStateView, t: ResourceType, ns: Seq<char>, name: Seq<char>, hash: Seq<char>, r: SupportedResourcesView, clobber: bool) -> Seq<ScheduledOperationView> {
    match first_item(crate::state::node_resources(n), t, ns, name) {
        Some(o) => if !node_schedulable(n) {
            seq![op_view(r, Some(n), OpType::Delete, false)]
        } else if o.manifest_hash == hash {
            seq![op_view(r, Some(n), OpType::Unchanged, false)]
        } else if clobber {
            seq![op_view(r, Some(n), OpType::Clobber, false)]
        } else {
            seq![op_view(r, Some(n), OpType::Delete, false), op_view(r, Some(n), OpType::Create, false)]
        },
        None => if node_schedulable(n) {
            seq![op_view(r, Some(n), OpType::Create, false)]
        } else {
            Seq::empty()
        },
    }
}

/// `node_ops` for every node, in the cluster's order.
pub open spec fn per_node_ops(nodes: Seq<NodeStateView>, t: ResourceType, ns: Seq<char>, name: Seq<char>, hash: Seq<char>, r: SupportedResourcesView, clobber: bool) -> Seq<ScheduledOperationView>
    decreases nodes.len(),
{
    if nodes.len() == 0 {
        Seq::empty()
    } else {
        node_ops(nodes[0], t, ns, name, hash, r, clobber) + per_node_ops(nodes.drop_first(), t, ns, name, hash, r, clobber)
    }
}

fn per_node_ops_exec(state: &ClusterState, t: ResourceType, ns: &str, name: &str, hash: &str, r: &SupportedResources, clobber: bool) -> (res: Vec<ScheduledOperation>)
    ensures
        res.deep_view() == per_node_ops(state.nodes.deep_view(), t, ns@, name@, hash@, r.deep_view(), clobber),
{
    let ghost s = state.nodes.deep_view();
    let ghost rv = r.deep_view();
    let mut out: Vec<ScheduledOperation> = Vec::new();
    assert(s.skip(0) =~= s);
    assert(out.deep_view() + per_node_ops(s, t, ns@, name@, hash@, rv, clobber) =~= per_node_ops(s, t, ns@, name@, hash@, rv, clobber));
    let mut i: usize = 0;
    while i < state.nodes.len()
        invariant
            i <= state.nodes@.len(),
            s == state.nodes.deep_view(),
            rv == r.deep_view(),
            out.deep_view() + per_node_ops(s.skip(i as int), t, ns@, name@, hash@, rv, clobber) == per_node_ops(s, t, ns@, name@, hash@, rv, clobber),
        decreases state.nodes.len() - i,
    {
        let node = &state.nodes[i];
        let ghost nv = node.deep_view();
        assert(s.skip(i as int)[0] == nv);
        assert(s.skip(i as int).drop_first() =~= s.skip(i + 1));
        let ghost before = out.deep_view();
        let sched = node.schedulable();
        match node.find_resource(t, ns, name) {
            Some(o) => {
                if !sched {
                    push_op(&mut out, ScheduledOperation::new(OpType::Delete, r.clone()).node(node.clone()));
                } else if text_eq(o.manifest_hash.as_str(), hash) {
                    push_op(&mut out, ScheduledOperation::new(OpType::Unchanged, r.clone()).node(node.clone()));
                } else if clobber {
                    push_op(&mut out, ScheduledOperation::new(OpType::Clobber, r.clone()).node(node.clone()));
                } else {
                    push_op(&mut out, ScheduledOperation::new(OpType::Delete, r.clone()).node(node.clone()));
                    push_op(&mut out, ScheduledOperation::new(OpType::Create, r.clone()).node(node.clone()));
                }
            },
            None => {
                if sched {
                    push_op(&mut out, ScheduledOperation::new(OpType::Create, r.clone()).node(node.clone()));
                }
            },
        }
        proof {
            let here = node_ops(nv, t, ns@, name@, hash@, rv, clobber);
            assert(out.deep_view() =~= before + here);
            assert((before + here) + per_node_ops(s.skip(i + 1), t, ns@, name@, hash@, rv, clobber) =~= before + (here + per_node_ops(s.skip(i + 1), t, ns@, name@, hash@, rv, clobber)));
        }
        i = i + 1;
    }
    assert(s.skip(i as int).len() == 0);
    assert(out.deep_view() + per_node_ops(s.skip(i as int), t, ns@, name@, hash@, rv, clobber) =~= out.deep_view());
    out
}

/// The generation that a resource of this kind and name gets, from what the cluster holds.
pub open spec fn cluster_generation(nodes: Seq<NodeStateView>, t: ResourceType, ns: Seq<char>, name: Seq<char>) -> i64 {
    next_generation_spec(match first_in_cluster(nodes, t, ns, name) { Some((o, _)) => Some(o), None => None })
}

fn cluster_generation_exec(state: &ClusterState, t: ResourceType, ns: &str, name: &str) -> (res: i64)
    requires
        generations_bounded(state.nodes.deep_view()),
    ensures
        res == cluster_generation(state.nodes.deep_view(), t, ns@, name@),
{
    proof {
        lemma_first_in_cluster_bounded(state.nodes.deep_view(), t, ns@, name@);
    }
    match state.find_in_cluster(t, ns, name) {
        Some((o, _)) => next_generation(Some(&o)),
        None => next_generation(None),
    }
}

/// The plan for a secret: on each node it is created, kept, overwritten in place, or deleted
/// where the node no longer takes work.
pub open spec fn secret_plan(nodes: Seq<NodeStateView>, secret: SecretView, hash: Seq<char>) -> Seq<(NamespacedNameView, Seq<ScheduledOperationView>)> {
    let n = metadata_name_spec(secret.metadata);
    let g = cluster_generation(nodes, ResourceType::Secret, n.namespace, n.name);
    let r = SupportedResourcesView::Secret(SecretView { metadata: stamped(secret.metadata, g, hash), ..secret });
    seq![(n, per_node_ops(nodes, ResourceType::Secret, n.namespace, n.name, hash, r, true))]
}

/// The plan for a resource that each node holds a copy of (service, ingress, cluster issuer):
/// on each node it is created, kept, replaced, or deleted where the node no longer takes work.
pub open spec fn replicated_plan(nodes: Seq<NodeStateView>, key: NamespacedNameView, t: ResourceType, ns: Seq<char>, hash: Seq<char>, r: SupportedResourcesView) -> Seq<(NamespacedNameView, Seq<ScheduledOperationView>)> {
    seq![(key, per_node_ops(nodes, t, ns, key.name, hash, r, false))]
}

/// The service as deployed: stamped with its generation and hash.
pub open spec fn planned_service(nodes: Seq<NodeStateView>, service: ServiceView, hash: Seq<char>) -> SupportedResourcesView {
    let n = metadata_name_spec(service.metadata);
    SupportedResourcesView::Service(ServiceView { metadata: stamped(service.metadata, cluster_generation(nodes, ResourceType::Service, n.namespace, n.name), hash), ..service })
}

/// The ingress as deployed: stamped with its generation and hash.
pub open spec fn planned_ingress(nodes: Seq<NodeStateView>, ingress: IngressView, hash: Seq<char>) -> SupportedResourcesView {
    let n = metadata_name_spec(ingress.metadata);
    SupportedResourcesView::Ingress(IngressView { metadata: stamped(ingress.metadata, cluster_generation(nodes, ResourceType::Ingress, n.namespace, n.name), hash), ..ingress })
}

/// The cluster issuer as deployed: stamped with its generation and hash; issuers live in the
/// `skate` namespace.
pub open spec fn planned_cluster_issuer(nodes: Seq<NodeStateView>, issuer: ClusterIssuerView, hash: Seq<char>) -> SupportedResourcesView {
    let n = metadata_name_spec(issuer.metadata);
    SupportedResourcesView::ClusterIssuer(ClusterIssuerView { metadata: stamped(issuer.metadata, cluster_generation(nodes, ResourceType::ClusterIssuer, "skate"@, n.name), hash), ..issuer })
}

/// Whether a service selects nothing: it has a selector and the selector is empty.
pub open spec fn empty_selector(service: ServiceView) -> bool {
    service.spec matches Some(sp) && (sp.selector matches Some(sel) && sel.dom().len() == 0)
}

/// The plan for a cron job: it runs on one node; it is kept there when the hash is unchanged
/// and the node takes work, and is otherwise deleted there and created anew.
pub open spec fn cronjob_plan(nodes: Seq<NodeStateView>, cron: CronJobView, hash: Seq<char>) -> Seq<(NamespacedNameView, Seq<ScheduledOperationView>)> {
    let n = metadata_name_spec(cron.metadata);
    let g = cluster_generation(nodes, ResourceType::CronJob, n.namespace, n.name);
    let r = SupportedResourcesView::CronJob(CronJobView { metadata: stamped(cron.metadata, g, hash), ..cron });
    let ops = match first_in_cluster(nodes, ResourceType::CronJob, n.namespace, n.name) {
        Some((o, node)) => if o.manifest_hash == hash && node_schedulable(node) {
            seq![op_view(r, Some(node), OpType::Unchanged, false)]
        } else {
            seq![op_view(r, Some(node), OpType::Delete, false), op_view(r, None, OpType::Create, false)]
        },
        None => seq![op_view(r, None, OpType::Create, false)],
    };
    seq![(n, ops)]
}

impl DefaultScheduler {
    /// Plans a secret given the hash of its manifest (see `secret_plan`).
    pub fn plan_secret(state: &ClusterState, secret: &Secret, new_hash: &str) -> (res: Result<ApplyPlan, SkateError>)
        requires
            generations_bounded(state.nodes.deep_view()),
        ensures
            res matches Ok(p) && p.entries() == secret_plan(state.nodes.deep_view(), secret.deep_view(), new_hash@),
    {
        let n = metadata_name(&secret.metadata);
        let g = cluster_generation_exec(state, ResourceType::Secret, n.namespace.as_str(), n.name.as_str());
        let new_secret = Secret {
            metadata: stamp(&secret.metadata, g, new_hash),
            data: match &secret.data { Some(d) => Some(d.clone()), None => None },
            string_data: match &secret.string_data { Some(d) => Some(d.clone()), None => None },
        };
        let r = SupportedResources::Secret(new_secret);
        let ops = per_node_ops_exec(state, ResourceType::Secret, n.namespace.as_str(), n.name.as_str(), new_hash, &r, true);
        Ok(ApplyPlan::single(n, ops))
    }

    /// Plans a service given the hash of its manifest; a service whose selector is empty is
    /// refused.
    pub fn plan_service(state: &ClusterState, service: &Service, new_hash: &str) -> (res: Result<ApplyPlan, SkateError>)
        requires
            generations_bounded(state.nodes.deep_view()),
        ensures
            empty_selector(service.deep_view()) ==> (res matches Err(e) && e.message() == "service selector can not be empty"@),
            !empty_selector(service.deep_view()) ==> (res matches Ok(p) && p.entries() == replicated_plan(
                state.nodes.deep_view(),
                metadata_name_spec(service.metadata.deep_view()),
                ResourceType::Service,
                metadata_name_spec(service.metadata.deep_view()).namespace,
                new_hash@,
                planned_service(state.nodes.deep_view(), service.deep_view(), new_hash@),
            )),
    {
        match &service.spec {
            Some(sp) => match &sp.selector {
                Some(sel) => {
                    if sel.len() == 0 {
                        proof {
                            assert(sel.entry_views().len() == 0);
                            assert(sel@ =~= Map::<Seq<char>, Seq<char>>::empty());
                        }
                        proof {
                            reveal_strlit("service selector can not be empty");
                        }
                        return Err(SkateError::msg("service selector can not be empty"));
                    }
                    proof {
                        let ev = sel.entry_views();
                        assert(ev.len() > 0);
                        assert(ev.take(ev.len() as int) =~= ev);
                        assert(ev.drop_last() =~= ev.take(ev.len() - 1));
                        crate::labels::lemma_entries_map_finite(ev);
                        assert(sel@.contains_key(ev.last().0));
                    }
                },
                None => {},
            },
            None => {},
        }
        let n = metadata_name(&service.metadata);
        let g = cluster_generation_exec(state, ResourceType::Service, n.namespace.as_str(), n.name.as_str());
        let new_service = Service {
            metadata: stamp(&service.metadata, g, new_hash),
            spec: match &service.spec { Some(sp) => Some(sp.clone()), None => None },
        };
        let r = SupportedResources::Service(new_service);
        let ops = per_node_ops_exec(state, ResourceType::Service, n.namespace.as_str(), n.name.as_str(), new_hash, &r, false);
        Ok(ApplyPlan::single(n, ops))
    }

    /// Plans an ingress given the hash of its manifest.
    pub fn plan_ingress(state: &ClusterState, ingress: &Ingress, new_hash: &str) -> (res: Result<ApplyPlan, SkateError>)
        requires
            generations_bounded(state.nodes.deep_view()),
        ensures
            res matches Ok(p) && p.entries() == replicated_plan(
                state.nodes.deep_view(),
                metadata_name_spec(ingress.metadata.deep_view()),
                ResourceType::Ingress,
                metadata_name_spec(ingress.metadata.deep_view()).namespace,
                new_hash@,
                planned_ingress(state.nodes.deep_view(), ingress.deep_view(), new_hash@),
            ),
    {
        let n = metadata_name(&ingress.metadata);
        let g = cluster_generation_exec(state, ResourceType::Ingress, n.namespace.as_str(), n.name.as_str());
        let new_ingress = Ingress {
            metadata: stamp(&ingress.metadata, g, new_hash),
            spec: match &ingress.spec { Some(sp) => Some(sp.clone()), None => None },
        };
        let r = SupportedResources::Ingress(new_ingress);
        let ops = per_node_ops_exec(state, ResourceType::Ingress, n.namespace.as_str(), n.name.as_str(), new_hash, &r, false);
        Ok(ApplyPlan::single(n, ops))
    }

    /// Plans a cluster issuer given the hash of its manifest; issuers are looked up in the
    /// `skate` namespace.
    pub fn plan_cluster_issuer(state: &ClusterState, issuer: &ClusterIssuer, new_hash: &str) -> (res: Result<ApplyPlan, SkateError>)
        requires
            generations_bounded(state.nodes.deep_view()),
        ensures
            res matches Ok(p) && p.entries() == replicated_plan(
                state.nodes.deep_view(),
                metadata_name_spec(issuer.metadata.deep_view()),
                ResourceType::ClusterIssuer,
                "skate"@,
                new_hash@,
                planned_cluster_issuer(state.nodes.deep_view(), issuer.deep_view(), new_hash@),
            ),
    {
        let n = metadata_name(&issuer.metadata);
        let g = cluster_generation_exec(state, ResourceType::ClusterIssuer, "skate", n.name.as_str());
        let new_issuer = ClusterIssuer {
            metadata: stamp(&issuer.metadata, g, new_hash),
            spec: match &issuer.spec { Some(sp) => Some(sp.clone()), None => None },
        };
        let r = SupportedResources::ClusterIssuer(new_issuer);
        let ops = per_node_ops_exec(state, ResourceType::ClusterIssuer, "skate", n.name.as_str(), new_hash, &r, false);
        Ok(ApplyPlan::single(n, ops))
    }

    /// Plans a cron job given the hash of its manifest (see `cronjob_plan`).
    pub fn plan_cronjob(state: &ClusterState, cron: &CronJob, new_hash: &str) -> (res: Result<ApplyPlan, SkateError>)
        requires
            generations_bounded(state.nodes.deep_view()),
        ensures
            res matches Ok(p) && p.entries() == cronjob_plan(state.nodes.deep_view(), cron.deep_view(), new_hash@),
    {
        let n = metadata_name(&cron.metadata);
        proof {
            lemma_first_in_cluster_bounded(state.nodes.deep_view(), ResourceType::CronJob, n.namespace@, n.name@);
        }
        let existing = state.find_in_cluster(ResourceType::CronJob, n.namespace.as_str(), n.name.as_str());
        let g = match &existing {
            Some((o, _)) => next_generation(Some(o)),
            None => next_generation(None),
        };
        let new_cron = CronJob {
            metadata: stamp(&cron.metadata, g, new_hash),
            spec: match &cron.spec { Some(sp) => Some(sp.clone()), None => None },
        };
        let r = SupportedResources::CronJob(new_cron);
        let ghost rv = r.deep_view();
        let ghost expected = cronjob_plan(state.nodes.deep_view(), cron.deep_view(), new_hash@);
        assert(rv == SupportedResourcesView::CronJob(CronJobView { metadata: stamped(cron.metadata.deep_view(), g, new_hash@), ..cron.deep_view() }));
        let mut ops: Vec<ScheduledOperation> = Vec::new();
        match existing {
            Some((o, node)) => {
                if text_eq(o.manifest_hash.as_str(), new_hash) && node.schedulable() {
                    push_op(&mut ops, ScheduledOperation::new(OpType::Unchanged, r).node(node));
                } else {
                    let again = r.clone();
                    push_op(&mut ops, ScheduledOperation::new(OpType::Delete, r).node(node));
                    push_op(&mut ops, ScheduledOperation::new(OpType::Create, again));
                }
            },
            None => {
                push_op(&mut ops, ScheduledOperation::new(OpType::Create, r));
            },
        }
        assert(ops.deep_view() =~= expected[0].1);
        Ok(ApplyPlan::single(n, ops))
    }
}

/// Optional text, or empty text where there is none.
pub open spec fn text_or_empty(o: Option<Seq<char>>) -> Seq<char> {
    match o {
        Some(t) => t,
        None => Seq::empty(),
    }
}

/// The metadata a manifest has when none is given.
pub open spec fn default_meta() -> ObjectMetaView {
    ObjectMetaView { name: None, namespace: None, labels: None, annotations: None, generation: None }
}

/// The pod spec a manifest has when none is given.
pub open spec fn default_pod_spec() -> PodSpecView {
    PodSpecView { containers: Seq::empty(), volumes: None, node_selector: None, host_network: None, restart_policy: None }
}

fn default_meta_exec() -> (res: ObjectMeta)
    ensures
        res.deep_view() == default_meta(),
{
    ObjectMeta { name: None, namespace: None, labels: None, annotations: None, generation: None }
}

fn default_pod_spec_exec() -> (res: PodSpec)
    ensures
        res.deep_view() == default_pod_spec(),
{
    let containers: Vec<crate::manifest::Container> = Vec::new();
    assert(containers.deep_view() =~= Seq::<crate::manifest::ContainerView>::empty());
    PodSpec { containers, volumes: None, node_selector: None, host_network: None, restart_policy: None }
}

/// The template metadata and pod spec of a deployment (defaults where missing).
pub open spec fn deployment_template(d: DeploymentView) -> (ObjectMetaView, PodSpecView) {
    match d.spec {
        Some(sp) => (
            match sp.template.metadata { Some(m) => m, None => default_meta() },
            match sp.template.spec { Some(p) => p, None => default_pod_spec() },
        ),
        None => (default_meta(), default_pod_spec()),
    }
}

/// The name of the pod for replica `i` of a deployment: `dpl-<deployment>-<i>`.
pub open spec fn replica_pod_name(d: DeploymentView, i: nat) -> Seq<char> {
    "dpl-"@ + text_or_empty(d.metadata.name) + "-"@ + crate::text::decimal(i)
}

/// The namespaced name of the pod for replica `i` of a deployment.
pub open spec fn replica_ns_name(d: DeploymentView, i: nat) -> NamespacedNameView {
    NamespacedNameView { name: replica_pod_name(d, i), namespace: text_or_empty(d.metadata.namespace) }
}

/// The pod for replica `i` of a deployment: the template, named `dpl-<deployment>-<i>.<namespace>`
/// in the deployment's namespace, labelled with its name, its deployment and its replica number.
pub open spec fn replica_pod(d: DeploymentView, i: nat) -> PodView {
    let (meta0, spec) = deployment_template(d);
    let pname = replica_pod_name(d, i);
    let ns = text_or_empty(d.metadata.namespace);
    let labels = labels_or_empty(meta0).insert("skate.io/name"@, pname).insert("skate.io/deployment"@, text_or_empty(d.metadata.name)).insert(
        "skate.io/replica"@,
        crate::text::decimal(i),
    );
    PodView {
        metadata: ObjectMetaView { name: Some(pname + "."@ + ns), namespace: Some(ns), labels: Some(labels), ..meta0 },
        spec: Some(spec),
    }
}

fn opt_text_or_empty(o: &Option<String>) -> (res: String)
    ensures
        res@ == text_or_empty(match o { Some(t) => Some(t@), None => None }),
{
    match o {
        Some(t) => t.clone(),
        None => String::new(),
    }
}

impl DefaultScheduler {
    /// The pod for replica `i` of a deployment (see `replica_pod`); its manifest hash is what
    /// `plan_deployment` needs for it.
    pub fn deployment_replica_pod(d: &Deployment, i: u32) -> (res: Pod)
        ensures
            res.deep_view() == replica_pod(d.deep_view(), i as nat),
    {
        let (meta0, spec) = match &d.spec {
            Some(sp) => (
                match &sp.template.metadata { Some(m) => m.clone(), None => default_meta_exec() },
                match &sp.template.spec { Some(p) => p.clone(), None => default_pod_spec_exec() },
            ),
            None => (default_meta_exec(), default_pod_spec_exec()),
        };
        let dn = opt_text_or_empty(&d.metadata.name);
        let ns = opt_text_or_empty(&d.metadata.namespace);
        let mut pname = owned("dpl-");
        pname.append(dn.as_str());
        pname.append("-");
        crate::text::push_decimal(&mut pname, i as u64);
        let mut labels = match &meta0.labels {
            Some(l) => l.clone(),
            None => StringMap::new(),
        };
        labels.insert(owned("skate.io/name"), pname.clone());
        labels.insert(owned("skate.io/deployment"), dn);
        labels.insert(owned("skate.io/replica"), crate::text::u64_to_text(i as u64));
        let full = crate::text::join3(pname.as_str(), ".", ns.as_str());
        Pod {
            metadata: ObjectMeta {
                name: Some(full),
                namespace: Some(ns),
                labels: Some(labels),
                annotations: meta0.annotations,
                generation: meta0.generation,
            },
            spec: Some(spec),
        }
    }
}

/// A running pod of a deployment with its node and its replica number (from its
/// `skate.io/replica` label; 0 where that does not parse).
pub open spec fn with_replica(e: (PodmanPodInfoView, NodeStateView)) -> (PodmanPodInfoView, NodeStateView, u32) {
    let label = if e.0.labels.contains_key("skate.io/replica"@) { e.0.labels["skate.io/replica"@] } else { "0"@ };
    (e.0, e.1, match crate::text::parse_u32_spec(label) { Some(r) => r, None => 0 })
}

/// Inserts into a list sorted by replica number, after every entry with a number no larger.
pub open spec fn insert_by_replica(sorted: Seq<(PodmanPodInfoView, NodeStateView, u32)>, x: (PodmanPodInfoView, NodeStateView, u32)) -> Seq<(PodmanPodInfoView, NodeStateView, u32)>
    decreases sorted.len(),
{
    if sorted.len() == 0 || sorted.last().2 <= x.2 {
        sorted.push(x)
    } else {
        insert_by_replica(sorted.drop_last(), x).push(sorted.last())
    }
}

/// A stable sort by replica number, lowest first.
pub open spec fn sort_by_replica(s: Seq<(PodmanPodInfoView, NodeStateView, u32)>) -> Seq<(PodmanPodInfoView, NodeStateView, u32)>
    decreases s.len(),
{
    if s.len() == 0 {
        s
    } else {
        insert_by_replica(sort_by_replica(s.drop_last()), s.last())
    }
}

/// A sequence in reverse order.
pub open spec fn reversed<T>(s: Seq<T>) -> Seq<T> {
    Seq::new(s.len(), |i: int| s[s.len() - 1 - i])
}

fn insert_replica(v: &mut Vec<(PodmanPodInfo, NodeState, u32)>, x: (PodmanPodInfo, NodeState, u32))
    ensures
        final(v).deep_view() == insert_by_replica(old(v).deep_view(), x.deep_view()),
    decreases old(v).len(),
{
    let n = v.len();
    if n == 0 || v[n - 1].2 <= x.2 {
        let ghost before = v.deep_view();
        v.push(x);
        assert(v.deep_view() =~= before.push(x.deep_view()));
    } else {
        let ghost before = v.deep_view();
        let last = v.pop().unwrap();
        assert(v.deep_view() =~= before.drop_last());
        let ghost lv = last.deep_view();
        assert(lv == before.last());
        insert_replica(v, x);
        let ghost mid = v.deep_view();
        v.push(last);
        assert(v.deep_view() =~= mid.push(lv));
    }
}

/// A deployment's running pods, highest replica number first (ties in reverse of the order
/// found).
pub open spec fn deployment_pods_by_replica(nodes: Seq<NodeStateView>, name: Seq<char>, ns: Seq<char>) -> Seq<(PodmanPodInfoView, NodeStateView, u32)> {
    reversed(sort_by_replica(labelled_pods(nodes, "skate.io/deployment"@, name, ns).map_values(|e: (PodmanPodInfoView, NodeStateView)| with_replica(e))))
}

/// Adds the deletion of each surplus pod: those whose replica number is not below `replicas`.
pub open spec fn cull_fold(
    entries: Seq<(NamespacedNameView, Seq<ScheduledOperationView>)>,
    culls: Seq<(PodmanPodInfoView, NodeStateView, u32)>,
    replicas: u32,
) -> Seq<(NamespacedNameView, Seq<ScheduledOperationView>)>
    decreases culls.len(),
{
    if culls.len() == 0 {
        entries
    } else {
        let e = cull_fold(entries, culls.drop_last(), replicas);
        let c = culls.last();
        if c.2 >= replicas {
            plan_add(e, crate::naming::ns_name_of_text(c.0.name), seq![op_view(SupportedResourcesView::Pod(pod_from_info(c.0)), Some(c.1), OpType::Delete, false)])
        } else {
            e
        }
    }
}

/// Adds the plan of each of the first `n` replica pods under the pod's name.
pub open spec fn replica_fold(
    entries: Seq<(NamespacedNameView, Seq<ScheduledOperationView>)>,
    nodes: Seq<NodeStateView>,
    d: DeploymentView,
    hashes: Seq<Seq<char>>,
    n: nat,
) -> Seq<(NamespacedNameView, Seq<ScheduledOperationView>)>
    decreases n,
{
    if n == 0 {
        entries
    } else {
        let e = replica_fold(entries, nodes, d, hashes, (n - 1) as nat);
        plan_add(e, replica_ns_name(d, (n - 1) as nat), pod_plan(nodes, replica_pod(d, (n - 1) as nat), hashes[n - 1]))
    }
}

/// The number of replicas a deployment asks for (0 where it says nothing).
pub open spec fn replica_count(d: DeploymentView) -> i32 {
    match d.spec {
        Some(sp) => match sp.replicas {
            Some(r) => r,
            None => 0,
        },
        None => 0,
    }
}

/// The plan for a deployment, before any reordering: the deployment manifest goes to every node
/// (silently); surplus pods are deleted when there are more pods than replicas; each replica
/// pod is planned with its hash.
pub open spec fn deployment_generic_plan(nodes: Seq<NodeStateView>, d: DeploymentView, hashes: Seq<Seq<char>>) -> Seq<(NamespacedNameView, Seq<ScheduledOperationView>)> {
    let dn = text_or_empty(d.metadata.name);
    let ns = text_or_empty(d.metadata.namespace);
    let g = cluster_generation(nodes, ResourceType::Deployment, ns, dn);
    let d2 = DeploymentView { metadata: ObjectMetaView { generation: Some(g), ..d.metadata }, ..d };
    let defaults = Seq::new(nodes.len(), |i: int| op_view(SupportedResourcesView::Deployment(d2), Some(nodes[i]), OpType::Create, true));
    let start = seq![(metadata_name_spec(d2.metadata), defaults)];
    let replicas = replica_count(d);
    let existing = deployment_pods_by_replica(nodes, dn, ns);
    let culled = if replicas >= 0 && existing.len() > replicas { cull_fold(start, existing, replicas as u32) } else { start };
    replica_fold(culled, nodes, d, hashes, if replicas > 0 { replicas as nat } else { 0 })
}

fn with_generation(m: &ObjectMeta, g: i64) -> (res: ObjectMeta)
    ensures
        res.deep_view() == (ObjectMetaView { generation: Some(g), ..m.deep_view() }),
{
    ObjectMeta {
        name: crate::config::clone_opt_text(&m.name),
        namespace: crate::config::clone_opt_text(&m.namespace),
        labels: match &m.labels { Some(l) => Some(l.clone()), None => None },
        annotations: match &m.annotations { Some(a) => Some(a.clone()), None => None },
        generation: Some(g),
    }
}

fn replica_label(p: &PodmanPodInfo) -> (res: u32)
    ensures
        res == with_replica((p.deep_view(), arbitrary())).2,
{
    let label = match p.labels.get("skate.io/replica") {
        Some(l) => l,
        None => owned("0"),
    };
    match crate::text::parse_u32(label.as_str()) {
        Some(r) => r,
        None => 0,
    }
}

fn deployment_pods_exec(state: &ClusterState, name: &str, ns: &str) -> (res: Vec<(PodmanPodInfo, NodeState, u32)>)
    ensures
        res.deep_view() == deployment_pods_by_replica(state.nodes.deep_view(), name@, ns@),
{
    let found = state.labelled_pods("skate.io/deployment", name, ns);
    let ghost f = found.deep_view();
    let ghost mapped = f.map_values(|e: (PodmanPodInfoView, NodeStateView)| with_replica(e));
    let mut sorted: Vec<(PodmanPodInfo, NodeState, u32)> = Vec::new();
    assert(mapped.take(0) =~= Seq::<(PodmanPodInfoView, NodeStateView, u32)>::empty());
    assert(sorted.deep_view() =~= Seq::<(PodmanPodInfoView, NodeStateView, u32)>::empty());
    let mut i: usize = 0;
    while i < found.len()
        invariant
            i <= found@.len(),
            f == found.deep_view(),
            f.len() == found@.len(),
            mapped == f.map_values(|e: (PodmanPodInfoView, NodeStateView)| with_replica(e)),
            sorted.deep_view() == sort_by_replica(mapped.take(i as int)),
        decreases found.len() - i,
    {
        let e = &found[i];
        let r = replica_label(&e.0);
        let x = (e.0.clone(), e.1.clone(), r);
        proof {
            assert(x.deep_view() == with_replica(f[i as int]));
            assert(mapped.take(i + 1).drop_last() =~= mapped.take(i as int));
            assert(mapped.take(i + 1).last() == mapped[i as int]);
        }
        insert_replica(&mut sorted, x);
        i = i + 1;
    }
    assert(mapped.take(found@.len() as int) =~= mapped);
    let ghost sv = sorted.deep_view();
    let mut out: Vec<(PodmanPodInfo, NodeState, u32)> = Vec::new();
    let mut j: usize = sorted.len();
    while j > 0
        invariant
            j <= sorted@.len(),
            sv == sorted.deep_view(),
            sv.len() == sorted@.len(),
            out.deep_view().len() == sv.len() - j,
            forall|k: int| 0 <= k < sv.len() - j ==> #[trigger] out.deep_view()[k] == sv[sv.len() - 1 - k],
        decreases j,
    {
        let e = &sorted[j - 1];
        let ghost before = out.deep_view();
        out.push((e.0.clone(), e.1.clone(), e.2));
        assert(out.deep_view() =~= before.push(sv[j - 1]));
        j = j - 1;
    }
    assert(out.deep_view() =~= reversed(sv));
    out
}

impl DefaultScheduler {
    /// Plans a deployment without reordering, given the hash of each replica pod's manifest
    /// (see `deployment_generic_plan`); a deployment without a name is refused.
    pub fn plan_deployment_generic(state: &ClusterState, d: &Deployment, replica_hashes: &Vec<String>) -> (res: Result<ApplyPlan, SkateError>)
        requires
            generations_bounded(state.nodes.deep_view()),
            replica_hashes@.len() == (if replica_count(d.deep_view()) > 0 { replica_count(d.deep_view()) as int } else { 0 }),
        ensures
            text_or_empty(d.deep_view().metadata.name).len() == 0 ==> (res matches Err(e) && e.message() == "no deployment name"@),
            text_or_empty(d.deep_view().metadata.name).len() > 0 ==> (res matches Ok(p) && p.entries() == deployment_generic_plan(
                state.nodes.deep_view(),
                d.deep_view(),
                crate::text::views(replica_hashes@),
            )),
    {
        let dn = opt_text_or_empty(&d.metadata.name);
        let ns = opt_text_or_empty(&d.metadata.namespace);
        let g = cluster_generation_exec(state, ResourceType::Deployment, ns.as_str(), dn.as_str());
        if dn.as_str().unicode_len() == 0 {
            return Err(SkateError::msg("no deployment name"));
        }
        let d2 = Deployment {
            metadata: with_generation(&d.metadata, g),
            spec: match &d.spec { Some(sp) => Some(sp.clone()), None => None },
        };
        let ghost nodes = state.nodes.deep_view();
        let ghost d2v = d2.deep_view();
        let mut defaults: Vec<ScheduledOperation> = Vec::new();
        let mut i: usize = 0;
        while i < state.nodes.len()
            invariant
                i <= state.nodes@.len(),
                nodes == state.nodes.deep_view(),
                nodes.len() == state.nodes@.len(),
                d2v == d2.deep_view(),
                defaults.deep_view().len() == i,
                forall|k: int| 0 <= k < i ==> #[trigger] defaults.deep_view()[k] == op_view(SupportedResourcesView::Deployment(d2v), Some(nodes[k]), OpType::Create, true),
            decreases state.nodes.len() - i,
        {
            let op = ScheduledOperation::new(OpType::Create, SupportedResources::Deployment(d2.clone())).silent().node(state.nodes[i].clone());
            push_op(&mut defaults, op);
            i = i + 1;
        }
        let ghost expected_defaults = Seq::new(nodes.len(), |k: int| op_view(SupportedResourcesView::Deployment(d2v), Some(nodes[k]), OpType::Create, true));
        assert(defaults.deep_view() =~= expected_defaults);
        let mut plan = ApplyPlan::single(metadata_name(&d2.metadata), defaults);
        let replicas: i32 = match &d.spec {
            Some(sp) => match sp.replicas {
                Some(r) => r,
                None => 0,
            },
            None => 0,
        };
        let existing = deployment_pods_exec(state, dn.as_str(), ns.as_str());
        let ghost ex = existing.deep_view();
        assert(ex.len() == existing@.len());
        let ghost start = plan.entries();
        if replicas >= 0 && existing.len() > replicas as usize {
            let mut c: usize = 0;
            assert(ex.take(0) =~= Seq::<(PodmanPodInfoView, NodeStateView, u32)>::empty());
            while c < existing.len()
                invariant
                    c <= existing@.len(),
                    ex == existing.deep_view(),
                    ex.len() == existing@.len(),
                    replicas >= 0,
                    plan.entries() == cull_fold(start, ex.take(c as int), replicas as u32),
                decreases existing.len() - c,
            {
                let e = &existing[c];
                proof {
                    assert(ex.take(c + 1).drop_last() =~= ex.take(c as int));
                    assert(ex.take(c + 1).last() == ex[c as int]);
                }
                if e.2 >= replicas as u32 {
                    let p = pod_from_info_exec(&e.0);
                    let key = NamespacedName::from_text(e.0.name.as_str());
                    let mut ops: Vec<ScheduledOperation> = Vec::new();
                    push_op(&mut ops, ScheduledOperation::new(OpType::Delete, SupportedResources::Pod(p)).node(e.1.clone()));
                    assert(ops.deep_view() =~= seq![op_view(SupportedResourcesView::Pod(pod_from_info(ex[c as int].0)), Some(ex[c as int].1), OpType::Delete, false)]);
                    plan.add(key, ops);
                }
                c = c + 1;
            }
            assert(ex.take(existing@.len() as int) =~= ex);
        }
        let ghost culled = plan.entries();
        let n: u32 = if replicas > 0 { replicas as u32 } else { 0 };
        let mut r: u32 = 0;
        while r < n
            invariant
                r <= n,
                n == (if replica_count(d.deep_view()) > 0 { replica_count(d.deep_view()) as nat } else { 0 }),
                replica_hashes@.len() == n,
                dn@ == text_or_empty(d.deep_view().metadata.name),
                ns@ == text_or_empty(d.deep_view().metadata.namespace),
                generations_bounded(state.nodes.deep_view()),
                plan.entries() == replica_fold(culled, state.nodes.deep_view(), d.deep_view(), crate::text::views(replica_hashes@), r as nat),
            decreases n - r,
        {
            let pod = Self::deployment_replica_pod(d, r);
            let ops = match Self::plan_pod(state, &pod, replica_hashes[r as usize].as_str()) {
                Ok(o) => o,
                Err(e) => return Err(e),
            };
            let mut pname = owned("dpl-");
            pname.append(dn.as_str());
            pname.append("-");
            crate::text::push_decimal(&mut pname, r as u64);
            let key = NamespacedName { name: pname, namespace: ns.clone() };
            assert(key.deep_view() == replica_ns_name(d.deep_view(), r as nat));
            assert(crate::text::views(replica_hashes@)[r as int] == replica_hashes@[r as int]@);
            plan.add(key, ops);
            r = r + 1;
        }
        Ok(plan)
    }
}

/// Every operation of a plan's entries, entry after entry.
pub open spec fn all_ops(entries: Seq<(NamespacedNameView, Seq<ScheduledOperationView>)>) -> Seq<ScheduledOperationView>
    decreases entries.len(),
{
    if entries.len() == 0 {
        Seq::empty()
    } else {
        all_ops(entries.drop_last()) + entries.last().1
    }
}

/// The rank of an operation when a deployment is recreated: deletions first, then creations,
/// then everything else (unchanged operations among them).
pub open spec fn recreate_rank(op: OpType) -> int {
    match op {
        OpType::Delete => 0,
        OpType::Create => 1,
        _ => 2,
    }
}

/// The operations of a given rank, in their order.
pub open spec fn ops_of_rank(ops: Seq<ScheduledOperationView>, rank: int) -> Seq<ScheduledOperationView>
    decreases ops.len(),
{
    if ops.len() == 0 {
        Seq::empty()
    } else if recreate_rank(ops.last().operation) == rank {
        ops_of_rank(ops.drop_last(), rank).push(ops.last())
    } else {
        ops_of_rank(ops.drop_last(), rank)
    }
}

/// Operations reordered for a recreate: deletions, then creations, then the others (unchanged
/// operations among them), each group in its original order.
pub open spec fn recreate_order(ops: Seq<ScheduledOperationView>) -> Seq<ScheduledOperationView> {
    ops_of_rank(ops, 0) + ops_of_rank(ops, 1) + ops_of_rank(ops, 2)
}

proof fn lemma_ops_of_rank_has_rank(ops: Seq<ScheduledOperationView>, rank: int)
    ensures
        forall|i: int| 0 <= i < ops_of_rank(ops, rank).len() ==> recreate_rank(#[trigger] ops_of_rank(ops, rank)[i].operation) == rank,
        ops_of_rank(ops, rank).len() <= ops.len(),
    decreases ops.len(),
{
    if ops.len() > 0 {
        lemma_ops_of_rank_has_rank(ops.drop_last(), rank);
        let r = ops_of_rank(ops, rank);
        let p = ops_of_rank(ops.drop_last(), rank);
        if recreate_rank(ops.last().operation) == rank {
            assert forall|i: int| 0 <= i < r.len() implies recreate_rank(#[trigger] r[i].operation) == rank by {
                if i < p.len() {
                    assert(r[i] == p[i]);
                }
            }
        }
    }
}

proof fn lemma_ops_of_rank_partition(ops: Seq<ScheduledOperationView>)
    ensures
        ops_of_rank(ops, 0).len() + ops_of_rank(ops, 1).len() + ops_of_rank(ops, 2).len() == ops.len(),
    decreases ops.len(),
{
    if ops.len() > 0 {
        lemma_ops_of_rank_partition(ops.drop_last());
    }
}

/// A recreated deployment's operations come deletions first, then creations, then the rest
/// (unchanged operations among them), and none is lost or added: the reordering keeps the number of operations, and every operation before
/// another has a rank no higher than it.
pub proof fn lemma_recreate_order(ops: Seq<ScheduledOperationView>)
    ensures
        recreate_order(ops).len() == ops.len(),
        forall|i: int, j: int| 0 <= i < j < recreate_order(ops).len() ==> recreate_rank(#[trigger] recreate_order(ops)[i].operation) <= recreate_rank(#[trigger] recreate_order(ops)[j].operation),
{
    lemma_ops_of_rank_partition(ops);
    lemma_ops_of_rank_has_rank(ops, 0);
    lemma_ops_of_rank_has_rank(ops, 1);
    lemma_ops_of_rank_has_rank(ops, 2);
    let a = ops_of_rank(ops, 0);
    let b = ops_of_rank(ops, 1);
    let c = ops_of_rank(ops, 2);
    let r = recreate_order(ops);
    assert forall|i: int| 0 <= i < r.len() implies recreate_rank(#[trigger] r[i].operation) == (if i < a.len() { 0int } else if i < a.len() + b.len() { 1int } else { 2int }) by {
        if i < a.len() {
            assert(r[i] == a[i]);
        } else if i < a.len() + b.len() {
            assert(r[i] == b[i - a.len()]);
        } else {
            assert(r[i] == c[i - a.len() - b.len()]);
        }
    }
}

proof fn lemma_ops_of_rank_multiset(ops: Seq<ScheduledOperationView>)
    ensures
        ops_of_rank(ops, 0).to_multiset().add(ops_of_rank(ops, 1).to_multiset()).add(ops_of_rank(ops, 2).to_multiset())
            == ops.to_multiset(),
    decreases ops.len(),
{
    broadcast use vstd::seq_lib::group_to_multiset_ensures;
    if ops.len() == 0 {
        assert(ops_of_rank(ops, 0).to_multiset() =~= vstd::multiset::Multiset::empty());
        assert(ops_of_rank(ops, 1).to_multiset() =~= vstd::multiset::Multiset::empty());
        assert(ops_of_rank(ops, 2).to_multiset() =~= vstd::multiset::Multiset::empty());
        assert(ops.to_multiset() =~= vstd::multiset::Multiset::empty());
    } else {
        let p = ops.drop_last();
        let x = ops.last();
        lemma_ops_of_rank_multiset(p);
        assert(ops =~= p.push(x));
        let r = recreate_rank(x.operation);
        assert(0 <= r <= 2);
        assert(ops_of_rank(ops, 0).to_multiset().add(ops_of_rank(ops, 1).to_multiset()).add(ops_of_rank(ops, 2).to_multiset())
            =~= ops_of_rank(p, 0).to_multiset().add(ops_of_rank(p, 1).to_multiset()).add(ops_of_rank(p, 2).to_multiset()).insert(x));
    }
}

/// Recreating a deployment loses and adds no operation: the reordered operations are the same
/// operations, each as often as before.
pub proof fn lemma_recreate_order_permutes(ops: Seq<ScheduledOperationView>)
    ensures
        recreate_order(ops).to_multiset() == ops.to_multiset(),
{
    lemma_ops_of_rank_multiset(ops);
    let a = ops_of_rank(ops, 0);
    let b = ops_of_rank(ops, 1);
    let c = ops_of_rank(ops, 2);
    vstd::seq_lib::lemma_multiset_commutative(a, b);
    vstd::seq_lib::lemma_multiset_commutative(a + b, c);
}

fn rank_of(op: OpType) -> (res: u8)
    ensures
        res as int == recreate_rank(op),
{
    match op {
        OpType::Delete => 0,
        OpType::Create => 1,
        _ => 2,
    }
}

fn select_rank(ops: &Vec<ScheduledOperation>, rank: u8, out: &mut Vec<ScheduledOperation>)
    ensures
        final(out).deep_view() == old(out).deep_view() + ops_of_rank(ops.deep_view(), rank as int),
{
    let ghost s = ops.deep_view();
    let ghost start = out.deep_view();
    assert(s.take(0) =~= Seq::<ScheduledOperationView>::empty());
    assert(start + ops_of_rank(s.take(0), rank as int) =~= start);
    let mut i: usize = 0;
    while i < ops.len()
        invariant
            i <= ops@.len(),
            s == ops.deep_view(),
            s.len() == ops@.len(),
            out.deep_view() == start + ops_of_rank(s.take(i as int), rank as int),
        decreases ops.len() - i,
    {
        proof {
            assert(s.take(i + 1).drop_last() =~= s.take(i as int));
            assert(s.take(i + 1).last() == s[i as int]);
        }
        if rank_of(ops[i].operation) == rank {
            let ghost before = out.deep_view();
            push_op(out, ops[i].clone());
            assert(out.deep_view() =~= start + ops_of_rank(s.take(i + 1), rank as int));
        }
        i = i + 1;
    }
    assert(s.take(ops@.len() as int) =~= s);
}

fn flatten_plan(plan: &ApplyPlan) -> (res: Vec<ScheduledOperation>)
    ensures
        res.deep_view() == all_ops(plan.entries()),
{
    let ghost e = plan.entries();
    let mut out: Vec<ScheduledOperation> = Vec::new();
    assert(e.take(0) =~= Seq::<(NamespacedNameView, Seq<ScheduledOperationView>)>::empty());
    assert(out.deep_view() =~= Seq::<ScheduledOperationView>::empty());
    let mut i: usize = 0;
    while i < plan.actions.len()
        invariant
            i <= plan.actions@.len(),
            e == plan.entries(),
            e.len() == plan.actions@.len(),
            out.deep_view() == all_ops(e.take(i as int)),
        decreases plan.actions.len() - i,
    {
        proof {
            assert(e.take(i + 1).drop_last() =~= e.take(i as int));
            assert(e.take(i + 1).last() == e[i as int]);
        }
        let v = &plan.actions[i].1;
        let ghost before = out.deep_view();
        let mut j: usize = 0;
        while j < v.len()
            invariant
                j <= v@.len(),
                v.deep_view().len() == v@.len(),
                out.deep_view() == before + v.deep_view().take(j as int),
            decreases v.len() - j,
        {
            push_op(&mut out, v[j].clone());
            assert(v.deep_view().take(j + 1) =~= v.deep_view().take(j as int).push(v.deep_view()[j as int]));
            assert(out.deep_view() =~= before + v.deep_view().take(j + 1));
            j = j + 1;
        }
        assert(v.deep_view().take(v@.len() as int) =~= v.deep_view());
        assert(e[i as int].1 == v.deep_view());
        i = i + 1;
    }
    assert(e.take(plan.actions@.len() as int) =~= e);
    out
}

/// The strategy a deployment names: rolling (`RollingUpdate`), recreate (none, empty or
/// `Recreate`), or unknown.
pub open spec fn strategy_text(d: DeploymentView) -> Seq<char> {
    match d.spec {
        Some(sp) => match sp.strategy {
            Some(st) => text_or_empty(st.type_),
            None => Seq::empty(),
        },
        None => Seq::empty(),
    }
}

/// The plan for a deployment: with `RollingUpdate` the plan as it comes; with `Recreate` (or no
/// strategy) every operation under the deployment's name, reordered for a recreate; any other
/// strategy is refused (`None`), as is a deployment without a name.
pub open spec fn deployment_plan(nodes: Seq<NodeStateView>, d: DeploymentView, hashes: Seq<Seq<char>>) -> Option<Seq<(NamespacedNameView, Seq<ScheduledOperationView>)>> {
    let st = strategy_text(d);
    if !(st == "RollingUpdate"@ || st.len() == 0 || st == "Recreate"@) || text_or_empty(d.metadata.name).len() == 0 {
        None
    } else if st == "RollingUpdate"@ {
        Some(deployment_generic_plan(nodes, d, hashes))
    } else {
        Some(seq![(metadata_name_spec(d.metadata), recreate_order(all_ops(deployment_generic_plan(nodes, d, hashes))))])
    }
}

/// A deployment is planned by its strategy: `RollingUpdate` gives the plan as it comes; no
/// strategy, an empty one or `Recreate` gives a single entry under the deployment's name with
/// every operation of that plan reordered, each as often as in it, deletions first, then
/// creations, then the rest; any other strategy, and a deployment without a name, are refused.
pub proof fn lemma_deployment_plan_dispatch(nodes: Seq<NodeStateView>, d: DeploymentView, hashes: Seq<Seq<char>>)
    ensures
        (text_or_empty(d.metadata.name).len() > 0 && strategy_text(d) == "RollingUpdate"@)
            ==> deployment_plan(nodes, d, hashes) == Some(deployment_generic_plan(nodes, d, hashes)),
        (text_or_empty(d.metadata.name).len() > 0 && (strategy_text(d).len() == 0 || strategy_text(d) == "Recreate"@))
            ==> deployment_plan(nodes, d, hashes) == Some(seq![(metadata_name_spec(d.metadata), recreate_order(all_ops(deployment_generic_plan(nodes, d, hashes))))]),
        recreate_order(all_ops(deployment_generic_plan(nodes, d, hashes))).to_multiset() == all_ops(deployment_generic_plan(nodes, d, hashes)).to_multiset(),
        forall|i: int, j: int| 0 <= i < j < recreate_order(all_ops(deployment_generic_plan(nodes, d, hashes))).len() ==>
            recreate_rank(#[trigger] recreate_order(all_ops(deployment_generic_plan(nodes, d, hashes)))[i].operation)
            <= recreate_rank(#[trigger] recreate_order(all_ops(deployment_generic_plan(nodes, d, hashes)))[j].operation),
        !(strategy_text(d) == "RollingUpdate"@ || strategy_text(d).len() == 0 || strategy_text(d) == "Recreate"@)
            ==> deployment_plan(nodes, d, hashes) is None,
        text_or_empty(d.metadata.name).len() == 0 ==> deployment_plan(nodes, d, hashes) is None,
{
    reveal_strlit("RollingUpdate");
    reveal_strlit("Recreate");
    let ops = all_ops(deployment_generic_plan(nodes, d, hashes));
    lemma_recreate_order(ops);
    lemma_recreate_order_permutes(ops);
}

impl DefaultScheduler {
    /// Plans a deployment as a rolling update: the plan as `plan_deployment_generic` makes it.
    pub fn plan_deployment_rolling_update(state: &ClusterState, d: &Deployment, replica_hashes: &Vec<String>) -> (res: Result<ApplyPlan, SkateError>)
        requires
            generations_bounded(state.nodes.deep_view()),
            replica_hashes@.len() == (if replica_count(d.deep_view()) > 0 { replica_count(d.deep_view()) as int } else { 0 }),
        ensures
            text_or_empty(d.deep_view().metadata.name).len() == 0 ==> (res matches Err(e) && e.message() == "no deployment name"@),
            text_or_empty(d.deep_view().metadata.name).len() > 0 ==> (res matches Ok(p) && p.entries() == deployment_generic_plan(
                state.nodes.deep_view(),
                d.deep_view(),
                crate::text::views(replica_hashes@),
            )),
    {
        Self::plan_deployment_generic(state, d, replica_hashes)
    }

    /// Plans a deployment to be recreated: every operation under the deployment's name,
    /// deletions first, then creations, then the rest.
    pub fn plan_deployment_recreate(state: &ClusterState, d: &Deployment, replica_hashes: &Vec<String>) -> (res: Result<ApplyPlan, SkateError>)
        requires
            generations_bounded(state.nodes.deep_view()),
            replica_hashes@.len() == (if replica_count(d.deep_view()) > 0 { replica_count(d.deep_view()) as int } else { 0 }),
        ensures
            text_or_empty(d.deep_view().metadata.name).len() == 0 ==> (res matches Err(e) && e.message() == "no deployment name"@),
            text_or_empty(d.deep_view().metadata.name).len() > 0 ==> (res matches Ok(p) && p.entries() == seq![(
                metadata_name_spec(d.deep_view().metadata),
                recreate_order(all_ops(deployment_generic_plan(state.nodes.deep_view(), d.deep_view(), crate::text::views(replica_hashes@)))),
            )]),
    {
        let plan = match Self::plan_deployment_generic(state, d, replica_hashes) {
            Ok(p) => p,
            Err(e) => return Err(e),
        };
        let all = flatten_plan(&plan);
        let mut ordered: Vec<ScheduledOperation> = Vec::new();
        select_rank(&all, 0, &mut ordered);
        select_rank(&all, 1, &mut ordered);
        select_rank(&all, 2, &mut ordered);
        proof {
            assert(Seq::<ScheduledOperationView>::empty() + ops_of_rank(all.deep_view(), 0) =~= ops_of_rank(all.deep_view(), 0));
        }
        Ok(ApplyPlan::single(metadata_name(&d.metadata), ordered))
    }

    /// Plans a deployment by its strategy (see `deployment_plan`).
    pub fn plan_deployment(state: &ClusterState, d: &Deployment, replica_hashes: &Vec<String>) -> (res: Result<ApplyPlan, SkateError>)
        requires
            generations_bounded(state.nodes.deep_view()),
            replica_hashes@.len() == (if replica_count(d.deep_view()) > 0 { replica_count(d.deep_view()) as int } else { 0 }),
        ensures
            match deployment_plan(state.nodes.deep_view(), d.deep_view(), crate::text::views(replica_hashes@)) {
                Some(e) => res matches Ok(p) && p.entries() == e,
                None => res is Err,
            },
            deployment_plan(state.nodes.deep_view(), d.deep_view(), crate::text::views(replica_hashes@)) is None ==> (
                res matches Err(e) && e.message() == (if !(strategy_text(d.deep_view()) == "RollingUpdate"@
                    || strategy_text(d.deep_view()).len() == 0 || strategy_text(d.deep_view()) == "Recreate"@) {
                    "unrecognised strategy "@ + strategy_text(d.deep_view())
                } else {
                    "no deployment name"@
                })),
    {
        proof {
            reveal_strlit("RollingUpdate");
            reveal_strlit("Recreate");
        }
        let st = match &d.spec {
            Some(sp) => match &sp.strategy {
                Some(strategy) => opt_text_or_empty(&strategy.type_),
                None => String::new(),
            },
            None => String::new(),
        };
        if text_eq(st.as_str(), "RollingUpdate") {
            Self::plan_deployment_rolling_update(state, d, replica_hashes)
        } else if st.as_str().unicode_len() == 0 || text_eq(st.as_str(), "Recreate") {
            Self::plan_deployment_recreate(state, d, replica_hashes)
        } else {
            Err(SkateError::String(crate::text::join2("unrecognised strategy ", st.as_str())))
        }
    }
}

/// The entries of a plan after setting the operations under a name: they replace what was under
/// that name, or go under a new entry at the end.
pub open spec fn plan_set(
    s: Seq<(NamespacedNameView, Seq<ScheduledOperationView>)>,
    k: NamespacedNameView,
    ops: Seq<ScheduledOperationView>,
) -> Seq<(NamespacedNameView, Seq<ScheduledOperationView>)>
    decreases s.len(),
{
    if s.len() == 0 {
        seq![(k, ops)]
    } else if s[0].0 == k {
        seq![(k, ops)] + s.drop_first()
    } else {
        seq![s[0]] + plan_set(s.drop_first(), k, ops)
    }
}

proof fn lemma_plan_set_at(
    s: Seq<(NamespacedNameView, Seq<ScheduledOperationView>)>,
    k: NamespacedNameView,
    ops: Seq<ScheduledOperationView>,
    i: int,
)
    requires
        0 <= i < s.len(),
        s[i].0 == k,
        forall|j: int| 0 <= j < i ==> s[j].0 != k,
    ensures
        plan_set(s, k, ops) == s.update(i, (k, ops)),
    decreases i,
{
    if i == 0 {
        assert(plan_set(s, k, ops) =~= s.update(i, (k, ops)));
    } else {
        assert(s[0].0 != k);
        lemma_plan_set_at(s.drop_first(), k, ops, i - 1);
        assert(plan_set(s, k, ops) =~= s.update(i, (k, ops)));
    }
}

proof fn lemma_plan_set_absent(
    s: Seq<(NamespacedNameView, Seq<ScheduledOperationView>)>,
    k: NamespacedNameView,
    ops: Seq<ScheduledOperationView>,
)
    requires
        forall|j: int| 0 <= j < s.len() ==> s[j].0 != k,
    ensures
        plan_set(s, k, ops) == s.push((k, ops)),
    decreases s.len(),
{
    if s.len() > 0 {
        assert(s[0].0 != k);
        lemma_plan_set_absent(s.drop_first(), k, ops);
    }
    assert(plan_set(s, k, ops) =~= s.push((k, ops)));
}

impl ApplyPlan {
    /// Sets the operations under a name (see `plan_set`).
    pub fn set(&mut self, k: NamespacedName, ops: Vec<ScheduledOperation>)
        ensures
            final(self).entries() == plan_set(old(self).entries(), k.deep_view(), ops.deep_view()),
    {
        let ghost s = self.entries();
        let mut i: usize = 0;
        while i < self.actions.len()
            invariant
                i <= self.actions@.len(),
                s == self.entries(),
                s == old(self).entries(),
                forall|j: int| 0 <= j < i ==> s[j].0 != k.deep_view(),
            decreases self.actions.len() - i,
        {
            if self.actions[i].0.same_as(&k) {
                proof {
                    lemma_plan_set_at(s, k.deep_view(), ops.deep_view(), i as int);
                }
                let _ = self.actions.remove(i);
                self.actions.insert(i, (k, ops));
                assert(self.entries() =~= s.update(i as int, (k.deep_view(), ops.deep_view())));
                return;
            }
            i = i + 1;
        }
        proof {
            lemma_plan_set_absent(s, k.deep_view(), ops.deep_view());
        }
        self.actions.push((k, ops));
        assert(self.entries() =~= s.push((k.deep_view(), ops.deep_view())));
    }
}

/// The template metadata and pod spec of a daemonset (defaults where missing).
pub open spec fn daemonset_template(ds: DaemonSetView) -> (ObjectMetaView, PodSpecView) {
    match ds.spec {
        Some(sp) => (
            match sp.template.metadata { Some(m) => m, None => default_meta() },
            match sp.template.spec { Some(p) => p, None => default_pod_spec() },
        ),
        None => (default_meta(), default_pod_spec()),
    }
}

/// The name of a daemonset's pod on a node: `dms-<daemonset>-<node>`.
pub open spec fn daemonset_pod_name(ds: DaemonSetView, node_name: Seq<char>) -> Seq<char> {
    "dms-"@ + text_or_empty(ds.metadata.name) + "-"@ + node_name
}

/// A daemonset's pod for a node: the template, named `dms-<daemonset>-<node>.<namespace>`,
/// labelled with its name and its daemonset, and bound to the node by its node selector.
pub open spec fn daemonset_pod(ds: DaemonSetView, node_name: Seq<char>) -> PodView {
    let (meta0, spec0) = daemonset_template(ds);
    let pname = daemonset_pod_name(ds, node_name);
    let ns = text_or_empty(ds.metadata.namespace);
    let labels = labels_or_empty(meta0).insert("skate.io/name"@, pname).insert("skate.io/daemonset"@, text_or_empty(ds.metadata.name));
    let selector = match spec0.node_selector { Some(m) => m, None => Map::empty() }.insert("skate.io/nodename"@, node_name);
    PodView {
        metadata: ObjectMetaView { name: Some(pname + "."@ + ns), namespace: Some(ns), labels: Some(labels), ..meta0 },
        spec: Some(PodSpecView { node_selector: Some(selector), ..spec0 }),
    }
}

/// Adds the deletion of each pod in a list, under the pod's name.
pub open spec fn delete_pods_fold(
    entries: Seq<(NamespacedNameView, Seq<ScheduledOperationView>)>,
    pods: Seq<(PodmanPodInfoView, NodeStateView)>,
) -> Seq<(NamespacedNameView, Seq<ScheduledOperationView>)>
    decreases pods.len(),
{
    if pods.len() == 0 {
        entries
    } else {
        let e = delete_pods_fold(entries, pods.drop_last());
        let c = pods.last();
        plan_add(e, crate::naming::ns_name_of_text(c.0.name), seq![op_view(SupportedResourcesView::Pod(pod_from_info(c.0)), Some(c.1), OpType::Delete, false)])
    }
}

/// Adds, node by node over the first `n` nodes, the deletion of the daemonset's pods on each node
/// that no longer takes work.
pub open spec fn ds_cull_fold(
    entries: Seq<(NamespacedNameView, Seq<ScheduledOperationView>)>,
    nodes: Seq<NodeStateView>,
    dsn: Seq<char>,
    ns: Seq<char>,
    n: nat,
) -> Seq<(NamespacedNameView, Seq<ScheduledOperationView>)>
    decreases n,
{
    if n == 0 {
        entries
    } else {
        let e = ds_cull_fold(entries, nodes, dsn, ns, (n - 1) as nat);
        let node = nodes[n - 1];
        if node_schedulable(node) {
            e
        } else {
            delete_pods_fold(e, crate::state::labelled_on_node(node_pods(node), node, "skate.io/daemonset"@, dsn, ns))
        }
    }
}

/// Sets, node by node over the first `n` nodes, the plan of the daemonset's pod on each node
/// that takes work, under the pod's name.
pub open spec fn ds_pod_fold(
    entries: Seq<(NamespacedNameView, Seq<ScheduledOperationView>)>,
    nodes: Seq<NodeStateView>,
    ds: DaemonSetView,
    hashes: Seq<Seq<char>>,
    n: nat,
) -> Seq<(NamespacedNameView, Seq<ScheduledOperationView>)>
    decreases n,
{
    if n == 0 {
        entries
    } else {
        let e = ds_pod_fold(entries, nodes, ds, hashes, (n - 1) as nat);
        let node = nodes[n - 1];
        if node_schedulable(node) {
            plan_set(
                e,
                NamespacedNameView { name: daemonset_pod_name(ds, node.node_name), namespace: text_or_empty(ds.metadata.namespace) },
                pod_plan(nodes, daemonset_pod(ds, node.node_name), hashes[n - 1]),
            )
        } else {
            e
        }
    }
}

/// The plan for a daemonset: the manifest goes to every node (silently); on each node that no
/// longer takes work its pods are deleted; on each node that does, its pod is planned with the
/// hash given for that node.
pub open spec fn daemonset_plan(nodes: Seq<NodeStateView>, ds: DaemonSetView, hashes: Seq<Seq<char>>) -> Seq<(NamespacedNameView, Seq<ScheduledOperationView>)> {
    let dsn = text_or_empty(ds.metadata.name);
    let ns = text_or_empty(ds.metadata.namespace);
    let g = cluster_generation(nodes, ResourceType::DaemonSet, ns, dsn);
    let ds2 = DaemonSetView { metadata: ObjectMetaView { generation: Some(g), ..ds.metadata }, ..ds };
    let defaults = Seq::new(nodes.len(), |i: int| op_view(SupportedResourcesView::DaemonSet(ds2), Some(nodes[i]), OpType::Create, true));
    let start = seq![(metadata_name_spec(ds2.metadata), defaults)];
    ds_pod_fold(ds_cull_fold(start, nodes, dsn, ns, nodes.len()), nodes, ds, hashes, nodes.len())
}

/// Every pod on a node that no longer takes work and that belongs to the daemonset has a
/// namespace label.
pub open spec fn daemonset_pods_namespaced(nodes: Seq<NodeStateView>, dsn: Seq<char>) -> bool {
    forall|i: int, j: int|
        0 <= i < nodes.len() && !node_schedulable(nodes[i]) && 0 <= j < node_pods(nodes[i]).len()
            && node_pods(nodes[i])[j].labels.contains_key("skate.io/daemonset"@)
            && node_pods(nodes[i])[j].labels["skate.io/daemonset"@] == dsn
        ==> #[trigger] node_pods(nodes[i])[j].labels.contains_key("skate.io/namespace"@)
}

impl DefaultScheduler {
    /// A daemonset's pod for a node (see `daemonset_pod`); its manifest hash is what
    /// `plan_daemonset` needs for that node.
    pub fn daemonset_node_pod(ds: &DaemonSet, node_name: &str) -> (res: Pod)
        ensures
            res.deep_view() == daemonset_pod(ds.deep_view(), node_name@),
    {
        let (meta0, spec0) = match &ds.spec {
            Some(sp) => (
                match &sp.template.metadata { Some(m) => m.clone(), None => default_meta_exec() },
                match &sp.template.spec { Some(p) => p.clone(), None => default_pod_spec_exec() },
            ),
            None => (default_meta_exec(), default_pod_spec_exec()),
        };
        let dsn = opt_text_or_empty(&ds.metadata.name);
        let ns = opt_text_or_empty(&ds.metadata.namespace);
        let mut pname = owned("dms-");
        pname.append(dsn.as_str());
        pname.append("-");
        pname.append(node_name);
        let mut labels = match &meta0.labels {
            Some(l) => l.clone(),
            None => StringMap::new(),
        };
        labels.insert(owned("skate.io/name"), pname.clone());
        labels.insert(owned("skate.io/daemonset"), dsn);
        let mut selector = match &spec0.node_selector {
            Some(m) => m.clone(),
            None => StringMap::new(),
        };
        selector.insert(owned("skate.io/nodename"), owned(node_name));
        let full = crate::text::join3(pname.as_str(), ".", ns.as_str());
        Pod {
            metadata: ObjectMeta {
                name: Some(full),
                namespace: Some(ns),
                labels: Some(labels),
                annotations: meta0.annotations,
                generation: meta0.generation,
            },
            spec: Some(PodSpec {
                containers: spec0.containers,
                volumes: spec0.volumes,
                node_selector: Some(selector),
                host_network: spec0.host_network,
                restart_policy: spec0.restart_policy,
            }),
        }
    }

    /// Plans a daemonset given, for each node in the cluster's order, the hash of its pod's
    /// manifest (see `daemonset_plan`); a daemonset without a name is refused.
    pub fn plan_daemonset(state: &ClusterState, ds: &DaemonSet, node_hashes: &Vec<String>) -> (res: Result<ApplyPlan, SkateError>)
        requires
            generations_bounded(state.nodes.deep_view()),
            node_hashes@.len() == state.nodes@.len(),
            daemonset_pods_namespaced(state.nodes.deep_view(), text_or_empty(ds.deep_view().metadata.name)),
        ensures
            ds.deep_view().metadata.name is None ==> (res matches Err(e) && e.message() == "no daemonset name"@),
            ds.deep_view().metadata.name is Some ==> (res matches Ok(p) && p.entries() == daemonset_plan(
                state.nodes.deep_view(),
                ds.deep_view(),
                crate::text::views(node_hashes@),
            )),
    {
        if ds.metadata.name.is_none() {
            return Err(SkateError::msg("no daemonset name"));
        }
        let dsn = opt_text_or_empty(&ds.metadata.name);
        let ns = opt_text_or_empty(&ds.metadata.namespace);
        let g = cluster_generation_exec(state, ResourceType::DaemonSet, ns.as_str(), dsn.as_str());
        let ds2 = DaemonSet {
            metadata: with_generation(&ds.metadata, g),
            spec: match &ds.spec { Some(sp) => Some(sp.clone()), None => None },
        };
        let ghost nodes = state.nodes.deep_view();
        let ghost d2v = ds2.deep_view();
        let mut defaults: Vec<ScheduledOperation> = Vec::new();
        let mut i: usize = 0;
        while i < state.nodes.len()
            invariant
                i <= state.nodes@.len(),
                nodes == state.nodes.deep_view(),
                nodes.len() == state.nodes@.len(),
                d2v == ds2.deep_view(),
                defaults.deep_view().len() == i,
                forall|k: int| 0 <= k < i ==> #[trigger] defaults.deep_view()[k] == op_view(SupportedResourcesView::DaemonSet(d2v), Some(nodes[k]), OpType::Create, true),
            decreases state.nodes.len() - i,
        {
            let op = ScheduledOperation::new(OpType::Create, SupportedResources::DaemonSet(ds2.clone())).silent().node(state.nodes[i].clone());
            push_op(&mut defaults, op);
            i = i + 1;
        }
        let ghost expected_defaults = Seq::new(nodes.len(), |k: int| op_view(SupportedResourcesView::DaemonSet(d2v), Some(nodes[k]), OpType::Create, true));
        assert(defaults.deep_view() =~= expected_defaults);
        let mut plan = ApplyPlan::single(metadata_name(&ds2.metadata), defaults);
        let ghost start = plan.entries();
        let mut n: usize = 0;
        while n < state.nodes.len()
            invariant
                n <= state.nodes@.len(),
                nodes == state.nodes.deep_view(),
                nodes.len() == state.nodes@.len(),
                dsn@ == text_or_empty(ds.deep_view().metadata.name),
                ns@ == text_or_empty(ds.deep_view().metadata.namespace),
                plan.entries() == ds_cull_fold(start, nodes, dsn@, ns@, n as nat),
            decreases state.nodes.len() - n,
        {
            let node = &state.nodes[n];
            assert(nodes[n as int] == node.deep_view());
            if !node.schedulable() {
                let pods = node.labelled_pods("skate.io/daemonset", dsn.as_str(), ns.as_str());
                let ghost pv = pods.deep_view();
                let ghost e0 = plan.entries();
                assert(pv.take(0) =~= Seq::<(PodmanPodInfoView, NodeStateView)>::empty());
                let mut j: usize = 0;
                while j < pods.len()
                    invariant
                        j <= pods@.len(),
                        pv == pods.deep_view(),
                        pv.len() == pods@.len(),
                        plan.entries() == delete_pods_fold(e0, pv.take(j as int)),
                    decreases pods.len() - j,
                {
                    let e = &pods[j];
                    proof {
                        assert(pv.take(j + 1).drop_last() =~= pv.take(j as int));
                        assert(pv.take(j + 1).last() == pv[j as int]);
                    }
                    let p = pod_from_info_exec(&e.0);
                    let key = NamespacedName::from_text(e.0.name.as_str());
                    let mut ops: Vec<ScheduledOperation> = Vec::new();
                    push_op(&mut ops, ScheduledOperation::new(OpType::Delete, SupportedResources::Pod(p)).node(e.1.clone()));
                    assert(ops.deep_view() =~= seq![op_view(SupportedResourcesView::Pod(pod_from_info(pv[j as int].0)), Some(pv[j as int].1), OpType::Delete, false)]);
                    plan.add(key, ops);
                    j = j + 1;
                }
                assert(pv.take(pods@.len() as int) =~= pv);
            }
            n = n + 1;
        }
        let ghost culled = plan.entries();
        let mut m: usize = 0;
        while m < state.nodes.len()
            invariant
                m <= state.nodes@.len(),
                nodes == state.nodes.deep_view(),
                nodes.len() == state.nodes@.len(),
                node_hashes@.len() == state.nodes@.len(),
                ns@ == text_or_empty(ds.deep_view().metadata.namespace),
                generations_bounded(state.nodes.deep_view()),
                plan.entries() == ds_pod_fold(culled, nodes, ds.deep_view(), crate::text::views(node_hashes@), m as nat),
            decreases state.nodes.len() - m,
        {
            let node = &state.nodes[m];
            assert(nodes[m as int] == node.deep_view());
            if node.schedulable() {
                let pod = Self::daemonset_node_pod(ds, node.node_name.as_str());
                let ops = match Self::plan_pod(state, &pod, node_hashes[m].as_str()) {
                    Ok(o) => o,
                    Err(e) => return Err(e),
                };
                let mut pname = owned("dms-");
                let dn = opt_text_or_empty(&ds.metadata.name);
                pname.append(dn.as_str());
                pname.append("-");
                pname.append(node.node_name.as_str());
                let key = NamespacedName { name: pname, namespace: ns.clone() };
                assert(crate::text::views(node_hashes@)[m as int] == node_hashes@[m as int]@);
                plan.set(key, ops);
            }
            m = m + 1;
        }
        Ok(plan)
    }
}

/// Whether the hashes given for a manifest's generated pods fit it: one per replica for a
/// deployment, one per node for a daemonset (whose pods on nodes that take no work must carry a
/// namespace label).
pub open spec fn plan_inputs_ok(nodes: Seq<NodeStateView>, object: SupportedResourcesView, pod_hashes: Seq<Seq<char>>) -> bool {
    match object {
        SupportedResourcesView::Deployment(d) => pod_hashes.len() == (if replica_count(d) > 0 { replica_count(d) as int } else { 0 }),
        SupportedResourcesView::DaemonSet(ds) => pod_hashes.len() == nodes.len() && daemonset_pods_namespaced(nodes, text_or_empty(ds.metadata.name)),
        _ => true,
    }
}

/// The plan for any supported manifest, given its hash and the hashes of the pods it generates;
/// `None` where planning refuses the manifest.
pub open spec fn plan_spec(nodes: Seq<NodeStateView>, object: SupportedResourcesView, hash: Seq<char>, pod_hashes: Seq<Seq<char>>) -> Option<Seq<(NamespacedNameView, Seq<ScheduledOperationView>)>> {
    match object {
        SupportedResourcesView::Pod(p) => Some(seq![(
            NamespacedNameView { name: text_or_empty(p.metadata.name), namespace: text_or_empty(p.metadata.namespace) },
            pod_plan(nodes, p, hash),
        )]),
        SupportedResourcesView::Deployment(d) => deployment_plan(nodes, d, pod_hashes),
        SupportedResourcesView::DaemonSet(ds) => if ds.metadata.name is None { None } else { Some(daemonset_plan(nodes, ds, pod_hashes)) },
        SupportedResourcesView::Ingress(i) => Some(replicated_plan(nodes, metadata_name_spec(i.metadata), ResourceType::Ingress, metadata_name_spec(i.metadata).namespace, hash, planned_ingress(nodes, i, hash))),
        SupportedResourcesView::CronJob(c) => Some(cronjob_plan(nodes, c, hash)),
        SupportedResourcesView::Secret(sec) => Some(secret_plan(nodes, sec, hash)),
        SupportedResourcesView::Service(svc) => if empty_selector(svc) { None } else { Some(replicated_plan(nodes, metadata_name_spec(svc.metadata), ResourceType::Service, metadata_name_spec(svc.metadata).namespace, hash, planned_service(nodes, svc, hash))) },
        SupportedResourcesView::ClusterIssuer(c) => Some(replicated_plan(nodes, metadata_name_spec(c.metadata), ResourceType::ClusterIssuer, "skate"@, hash, planned_cluster_issuer(nodes, c, hash))),
    }
}

impl DefaultScheduler {
    /// Plans any supported manifest (see `plan_spec`).
    pub fn plan(state: &ClusterState, object: &SupportedResources, hash: &str, pod_hashes: &Vec<String>) -> (res: Result<ApplyPlan, SkateError>)
        requires
            generations_bounded(state.nodes.deep_view()),
            plan_inputs_ok(state.nodes.deep_view(), object.deep_view(), crate::text::views(pod_hashes@)),
        ensures
            match plan_spec(state.nodes.deep_view(), object.deep_view(), hash@, crate::text::views(pod_hashes@)) {
                Some(e) => res matches Ok(p) && p.entries() == e,
                None => res is Err,
            },
    {
        assert(crate::text::views(pod_hashes@).len() == pod_hashes@.len());
        match object {
            SupportedResources::Pod(pod) => {
                let ns_name = NamespacedName {
                    name: opt_text_or_empty(&pod.metadata.name),
                    namespace: opt_text_or_empty(&pod.metadata.namespace),
                };
                let ops = match Self::plan_pod(state, pod, hash) {
                    Ok(o) => o,
                    Err(e) => return Err(e),
                };
                Ok(ApplyPlan::single(ns_name, ops))
            },
            SupportedResources::Deployment(d) => Self::plan_deployment(state, d, pod_hashes),
            SupportedResources::DaemonSet(ds) => Self::plan_daemonset(state, ds, pod_hashes),
            SupportedResources::Ingress(i) => Self::plan_ingress(state, i, hash),
            SupportedResources::CronJob(c) => Self::plan_cronjob(state, c, hash),
            SupportedResources::Secret(sec) => Self::plan_secret(state, sec, hash),
            SupportedResources::Service(svc) => Self::plan_service(state, svc, hash),
            SupportedResources::ClusterIssuer(c) => Self::plan_cluster_issuer(state, c, hash),
        }
    }
}

/// The reasons a node selection gave, `node - reason` joined with `, `, or `<none>`.
pub open spec fn rejection_reasons(rejected: Seq<RejectedNodeView>) -> Seq<char> {
    if rejected.len() == 0 {
        "<none>"@
    } else {
        crate::text::joined(rejected.map_values(|r: RejectedNodeView| r.node_name + " - "@ + r.reason), ", "@)
    }
}

/// The error message for a resource that no node could take.
pub fn selection_failure_message(rejected: &Vec<RejectedNode>) -> (res: String)
    ensures
        res@ == "failed to find feasible node ("@ + crate::text::decimal(rejected@.len() as nat) + " rejected): "@
            + rejection_reasons(rejected.deep_view()),
{
    let mut parts: Vec<String> = Vec::new();
    let mut i: usize = 0;
    let ghost rv = rejected.deep_view();
    while i < rejected.len()
        invariant
            i <= rejected@.len(),
            rv == rejected.deep_view(),
            rv.len() == rejected@.len(),
            crate::text::views(parts@) == rv.take(i as int).map_values(|r: RejectedNodeView| r.node_name + " - "@ + r.reason),
        decreases rejected.len() - i,
    {
        let r = &rejected[i];
        let line = crate::text::join3(r.node_name.as_str(), " - ", r.reason.as_str());
        let ghost before = parts@;
        parts.push(line);
        proof {
            assert(crate::text::views(parts@) =~= crate::text::views(before).push(line@));
            assert(rv.take(i + 1) =~= rv.take(i as int).push(rv[i as int]));
            assert(rv.take(i + 1).map_values(|r: RejectedNodeView| r.node_name + " - "@ + r.reason) =~= rv.take(i as int).map_values(|r: RejectedNodeView| r.node_name + " - "@ + r.reason).push(line@));
        }
        i = i + 1;
    }
    assert(rv.take(rejected@.len() as int) =~= rv);
    let reasons = if rejected.len() == 0 {
        owned("<none>")
    } else {
        crate::text::join_with(&parts, ", ")
    };
    let mut msg = owned("failed to find feasible node (");
    crate::text::push_decimal(&mut msg, rejected.len() as u64);
    msg.append(" rejected): ");
    msg.append(reasons.as_str());
    msg
}

impl ScheduleResult {
    /// Records what scheduling one manifest gave: its operations, or, where it failed, an
    /// `Info` operation for the manifest that carries the error's text (as the driving program shows it).
    pub fn record(&mut self, object: &SupportedResources, outcome: Result<Vec<ScheduledOperation>, String>)
        ensures
            match outcome {
                Ok(ops) => final(self).placements.deep_view() == old(self).placements.deep_view() + ops.deep_view(),
                Err(e) => final(self).placements.deep_view() == old(self).placements.deep_view().push(ScheduledOperationView {
                    resource: object.deep_view(),
                    node: None,
                    operation: OpType::Info,
                    error: Some(e@),
                    silent: false,
                }),
            },
    {
        match outcome {
            Ok(ops) => {
                let mut more = ops;
                let ghost a = self.placements.deep_view();
                let ghost b = more.deep_view();
                self.placements.append(&mut more);
                assert(self.placements.deep_view() =~= a + b);
            },
            Err(msg) => {
                let op = ScheduledOperation::new(OpType::Info, object.clone()).error(msg);
                push_op(&mut self.placements, op);
            },
        }
    }
}

/// The colour an operation's symbol is shown in.
#[derive(Debug, Clone, Copy, PartialEq, Eq, Structural)]
pub enum SymbolColor {
    Green,
    Blue,
    Red,
}

/// The reset code that ends a coloured text: `ESC[0m`.
pub open spec fn reset_code() -> Seq<char> {
    seq!['\u{1b}', '[', '0', 'm']
}

/// Whether a text holds the reset code anywhere.
pub open spec fn holds_reset(text: Seq<char>) -> bool {
    exists|i: int| 0 <= i && i + 4 <= text.len() && #[trigger] text.subrange(i, i + 4) == reset_code()
}

/// The escape code that turns on bold and a colour: `ESC[1;<colour>m`, with 32 for green, 34
/// for blue and 31 for red.
pub open spec fn bold_colour_code(color: SymbolColor) -> Seq<char> {
    let c = match color {
        SymbolColor::Green => '2',
        SymbolColor::Blue => '4',
        SymbolColor::Red => '1',
    };
    seq!['\u{1b}', '[', '1', ';', '3', c, 'm']
}

/// Renders text bold in a colour with the `colored` crate (`Colorize::green`/`blue`/`red`,
/// `bold`, then `to_string`). Whether escape codes are added depends on the terminal and the
/// environment: the text comes back either as it is or between the bold colour code and the
/// reset code. A text that itself holds the reset code is not handed over (the crate then
/// repeats the colour code after each inner reset).
#[verifier::external_body]
fn paint_bold(text: &str, color: SymbolColor) -> (res: String)
    requires
        !holds_reset(text@),
    ensures
        res@ == text@ || res@ == bold_colour_code(color) + text@ + reset_code(),
{
    match color {
        SymbolColor::Green => text.green().bold().to_string(),
        SymbolColor::Blue => text.blue().bold().to_string(),
        SymbolColor::Red => text.red().bold().to_string(),
    }
}

/// The colour of an operation type's symbol.
pub open spec fn symbol_colour(op: OpType) -> SymbolColor {
    match op {
        OpType::Clobber => SymbolColor::Green,
        OpType::Info => SymbolColor::Blue,
        OpType::Create => SymbolColor::Green,
        OpType::Delete => SymbolColor::Red,
        OpType::Unchanged => SymbolColor::Blue,
    }
}

/// The plain symbol of an operation type.
pub open spec fn symbol_text(op: OpType) -> Seq<char> {
    match op {
        OpType::Clobber => "~"@,
        OpType::Info => "[i]"@,
        OpType::Create => "+"@,
        OpType::Delete => "-"@,
        OpType::Unchanged => ""@,
    }
}

impl OpType {
    /// The symbol shown for an operation type, bold and coloured where the terminal allows.
    pub fn symbol(&self) -> (res: String)
        ensures
            res@ == symbol_text(*self)
                || res@ == bold_colour_code(symbol_colour(*self)) + symbol_text(*self) + reset_code(),
    {
        proof {
            reveal_strlit("~");
            reveal_strlit("[i]");
            reveal_strlit("+");
            reveal_strlit("-");
            reveal_strlit("");
        }
        match self {
            OpType::Clobber => paint_bold("~", SymbolColor::Green),
            OpType::Info => paint_bold("[i]", SymbolColor::Blue),
            OpType::Create => paint_bold("+", SymbolColor::Green),
            OpType::Delete => paint_bold("-", SymbolColor::Red),
            OpType::Unchanged => paint_bold("", SymbolColor::Blue),
        }
    }
}

/// Whether the first entry of a plan is under `k` and its operations begin with `ops`.
pub open spec fn plan_begins_with(p: Seq<(NamespacedNameView, Seq<ScheduledOperationView>)>, k: NamespacedNameView, ops: Seq<ScheduledOperationView>) -> bool {
    &&& p.len() >= 1
    &&& p[0].0 == k
    &&& p[0].1.len() >= ops.len()
    &&& p[0].1.take(ops.len() as int) == ops
}

proof fn lemma_plan_add_keeps_beginning(
    p: Seq<(NamespacedNameView, Seq<ScheduledOperationView>)>,
    k0: NamespacedNameView,
    ops0: Seq<ScheduledOperationView>,
    k: NamespacedNameView,
    ops: Seq<ScheduledOperationView>,
)
    requires
        plan_begins_with(p, k0, ops0),
    ensures
        plan_begins_with(plan_add(p, k, ops), k0, ops0),
{
    let q = plan_add(p, k, ops);
    if p[0].0 == k {
        assert(q[0] == (k, p[0].1 + ops));
        assert((p[0].1 + ops).take(ops0.len() as int) =~= p[0].1.take(ops0.len() as int));
    } else {
        assert(q[0] == p[0]);
    }
}

proof fn lemma_cull_fold_keeps_beginning(
    p: Seq<(NamespacedNameView, Seq<ScheduledOperationView>)>,
    culls: Seq<(PodmanPodInfoView, NodeStateView, u32)>,
    replicas: u32,
    k0: NamespacedNameView,
    ops0: Seq<ScheduledOperationView>,
)
    requires
        plan_begins_with(p, k0, ops0),
    ensures
        plan_begins_with(cull_fold(p, culls, replicas), k0, ops0),
    decreases culls.len(),
{
    if culls.len() > 0 {
        lemma_cull_fold_keeps_beginning(p, culls.drop_last(), replicas, k0, ops0);
        let e = cull_fold(p, culls.drop_last(), replicas);
        let c = culls.last();
        if c.2 >= replicas {
            lemma_plan_add_keeps_beginning(e, k0, ops0, crate::naming::ns_name_of_text(c.0.name),
                seq![op_view(SupportedResourcesView::Pod(pod_from_info(c.0)), Some(c.1), OpType::Delete, false)]);
        }
    }
}

proof fn lemma_replica_fold_keeps_beginning(
    p: Seq<(NamespacedNameView, Seq<ScheduledOperationView>)>,
    nodes: Seq<NodeStateView>,
    d: DeploymentView,
    hashes: Seq<Seq<char>>,
    n: nat,
    k0: NamespacedNameView,
    ops0: Seq<ScheduledOperationView>,
)
    requires
        plan_begins_with(p, k0, ops0),
    ensures
        plan_begins_with(replica_fold(p, nodes, d, hashes, n), k0, ops0),
    decreases n,
{
    if n > 0 {
        lemma_replica_fold_keeps_beginning(p, nodes, d, hashes, (n - 1) as nat, k0, ops0);
        let e = replica_fold(p, nodes, d, hashes, (n - 1) as nat);
        lemma_plan_add_keeps_beginning(e, k0, ops0, replica_ns_name(d, (n - 1) as nat),
            pod_plan(nodes, replica_pod(d, (n - 1) as nat), hashes[n - 1]));
    }
}

/// The deployment with the generation it is deployed at: one past the highest generation the
/// cluster holds for it.
pub open spec fn deployed_deployment(nodes: Seq<NodeStateView>, d: DeploymentView) -> DeploymentView {
    let g = cluster_generation(nodes, ResourceType::Deployment, text_or_empty(d.metadata.namespace), text_or_empty(d.metadata.name));
    DeploymentView { metadata: ObjectMetaView { generation: Some(g), ..d.metadata }, ..d }
}

/// A deployment's plan starts under the deployment's own name, with one silent creation of the
/// deployment (at its next generation) on each node, in the cluster's order; what removes
/// surplus pods and places the replicas comes after.
pub proof fn lemma_deployment_plan_starts_with_deployment(nodes: Seq<NodeStateView>, d: DeploymentView, hashes: Seq<Seq<char>>)
    ensures
        plan_begins_with(
            deployment_generic_plan(nodes, d, hashes),
            metadata_name_spec(deployed_deployment(nodes, d).metadata),
            Seq::new(nodes.len(), |i: int| op_view(SupportedResourcesView::Deployment(deployed_deployment(nodes, d)), Some(nodes[i]), OpType::Create, true)),
        ),
{
    let d2 = deployed_deployment(nodes, d);
    let defaults = Seq::new(nodes.len(), |i: int| op_view(SupportedResourcesView::Deployment(d2), Some(nodes[i]), OpType::Create, true));
    let k0 = metadata_name_spec(d2.metadata);
    let start = seq![(k0, defaults)];
    assert(start[0].1.take(defaults.len() as int) =~= defaults);
    assert(plan_begins_with(start, k0, defaults));
    let dn = text_or_empty(d.metadata.name);
    let ns = text_or_empty(d.metadata.namespace);
    let replicas = replica_count(d);
    let existing = deployment_pods_by_replica(nodes, dn, ns);
    let culled = if replicas >= 0 && existing.len() > replicas { cull_fold(start, existing, replicas as u32) } else { start };
    if replicas >= 0 && existing.len() > replicas {
        lemma_cull_fold_keeps_beginning(start, existing, replicas as u32, k0, defaults);
    }
    lemma_replica_fold_keeps_beginning(culled, nodes, d, hashes, if replicas > 0 { replicas as nat } else { 0 }, k0, defaults);
}

proof fn lemma_delete_pods_fold_keeps_beginning(
    p: Seq<(NamespacedNameView, Seq<ScheduledOperationView>)>,
    pods: Seq<(PodmanPodInfoView, NodeStateView)>,
    k0: NamespacedNameView,
    ops0: Seq<ScheduledOperationView>,
)
    requires
        plan_begins_with(p, k0, ops0),
    ensures
        plan_begins_with(delete_pods_fold(p, pods), k0, ops0),
    decreases pods.len(),
{
    if pods.len() > 0 {
        lemma_delete_pods_fold_keeps_beginning(p, pods.drop_last(), k0, ops0);
        let c = pods.last();
        lemma_plan_add_keeps_beginning(delete_pods_fold(p, pods.drop_last()), k0, ops0, crate::naming::ns_name_of_text(c.0.name),
            seq![op_view(SupportedResourcesView::Pod(pod_from_info(c.0)), Some(c.1), OpType::Delete, false)]);
    }
}

proof fn lemma_ds_cull_fold_keeps_beginning(
    p: Seq<(NamespacedNameView, Seq<ScheduledOperationView>)>,
    nodes: Seq<NodeStateView>,
    dsn: Seq<char>,
    ns: Seq<char>,
    n: nat,
    k0: NamespacedNameView,
    ops0: Seq<ScheduledOperationView>,
)
    requires
        plan_begins_with(p, k0, ops0),
    ensures
        plan_begins_with(ds_cull_fold(p, nodes, dsn, ns, n), k0, ops0),
    decreases n,
{
    if n > 0 {
        lemma_ds_cull_fold_keeps_beginning(p, nodes, dsn, ns, (n - 1) as nat, k0, ops0);
        let node = nodes[n - 1];
        if !node_schedulable(node) {
            lemma_delete_pods_fold_keeps_beginning(ds_cull_fold(p, nodes, dsn, ns, (n - 1) as nat),
                crate::state::labelled_on_node(node_pods(node), node, "skate.io/daemonset"@, dsn, ns), k0, ops0);
        }
    }
}

/// The key under which a daemonset's pod for a node is planned.
pub open spec fn daemonset_pod_key(ds: DaemonSetView, node_name: Seq<char>) -> NamespacedNameView {
    NamespacedNameView { name: daemonset_pod_name(ds, node_name), namespace: text_or_empty(ds.metadata.namespace) }
}

proof fn lemma_ds_pod_fold_keeps_beginning(
    p: Seq<(NamespacedNameView, Seq<ScheduledOperationView>)>,
    nodes: Seq<NodeStateView>,
    ds: DaemonSetView,
    hashes: Seq<Seq<char>>,
    n: nat,
    k0: NamespacedNameView,
    ops0: Seq<ScheduledOperationView>,
)
    requires
        plan_begins_with(p, k0, ops0),
        n <= nodes.len(),
        forall|i: int| 0 <= i < nodes.len() ==> daemonset_pod_key(ds, (#[trigger] nodes[i]).node_name) != k0,
    ensures
        plan_begins_with(ds_pod_fold(p, nodes, ds, hashes, n), k0, ops0),
    decreases n,
{
    if n > 0 {
        lemma_ds_pod_fold_keeps_beginning(p, nodes, ds, hashes, (n - 1) as nat, k0, ops0);
        let e = ds_pod_fold(p, nodes, ds, hashes, (n - 1) as nat);
        let node = nodes[n - 1];
        if node_schedulable(node) {
            let k = daemonset_pod_key(ds, node.node_name);
            assert(k != k0);
            let q = plan_set(e, k, pod_plan(nodes, daemonset_pod(ds, node.node_name), hashes[n - 1]));
            assert(q[0] == e[0]);
        }
    }
}

/// The daemonset with the generation it is deployed at: one past the highest generation the
/// cluster holds for it.
pub open spec fn deployed_daemonset(nodes: Seq<NodeStateView>, ds: DaemonSetView) -> DaemonSetView {
    let g = cluster_generation(nodes, ResourceType::DaemonSet, text_or_empty(ds.metadata.namespace), text_or_empty(ds.metadata.name));
    DaemonSetView { metadata: ObjectMetaView { generation: Some(g), ..ds.metadata }, ..ds }
}

/// A daemonset's plan starts under the daemonset's own name, with one silent creation of the
/// daemonset (at its next generation) on each node, in the cluster's order; the deletion of its
/// pods on nodes that take no work and the plan of its pod on each other node come after. This
/// holds where no node's pod is planned under the daemonset's own name (a node whose pod name
/// `dms-<daemonset>-<node>` in the daemonset's namespace were that name would have its pod's
/// plan replace the creations).
pub proof fn lemma_daemonset_plan_starts_with_daemonset(nodes: Seq<NodeStateView>, ds: DaemonSetView, hashes: Seq<Seq<char>>)
    requires
        forall|i: int| 0 <= i < nodes.len() ==> daemonset_pod_key(ds, (#[trigger] nodes[i]).node_name)
            != metadata_name_spec(deployed_daemonset(nodes, ds).metadata),
    ensures
        plan_begins_with(
            daemonset_plan(nodes, ds, hashes),
            metadata_name_spec(deployed_daemonset(nodes, ds).metadata),
            Seq::new(nodes.len(), |i: int| op_view(SupportedResourcesView::DaemonSet(deployed_daemonset(nodes, ds)), Some(nodes[i]), OpType::Create, true)),
        ),
{
    let ds2 = deployed_daemonset(nodes, ds);
    let defaults = Seq::new(nodes.len(), |i: int| op_view(SupportedResourcesView::DaemonSet(ds2), Some(nodes[i]), OpType::Create, true));
    let k0 = metadata_name_spec(ds2.metadata);
    let start = seq![(k0, defaults)];
    assert(start[0].1.take(defaults.len() as int) =~= defaults);
    let dsn = text_or_empty(ds.metadata.name);
    let ns = text_or_empty(ds.metadata.namespace);
    lemma_ds_cull_fold_keeps_beginning(start, nodes, dsn, ns, nodes.len(), k0, defaults);
    lemma_ds_pod_fold_keeps_beginning(ds_cull_fold(start, nodes, dsn, ns, nodes.len()), nodes, ds, hashes, nodes.len(), k0, defaults);
}

/// Whether a plan's entries hold `op` among the operations under `k`.
pub open spec fn plan_holds(p: Seq<(NamespacedNameView, Seq<ScheduledOperationView>)>, k: NamespacedNameView, op: ScheduledOperationView) -> bool {
    plan_get(p, k) matches Some(ops) && ops.contains(op)
}

proof fn lemma_plan_add_keeps_holds(
    p: Seq<(NamespacedNameView, Seq<ScheduledOperationView>)>,
    k: NamespacedNameView,
    op: ScheduledOperationView,
    k2: NamespacedNameView,
    ops2: Seq<ScheduledOperationView>,
)
    requires
        plan_holds(p, k, op),
    ensures
        plan_holds(plan_add(p, k2, ops2), k, op),
    decreases p.len(),
{
    let q = plan_add(p, k2, ops2);
    if p[0].0 == k2 {
        assert(q.drop_first() =~= p.drop_first());
        if k == k2 {
            let j = choose|j: int| 0 <= j < p[0].1.len() && p[0].1[j] == op;
            assert((p[0].1 + ops2)[j] == op);
        }
    } else {
        assert(q.drop_first() == plan_add(p.drop_first(), k2, ops2));
        if p[0].0 != k {
            lemma_plan_add_keeps_holds(p.drop_first(), k, op, k2, ops2);
        }
    }
}

proof fn lemma_plan_add_holds_new(
    p: Seq<(NamespacedNameView, Seq<ScheduledOperationView>)>,
    k: NamespacedNameView,
    ops: Seq<ScheduledOperationView>,
    op: ScheduledOperationView,
)
    requires
        ops.contains(op),
    ensures
        plan_holds(plan_add(p, k, ops), k, op),
    decreases p.len(),
{
    let q = plan_add(p, k, ops);
    let j = choose|j: int| 0 <= j < ops.len() && ops[j] == op;
    if p.len() == 0 {
        assert(q[0] == (k, ops));
    } else if p[0].0 == k {
        assert((p[0].1 + ops)[p[0].1.len() + j] == op);
    } else {
        assert(q.drop_first() == plan_add(p.drop_first(), k, ops));
        lemma_plan_add_holds_new(p.drop_first(), k, ops, op);
    }
}

/// The deletion that removes a surplus pod found on a node.
pub open spec fn cull_op(c: (PodmanPodInfoView, NodeStateView, u32)) -> ScheduledOperationView {
    op_view(SupportedResourcesView::Pod(pod_from_info(c.0)), Some(c.1), OpType::Delete, false)
}

proof fn lemma_cull_fold_holds(
    p: Seq<(NamespacedNameView, Seq<ScheduledOperationView>)>,
    culls: Seq<(PodmanPodInfoView, NodeStateView, u32)>,
    replicas: u32,
)
    ensures
        forall|i: int| 0 <= i < culls.len() && (#[trigger] culls[i]).2 >= replicas ==>
            plan_holds(cull_fold(p, culls, replicas), crate::naming::ns_name_of_text(culls[i].0.name), cull_op(culls[i])),
    decreases culls.len(),
{
    if culls.len() > 0 {
        let pre = culls.drop_last();
        lemma_cull_fold_holds(p, pre, replicas);
        let e = cull_fold(p, pre, replicas);
        let c = culls.last();
        assert forall|i: int| 0 <= i < culls.len() && (#[trigger] culls[i]).2 >= replicas implies
            plan_holds(cull_fold(p, culls, replicas), crate::naming::ns_name_of_text(culls[i].0.name), cull_op(culls[i])) by {
            let k = crate::naming::ns_name_of_text(c.0.name);
            let ops = seq![cull_op(c)];
            if i == culls.len() - 1 {
                assert(ops[0] == cull_op(c));
                lemma_plan_add_holds_new(e, k, ops, cull_op(c));
            } else {
                assert(pre[i] == culls[i]);
                if c.2 >= replicas {
                    lemma_plan_add_keeps_holds(e, crate::naming::ns_name_of_text(culls[i].0.name), cull_op(culls[i]), k, ops);
                }
            }
        }
    }
}

proof fn lemma_replica_fold_keeps_holds(
    p: Seq<(NamespacedNameView, Seq<ScheduledOperationView>)>,
    nodes: Seq<NodeStateView>,
    d: DeploymentView,
    hashes: Seq<Seq<char>>,
    n: nat,
    k: NamespacedNameView,
    op: ScheduledOperationView,
)
    requires
        plan_holds(p, k, op),
    ensures
        plan_holds(replica_fold(p, nodes, d, hashes, n), k, op),
    decreases n,
{
    if n > 0 {
        lemma_replica_fold_keeps_holds(p, nodes, d, hashes, (n - 1) as nat, k, op);
        let e = replica_fold(p, nodes, d, hashes, (n - 1) as nat);
        lemma_plan_add_keeps_holds(e, k, op, replica_ns_name(d, (n - 1) as nat),
            pod_plan(nodes, replica_pod(d, (n - 1) as nat), hashes[n - 1]));
    }
}

/// Where a deployment has more pods running than it asks replicas, each pod whose replica
/// number is not below the number of replicas is deleted from its node: the plan holds that
/// deletion under the pod's name.
pub proof fn lemma_deployment_plan_culls_surplus(nodes: Seq<NodeStateView>, d: DeploymentView, hashes: Seq<Seq<char>>)
    ensures
        ({
            let existing = deployment_pods_by_replica(nodes, text_or_empty(d.metadata.name), text_or_empty(d.metadata.namespace));
            let r = replica_count(d);
            (r >= 0 && existing.len() > r) ==> forall|i: int| 0 <= i < existing.len() && (#[trigger] existing[i]).2 >= r ==>
                plan_holds(deployment_generic_plan(nodes, d, hashes), crate::naming::ns_name_of_text(existing[i].0.name), cull_op(existing[i]))
        }),
{
    let dn = text_or_empty(d.metadata.name);
    let ns = text_or_empty(d.metadata.namespace);
    let existing = deployment_pods_by_replica(nodes, dn, ns);
    let r = replica_count(d);
    if r >= 0 && existing.len() > r {
        let g = cluster_generation(nodes, ResourceType::Deployment, ns, dn);
        let d2 = DeploymentView { metadata: ObjectMetaView { generation: Some(g), ..d.metadata }, ..d };
        let defaults = Seq::new(nodes.len(), |i: int| op_view(SupportedResourcesView::Deployment(d2), Some(nodes[i]), OpType::Create, true));
        let start = seq![(metadata_name_spec(d2.metadata), defaults)];
        lemma_cull_fold_holds(start, existing, r as u32);
        assert forall|i: int| 0 <= i < existing.len() && (#[trigger] existing[i]).2 >= r implies
            plan_holds(deployment_generic_plan(nodes, d, hashes), crate::naming::ns_name_of_text(existing[i].0.name), cull_op(existing[i])) by {
            lemma_replica_fold_keeps_holds(cull_fold(start, existing, r as u32), nodes, d, hashes,
                if r > 0 { r as nat } else { 0 }, crate::naming::ns_name_of_text(existing[i].0.name), cull_op(existing[i]));
        }
    }
}

/// Whether an operation puts the resource `r` in place on the node `n`: it creates it there,
/// keeps it, or replaces it there.
pub open spec fn places_on(op: ScheduledOperationView, r: SupportedResourcesView, n: NodeStateView) -> bool {
    &&& op.resource == r
    &&& op.node == Some(n)
    &&& (op.operation == OpType::Create || op.operation == OpType::Unchanged || op.operation == OpType::Clobber)
}

/// A resource that every node holds a copy of (a service, an ingress, a cluster issuer, a
/// secret) is planned node by node: every operation concerns the resource on one of the nodes,
/// and each node that takes work gets an operation that puts the resource in place there.
pub proof fn lemma_per_node_ops_cover(nodes: Seq<NodeStateView>, t: ResourceType, ns: Seq<char>, name: Seq<char>, hash: Seq<char>, r: SupportedResourcesView, clobber: bool)
    ensures
        forall|j: int| 0 <= j < per_node_ops(nodes, t, ns, name, hash, r, clobber).len() ==> {
            let op = #[trigger] per_node_ops(nodes, t, ns, name, hash, r, clobber)[j];
            op.resource == r && (op.node matches Some(n) && nodes.contains(n))
        },
        forall|i: int| 0 <= i < nodes.len() && node_schedulable(#[trigger] nodes[i]) ==>
            exists|j: int| 0 <= j < per_node_ops(nodes, t, ns, name, hash, r, clobber).len()
                && places_on(per_node_ops(nodes, t, ns, name, hash, r, clobber)[j], r, nodes[i]),
    decreases nodes.len(),
{
    if nodes.len() > 0 {
        let rest = nodes.drop_first();
        lemma_per_node_ops_cover(rest, t, ns, name, hash, r, clobber);
        let first = node_ops(nodes[0], t, ns, name, hash, r, clobber);
        let tail = per_node_ops(rest, t, ns, name, hash, r, clobber);
        let all = per_node_ops(nodes, t, ns, name, hash, r, clobber);
        assert(all == first + tail);
        assert forall|j: int| 0 <= j < all.len() implies {
            let op = #[trigger] all[j];
            op.resource == r && (op.node matches Some(n) && nodes.contains(n))
        } by {
            if j < first.len() {
                assert(all[j] == first[j]);
                assert(nodes[0] == nodes[0]);
                assert(nodes.contains(nodes[0]));
            } else {
                assert(all[j] == tail[j - first.len()]);
                let n = tail[j - first.len()].node->0;
                let k = choose|k: int| 0 <= k < rest.len() && rest[k] == n;
                assert(nodes[k + 1] == n);
            }
        }
        assert forall|i: int| 0 <= i < nodes.len() && node_schedulable(#[trigger] nodes[i]) implies
            exists|j: int| 0 <= j < all.len() && places_on(all[j], r, nodes[i]) by {
            if i == 0 {
                assert(places_on(all[first.len() - 1], r, nodes[0]));
            } else {
                assert(rest[i - 1] == nodes[i]);
                let j = choose|j: int| 0 <= j < tail.len() && places_on(tail[j], r, rest[i - 1]);
                assert(all[first.len() + j] == tail[j]);
            }
        }
    }
}

/// What planning a pod decides, by the pods of its name that the nodes run (in the cluster's
/// order): with none, it is created; otherwise every one after the first is deleted from its
/// node, and the first is kept where it carries the new hash, runs and its node takes work, and
/// is otherwise deleted from its node and the pod created anew.
pub proof fn lemma_pod_plan_choice(nodes: Seq<NodeStateView>, pod: PodView, hash: Seq<char>)
    ensures
        ({
            let np = SupportedResourcesView::Pod(planned_pod(pod, hash));
            let name = metadata_name_spec(pod.metadata);
            let existing = labelled_pods(nodes, "skate.io/name"@, name.name, name.namespace);
            let ops = pod_plan(nodes, pod, hash);
            &&& existing.len() == 0 ==> ops == seq![op_view(np, None, OpType::Create, false)]
            &&& existing.len() > 0 ==> {
                let first = existing[0];
                let keep = info_hash(first.0) == hash && first.0.status == PodmanPodStatus::Running && node_schedulable(first.1);
                let culls = (existing.len() - 1) as int;
                &&& ops.len() == culls + (if keep { 1int } else { 2int })
                &&& forall|j: int| 0 <= j < culls ==> #[trigger] ops[j] == op_view(SupportedResourcesView::Pod(pod_from_info(existing[j + 1].0)), Some(existing[j + 1].1), OpType::Delete, false)
                &&& keep ==> ops[culls] == op_view(np, Some(first.1), OpType::Unchanged, false)
                &&& !keep ==> ops[culls] == op_view(np, Some(first.1), OpType::Delete, false) && ops[culls + 1] == op_view(np, None, OpType::Create, false)
            }
        }),
{
    let name = metadata_name_spec(pod.metadata);
    let existing = labelled_pods(nodes, "skate.io/name"@, name.name, name.namespace);
    if existing.len() == 0 {
        assert(pod_plan(nodes, pod, hash) =~= seq![op_view(SupportedResourcesView::Pod(planned_pod(pod, hash)), None, OpType::Create, false)]);
    }
}

proof fn lemma_insert_by_replica_contents(sorted: Seq<(PodmanPodInfoView, NodeStateView, u32)>, x: (PodmanPodInfoView, NodeStateView, u32))
    ensures
        insert_by_replica(sorted, x).len() == sorted.len() + 1,
        insert_by_replica(sorted, x).contains(x),
        forall|i: int| 0 <= i < sorted.len() ==> insert_by_replica(sorted, x).contains(#[trigger] sorted[i]),
    decreases sorted.len(),
{
    let r = insert_by_replica(sorted, x);
    if sorted.len() == 0 || sorted.last().2 <= x.2 {
        assert(r[sorted.len() as int] == x);
        assert forall|i: int| 0 <= i < sorted.len() implies r.contains(#[trigger] sorted[i]) by {
            assert(r[i] == sorted[i]);
        }
    } else {
        let p = sorted.drop_last();
        lemma_insert_by_replica_contents(p, x);
        let q = insert_by_replica(p, x);
        assert(r == q.push(sorted.last()));
        let j = choose|j: int| 0 <= j < q.len() && q[j] == x;
        assert(r[j] == x);
        assert forall|i: int| 0 <= i < sorted.len() implies r.contains(#[trigger] sorted[i]) by {
            if i == sorted.len() - 1 {
                assert(r[q.len() as int] == sorted[i]);
            } else {
                assert(p[i] == sorted[i]);
                let k = choose|k: int| 0 <= k < q.len() && q[k] == p[i];
                assert(r[k] == sorted[i]);
            }
        }
    }
}

proof fn lemma_sort_by_replica_contents(s: Seq<(PodmanPodInfoView, NodeStateView, u32)>)
    ensures
        sort_by_replica(s).len() == s.len(),
        forall|i: int| 0 <= i < s.len() ==> sort_by_replica(s).contains(#[trigger] s[i]),
    decreases s.len(),
{
    if s.len() > 0 {
        let p = s.drop_last();
        lemma_sort_by_replica_contents(p);
        let t = sort_by_replica(p);
        lemma_insert_by_replica_contents(t, s.last());
        assert forall|i: int| 0 <= i < s.len() implies sort_by_replica(s).contains(#[trigger] s[i]) by {
            if i < s.len() - 1 {
                assert(p[i] == s[i]);
                let k = choose|k: int| 0 <= k < t.len() && t[k] == p[i];
                assert(t.contains(t[k]));
            }
        }
    }
}

/// On a scale-down, a deployment pod whose `skate.io/replica` label reads as a number not below
/// the replicas asked for is deleted from its node: where the cluster runs more pods labelled
/// with the deployment (in its namespace) than it asks, the plan holds, under the pod's name, a
/// deletion of that pod on the node that runs it.
pub proof fn lemma_scale_down_deletes_by_replica_label(nodes: Seq<NodeStateView>, d: DeploymentView, hashes: Seq<Seq<char>>)
    ensures
        ({
            let running = labelled_pods(nodes, "skate.io/deployment"@, text_or_empty(d.metadata.name), text_or_empty(d.metadata.namespace));
            let r = replica_count(d);
            forall|i: int| 0 <= i < running.len() && r >= 0 && running.len() > r
                && (#[trigger] running[i]).0.labels.contains_key("skate.io/replica"@)
                && crate::text::parse_u32_spec(running[i].0.labels["skate.io/replica"@]) is Some
                && crate::text::parse_u32_spec(running[i].0.labels["skate.io/replica"@])->0 >= r
                ==> plan_holds(
                    deployment_generic_plan(nodes, d, hashes),
                    crate::naming::ns_name_of_text(running[i].0.name),
                    op_view(SupportedResourcesView::Pod(pod_from_info(running[i].0)), Some(running[i].1), OpType::Delete, false),
                )
        }),
{
    let dn = text_or_empty(d.metadata.name);
    let ns = text_or_empty(d.metadata.namespace);
    let running = labelled_pods(nodes, "skate.io/deployment"@, dn, ns);
    let r = replica_count(d);
    let tagged = running.map_values(|e: (PodmanPodInfoView, NodeStateView)| with_replica(e));
    let sorted = sort_by_replica(tagged);
    lemma_sort_by_replica_contents(tagged);
    let existing = deployment_pods_by_replica(nodes, dn, ns);
    assert(existing == reversed(sorted));
    lemma_deployment_plan_culls_surplus(nodes, d, hashes);
    assert forall|i: int| 0 <= i < running.len() && r >= 0 && running.len() > r
        && (#[trigger] running[i]).0.labels.contains_key("skate.io/replica"@)
        && crate::text::parse_u32_spec(running[i].0.labels["skate.io/replica"@]) is Some
        && crate::text::parse_u32_spec(running[i].0.labels["skate.io/replica"@])->0 >= r
        implies plan_holds(
            deployment_generic_plan(nodes, d, hashes),
            crate::naming::ns_name_of_text(running[i].0.name),
            op_view(SupportedResourcesView::Pod(pod_from_info(running[i].0)), Some(running[i].1), OpType::Delete, false),
        ) by {
        let e = tagged[i];
        assert(e == with_replica(running[i]));
        assert(e.2 >= r);
        let k = choose|k: int| 0 <= k < sorted.len() && sorted[k] == tagged[i];
        let m = sorted.len() - 1 - k;
        assert(existing[m] == sorted[k]);
        assert(existing.len() == running.len());
        assert(cull_op(existing[m]) == op_view(SupportedResourcesView::Pod(pod_from_info(running[i].0)), Some(running[i].1), OpType::Delete, false));
    }
}

/// The pod a daemonset plans for a node is bound to that node: its node selector maps
/// `skate.io/nodename` to the node's name and keeps every other entry of the template's
/// selector.
pub proof fn lemma_daemonset_pod_bound_to_node(ds: DaemonSetView, node_name: Seq<char>)
    ensures
        ({
            let template_sel: Map<Seq<char>, Seq<char>> = match ds.spec {
                Some(sp) => match sp.template.spec {
                    Some(ps) => match ps.node_selector { Some(m) => m, None => Map::empty() },
                    None => Map::empty(),
                },
                None => Map::empty(),
            };
            daemonset_pod(ds, node_name).spec matches Some(ps2) && (ps2.node_selector matches Some(sel) && {
                &&& sel.contains_key("skate.io/nodename"@)
                &&& sel["skate.io/nodename"@] == node_name
                &&& sel.dom() == template_sel.dom().insert("skate.io/nodename"@)
                &&& forall|k: Seq<char>| #[trigger] template_sel.contains_key(k) && k != "skate.io/nodename"@ ==> sel[k] == template_sel[k]
            })
        }),
{
    let ps2 = daemonset_pod(ds, node_name).spec->0;
    let sel = ps2.node_selector->0;
    let template_sel: Map<Seq<char>, Seq<char>> = match ds.spec {
        Some(sp) => match sp.template.spec {
            Some(ps) => match ps.node_selector { Some(m) => m, None => Map::empty() },
            None => Map::empty(),
        },
        None => Map::empty(),
    };
    assert(default_pod_spec().node_selector is None);
    assert(sel.dom() =~= template_sel.dom().insert("skate.io/nodename"@));
}

/// A resource that each node holds a copy of is left unchanged on a node only where the copy
/// the node holds carries the new hash; where a node that takes work holds a copy with another
/// hash and the kind is not replaced in place, the copy is deleted there and created again.
pub proof fn lemma_per_node_unchanged_only_when_same_hash(nodes: Seq<NodeStateView>, t: ResourceType, ns: Seq<char>, name: Seq<char>, hash: Seq<char>, r: SupportedResourcesView, clobber: bool)
    ensures
        forall|j: int| 0 <= j < per_node_ops(nodes, t, ns, name, hash, r, clobber).len()
            && (#[trigger] per_node_ops(nodes, t, ns, name, hash, r, clobber)[j]).operation == OpType::Unchanged
            ==> (per_node_ops(nodes, t, ns, name, hash, r, clobber)[j].node matches Some(n)
                && (first_item(crate::state::node_resources(n), t, ns, name) matches Some(o) && o.manifest_hash == hash)),
        forall|i: int| 0 <= i < nodes.len() && node_schedulable(#[trigger] nodes[i]) && !clobber
            && first_item(crate::state::node_resources(nodes[i]), t, ns, name) is Some
            && first_item(crate::state::node_resources(nodes[i]), t, ns, name)->0.manifest_hash != hash
            ==> node_ops(nodes[i], t, ns, name, hash, r, clobber) == seq![
                op_view(r, Some(nodes[i]), OpType::Delete, false),
                op_view(r, Some(nodes[i]), OpType::Create, false),
            ],
    decreases nodes.len(),
{
    if nodes.len() > 0 {
        let rest = nodes.drop_first();
        lemma_per_node_unchanged_only_when_same_hash(rest, t, ns, name, hash, r, clobber);
        let first = node_ops(nodes[0], t, ns, name, hash, r, clobber);
        let tail = per_node_ops(rest, t, ns, name, hash, r, clobber);
        let all = per_node_ops(nodes, t, ns, name, hash, r, clobber);
        assert(all == first + tail);
        assert forall|j: int| 0 <= j < all.len() && (#[trigger] all[j]).operation == OpType::Unchanged
            implies (all[j].node matches Some(n)
                && (first_item(crate::state::node_resources(n), t, ns, name) matches Some(o) && o.manifest_hash == hash)) by {
            if j < first.len() {
                assert(all[j] == first[j]);
            } else {
                assert(all[j] == tail[j - first.len()]);
            }
        }
    }
}

/// A cron job that the cluster already holds is left unchanged only where the stored copy
/// carries the new hash; with another hash it is deleted on the node that holds it and created
/// anew, and with none found it is created.
pub proof fn lemma_cronjob_plan_by_hash(nodes: Seq<NodeStateView>, cron: CronJobView, hash: Seq<char>)
    ensures
        ({
            let n = metadata_name_spec(cron.metadata);
            let p = cronjob_plan(nodes, cron, hash);
            let found = first_in_cluster(nodes, ResourceType::CronJob, n.namespace, n.name);
            let stored = found->0;
            &&& p.len() == 1
            &&& p[0].0 == n
            &&& forall|j: int| 0 <= j < p[0].1.len() && (#[trigger] p[0].1[j]).operation == OpType::Unchanged
                ==> (found is Some && stored.0.manifest_hash == hash && p[0].1[j].node == Some(stored.1))
            &&& (found is Some && stored.0.manifest_hash != hash) ==> {
                &&& p[0].1.len() == 2
                &&& p[0].1[0].operation == OpType::Delete && p[0].1[0].node == Some(stored.1)
                &&& p[0].1[1].operation == OpType::Create && p[0].1[1].node is None
            }
            &&& found is None ==> (p[0].1.len() == 1 && p[0].1[0].operation == OpType::Create && p[0].1[0].node is None)
        }),
{
}

/// The pod planned for replica `i` of a deployment carries the labels by which the cluster's
/// pods are later traced back to it: its name, its deployment and its replica number, written
/// so that a running pod with those labels is read back as replica `i`.
pub proof fn lemma_replica_pod_reads_back(d: DeploymentView, i: nat, p: PodmanPodInfoView, n: NodeStateView)
    requires
        i <= u32::MAX,
        replica_pod(d, i).metadata.labels == Some(p.labels),
    ensures
        p.labels.contains_key("skate.io/name"@) && p.labels["skate.io/name"@] == "dpl-"@ + text_or_empty(d.metadata.name) + "-"@ + crate::text::decimal(i),
        p.labels.contains_key("skate.io/deployment"@) && p.labels["skate.io/deployment"@] == text_or_empty(d.metadata.name),
        p.labels.contains_key("skate.io/replica"@) && crate::text::parse_u32_spec(p.labels["skate.io/replica"@]) == Some(i as u32),
        with_replica((p, n)).2 == i,
        replica_pod(d, i).metadata.namespace == Some(text_or_empty(d.metadata.namespace)),
{
    reveal_strlit("skate.io/name");
    reveal_strlit("skate.io/deployment");
    reveal_strlit("skate.io/replica");
    assert("skate.io/name"@ != "skate.io/deployment"@) by { assert("skate.io/name"@.len() != "skate.io/deployment"@.len()); }
    assert("skate.io/name"@ != "skate.io/replica"@) by { assert("skate.io/name"@.len() != "skate.io/replica"@.len()); }
    assert("skate.io/deployment"@ != "skate.io/replica"@) by { assert("skate.io/deployment"@.len() != "skate.io/replica"@.len()); }
    crate::text::lemma_decimal_reads_back(i);
}

proof fn lemma_replica_fold_holds(
    p: Seq<(NamespacedNameView, Seq<ScheduledOperationView>)>,
    nodes: Seq<NodeStateView>,
    d: DeploymentView,
    hashes: Seq<Seq<char>>,
    n: nat,
)
    ensures
        forall|i: nat, j: int| i < n && 0 <= j < pod_plan(nodes, replica_pod(d, i), hashes[i as int]).len() ==>
            plan_holds(replica_fold(p, nodes, d, hashes, n), replica_ns_name(d, i), #[trigger] pod_plan(nodes, replica_pod(d, i), hashes[i as int])[j]),
    decreases n,
{
    if n > 0 {
        let m = (n - 1) as nat;
        lemma_replica_fold_holds(p, nodes, d, hashes, m);
        let e = replica_fold(p, nodes, d, hashes, m);
        let k = replica_ns_name(d, m);
        let ops = pod_plan(nodes, replica_pod(d, m), hashes[m as int]);
        assert forall|i: nat, j: int| i < n && 0 <= j < pod_plan(nodes, replica_pod(d, i), hashes[i as int]).len() implies
            plan_holds(replica_fold(p, nodes, d, hashes, n), replica_ns_name(d, i), #[trigger] pod_plan(nodes, replica_pod(d, i), hashes[i as int])[j]) by {
            let op = pod_plan(nodes, replica_pod(d, i), hashes[i as int])[j];
            if i == m {
                assert(ops[j] == op);
                lemma_plan_add_holds_new(e, k, ops, op);
            } else {
                lemma_plan_add_keeps_holds(e, replica_ns_name(d, i), op, k, ops);
            }
        }
    }
}

/// Every replica a deployment asks for is planned: for each `i` below the number of replicas,
/// the plan holds, under the name `dpl-<deployment>-<i>` in the deployment's namespace, every
/// operation that places replica `i`'s pod with its hash.
pub proof fn lemma_deployment_plans_each_replica(nodes: Seq<NodeStateView>, d: DeploymentView, hashes: Seq<Seq<char>>)
    ensures
        forall|i: nat, j: int| i < replica_count(d) && 0 <= j < pod_plan(nodes, replica_pod(d, i), hashes[i as int]).len() ==>
            plan_holds(
                deployment_generic_plan(nodes, d, hashes),
                NamespacedNameView { name: "dpl-"@ + text_or_empty(d.metadata.name) + "-"@ + crate::text::decimal(i), namespace: text_or_empty(d.metadata.namespace) },
                #[trigger] pod_plan(nodes, replica_pod(d, i), hashes[i as int])[j],
            ),
{
    let dn = text_or_empty(d.metadata.name);
    let ns = text_or_empty(d.metadata.namespace);
    let g = cluster_generation(nodes, ResourceType::Deployment, ns, dn);
    let d2 = DeploymentView { metadata: ObjectMetaView { generation: Some(g), ..d.metadata }, ..d };
    let defaults = Seq::new(nodes.len(), |i: int| op_view(SupportedResourcesView::Deployment(d2), Some(nodes[i]), OpType::Create, true));
    let start = seq![(metadata_name_spec(d2.metadata), defaults)];
    let replicas = replica_count(d);
    let existing = deployment_pods_by_replica(nodes, dn, ns);
    let culled = if replicas >= 0 && existing.len() > replicas { cull_fold(start, existing, replicas as u32) } else { start };
    lemma_replica_fold_holds(culled, nodes, d, hashes, if replicas > 0 { replicas as nat } else { 0 });
}

proof fn lemma_plan_get_set_same(s: Seq<(NamespacedNameView, Seq<ScheduledOperationView>)>, k: NamespacedNameView, ops: Seq<ScheduledOperationView>)
    ensures
        plan_get(plan_set(s, k, ops), k) == Some(ops),
    decreases s.len(),
{
    if s.len() > 0 && s[0].0 != k {
        let q = plan_set(s, k, ops);
        assert(q.drop_first() =~= plan_set(s.drop_first(), k, ops));
        lemma_plan_get_set_same(s.drop_first(), k, ops);
    }
}

proof fn lemma_plan_get_set_other(
    s: Seq<(NamespacedNameView, Seq<ScheduledOperationView>)>,
    k: NamespacedNameView,
    k2: NamespacedNameView,
    ops: Seq<ScheduledOperationView>,
)
    requires
        k2 != k,
    ensures
        plan_get(plan_set(s, k2, ops), k) == plan_get(s, k),
    decreases s.len(),
{
    let q = plan_set(s, k2, ops);
    if s.len() == 0 {
        assert(q[0].0 == k2);
        assert(q.drop_first() =~= Seq::<(NamespacedNameView, Seq<ScheduledOperationView>)>::empty());
    } else if s[0].0 == k2 {
        assert(q[0].0 == k2);
        assert(q.drop_first() =~= s.drop_first());
    } else {
        assert(q[0] == s[0]);
        assert(q.drop_first() =~= plan_set(s.drop_first(), k2, ops));
        if s[0].0 != k {
            lemma_plan_get_set_other(s.drop_first(), k, k2, ops);
        }
    }
}

proof fn lemma_daemonset_pod_key_names_node(ds: DaemonSetView, a: Seq<char>, b: Seq<char>)
    requires
        daemonset_pod_key(ds, a) == daemonset_pod_key(ds, b),
    ensures
        a == b,
{
    let pre = "dms-"@ + text_or_empty(ds.metadata.name) + "-"@;
    assert(daemonset_pod_name(ds, a) == pre + a);
    assert(daemonset_pod_name(ds, b) == pre + b);
    assert((pre + a).skip(pre.len() as int) =~= a);
    assert((pre + b).skip(pre.len() as int) =~= b);
}

/// No node after the `i`-th, among the first `n`, has the `i`-th node's name.
#[verifier::opaque]
pub open spec fn last_of_its_name(nodes: Seq<NodeStateView>, i: int, n: int) -> bool {
    forall|j: int| i < j < n ==> nodes[j].node_name != nodes[i].node_name
}

#[verifier::spinoff_prover]
proof fn lemma_ds_pod_fold_sets(
    p: Seq<(NamespacedNameView, Seq<ScheduledOperationView>)>,
    nodes: Seq<NodeStateView>,
    ds: DaemonSetView,
    hashes: Seq<Seq<char>>,
    n: nat,
    i: int,
)
    requires
        n <= nodes.len(),
        0 <= i < n,
        node_schedulable(nodes[i]),
        last_of_its_name(nodes, i, n as int),
    ensures
        plan_get(ds_pod_fold(p, nodes, ds, hashes, n), daemonset_pod_key(ds, nodes[i].node_name))
            == Some(pod_plan(nodes, daemonset_pod(ds, nodes[i].node_name), hashes[i])),
    decreases n,
{
    let m = (n - 1) as nat;
    let e = ds_pod_fold(p, nodes, ds, hashes, m);
    let km = daemonset_pod_key(ds, nodes[m as int].node_name);
    let opsm = pod_plan(nodes, daemonset_pod(ds, nodes[m as int].node_name), hashes[m as int]);
    if i == m {
        assert(ds_pod_fold(p, nodes, ds, hashes, n) == plan_set(e, km, opsm));
        lemma_plan_get_set_same(e, km, opsm);
    } else {
        assert(last_of_its_name(nodes, i, m as int)) by {
            reveal(last_of_its_name);
        }
        assert(nodes[m as int].node_name != nodes[i].node_name) by {
            reveal(last_of_its_name);
        }
        lemma_ds_pod_fold_sets(p, nodes, ds, hashes, m, i);
        if node_schedulable(nodes[m as int]) {
            let ki = daemonset_pod_key(ds, nodes[i].node_name);
            if km == ki {
                lemma_daemonset_pod_key_names_node(ds, nodes[m as int].node_name, nodes[i].node_name);
            }
            assert(ds_pod_fold(p, nodes, ds, hashes, n) == plan_set(e, km, opsm));
            lemma_plan_get_set_other(e, ki, km, opsm);
        } else {
            assert(ds_pod_fold(p, nodes, ds, hashes, n) == e);
        }
    }
}

/// A daemonset places one pod on each node that takes work: under the name
/// `dms-<daemonset>-<node>` in the daemonset's namespace, the plan holds exactly the operations
/// that place the daemonset's pod for that node (bound to it, see
/// `lemma_daemonset_pod_bound_to_node`) with the node's hash. Where two nodes share a name, the
/// later one's pod is the one planned.
pub proof fn lemma_daemonset_pod_per_node(nodes: Seq<NodeStateView>, ds: DaemonSetView, hashes: Seq<Seq<char>>)
    ensures
        forall|i: int| 0 <= i < nodes.len() && node_schedulable(#[trigger] nodes[i])
            && (forall|j: int| i < j < nodes.len() ==> nodes[j].node_name != nodes[i].node_name)
            ==> plan_get(
                daemonset_plan(nodes, ds, hashes),
                NamespacedNameView { name: "dms-"@ + text_or_empty(ds.metadata.name) + "-"@ + nodes[i].node_name, namespace: text_or_empty(ds.metadata.namespace) },
            ) == Some(pod_plan(nodes, daemonset_pod(ds, nodes[i].node_name), hashes[i])),
{
    let dsn = text_or_empty(ds.metadata.name);
    let ns = text_or_empty(ds.metadata.namespace);
    let g = cluster_generation(nodes, ResourceType::DaemonSet, ns, dsn);
    let ds2 = DaemonSetView { metadata: ObjectMetaView { generation: Some(g), ..ds.metadata }, ..ds };
    let defaults = Seq::new(nodes.len(), |i: int| op_view(SupportedResourcesView::DaemonSet(ds2), Some(nodes[i]), OpType::Create, true));
    let start = seq![(metadata_name_spec(ds2.metadata), defaults)];
    let culled = ds_cull_fold(start, nodes, dsn, ns, nodes.len());
    assert forall|i: int| 0 <= i < nodes.len() && node_schedulable(#[trigger] nodes[i])
        && (forall|j: int| i < j < nodes.len() ==> nodes[j].node_name != nodes[i].node_name)
        implies plan_get(
            daemonset_plan(nodes, ds, hashes),
            NamespacedNameView { name: "dms-"@ + dsn + "-"@ + nodes[i].node_name, namespace: ns },
        ) == Some(pod_plan(nodes, daemonset_pod(ds, nodes[i].node_name), hashes[i])) by {
        assert(last_of_its_name(nodes, i, nodes.len() as int)) by {
            reveal(last_of_its_name);
        }
        lemma_ds_pod_fold_sets(culled, nodes, ds, hashes, nodes.len(), i);
    }
}

proof fn lemma_labelled_on_node_contains(pods: Seq<PodmanPodInfoView>, node: NodeStateView, key: Seq<char>, value: Seq<char>, ns: Seq<char>, j: int)
    requires
        0 <= j < pods.len(),
        crate::state::pod_labelled(pods[j], key, value, ns),
    ensures
        crate::state::labelled_on_node(pods, node, key, value, ns).contains((pods[j], node)),
    decreases pods.len(),
{
    let l = crate::state::labelled_on_node(pods, node, key, value, ns);
    if j == 0 {
        assert(l[0] == (pods[0], node));
    } else {
        let rest = pods.drop_first();
        assert(rest[j - 1] == pods[j]);
        lemma_labelled_on_node_contains(rest, node, key, value, ns, j - 1);
        let lr = crate::state::labelled_on_node(rest, node, key, value, ns);
        let k = choose|k: int| 0 <= k < lr.len() && lr[k] == (pods[j], node);
        if crate::state::pod_labelled(pods[0], key, value, ns) {
            assert(l == seq![(pods[0], node)] + lr);
            assert(l[k + 1] == lr[k]);
        } else {
            assert(l == lr);
        }
    }
}

/// The deletion of a pod found on a node.
pub open spec fn pod_delete_op(c: (PodmanPodInfoView, NodeStateView)) -> ScheduledOperationView {
    op_view(SupportedResourcesView::Pod(pod_from_info(c.0)), Some(c.1), OpType::Delete, false)
}

proof fn lemma_delete_pods_fold_keeps(p: Seq<(NamespacedNameView, Seq<ScheduledOperationView>)>, pods: Seq<(PodmanPodInfoView, NodeStateView)>, k: NamespacedNameView, op: ScheduledOperationView)
    requires
        plan_holds(p, k, op),
    ensures
        plan_holds(delete_pods_fold(p, pods), k, op),
    decreases pods.len(),
{
    if pods.len() > 0 {
        lemma_delete_pods_fold_keeps(p, pods.drop_last(), k, op);
        let c = pods.last();
        lemma_plan_add_keeps_holds(delete_pods_fold(p, pods.drop_last()), k, op, crate::naming::ns_name_of_text(c.0.name), seq![pod_delete_op(c)]);
    }
}

proof fn lemma_delete_pods_fold_holds(p: Seq<(NamespacedNameView, Seq<ScheduledOperationView>)>, pods: Seq<(PodmanPodInfoView, NodeStateView)>, k: int)
    requires
        0 <= k < pods.len(),
    ensures
        plan_holds(delete_pods_fold(p, pods), crate::naming::ns_name_of_text(pods[k].0.name), pod_delete_op(pods[k])),
    decreases pods.len(),
{
    let c = pods.last();
    let e = delete_pods_fold(p, pods.drop_last());
    let ops = seq![pod_delete_op(c)];
    if k == pods.len() - 1 {
        assert(ops[0] == pod_delete_op(c));
        lemma_plan_add_holds_new(e, crate::naming::ns_name_of_text(c.0.name), ops, pod_delete_op(c));
    } else {
        assert(pods.drop_last()[k] == pods[k]);
        lemma_delete_pods_fold_holds(p, pods.drop_last(), k);
        lemma_plan_add_keeps_holds(e, crate::naming::ns_name_of_text(pods[k].0.name), pod_delete_op(pods[k]), crate::naming::ns_name_of_text(c.0.name), ops);
    }
}

proof fn lemma_ds_cull_fold_holds(
    p: Seq<(NamespacedNameView, Seq<ScheduledOperationView>)>,
    nodes: Seq<NodeStateView>,
    dsn: Seq<char>,
    ns: Seq<char>,
    n: nat,
    i: int,
    j: int,
)
    requires
        n <= nodes.len(),
        0 <= i < n,
        !node_schedulable(nodes[i]),
        0 <= j < node_pods(nodes[i]).len(),
        crate::state::pod_labelled(node_pods(nodes[i])[j], "skate.io/daemonset"@, dsn, ns),
    ensures
        plan_holds(ds_cull_fold(p, nodes, dsn, ns, n), crate::naming::ns_name_of_text(node_pods(nodes[i])[j].name),
            pod_delete_op((node_pods(nodes[i])[j], nodes[i]))),
    decreases n,
{
    let m = (n - 1) as nat;
    let e = ds_cull_fold(p, nodes, dsn, ns, m);
    let c = (node_pods(nodes[i])[j], nodes[i]);
    let k = crate::naming::ns_name_of_text(c.0.name);
    if i == m {
        let l = crate::state::labelled_on_node(node_pods(nodes[i]), nodes[i], "skate.io/daemonset"@, dsn, ns);
        lemma_labelled_on_node_contains(node_pods(nodes[i]), nodes[i], "skate.io/daemonset"@, dsn, ns, j);
        let x = choose|x: int| 0 <= x < l.len() && l[x] == c;
        lemma_delete_pods_fold_holds(e, l, x);
    } else {
        lemma_ds_cull_fold_holds(p, nodes, dsn, ns, m, i, j);
        let node = nodes[m as int];
        if !node_schedulable(node) {
            lemma_delete_pods_fold_keeps(e, crate::state::labelled_on_node(node_pods(node), node, "skate.io/daemonset"@, dsn, ns), k, pod_delete_op(c));
        }
    }
}

/// No node that takes work, among the first `n`, has its daemonset pod planned under `k`.
#[verifier::opaque]
pub open spec fn no_pod_key_is(nodes: Seq<NodeStateView>, ds: DaemonSetView, k: NamespacedNameView, n: int) -> bool {
    forall|m: int| 0 <= m < n && node_schedulable(#[trigger] nodes[m]) ==> daemonset_pod_key(ds, nodes[m].node_name) != k
}

proof fn lemma_ds_pod_fold_keeps(
    p: Seq<(NamespacedNameView, Seq<ScheduledOperationView>)>,
    nodes: Seq<NodeStateView>,
    ds: DaemonSetView,
    hashes: Seq<Seq<char>>,
    n: nat,
    k: NamespacedNameView,
    op: ScheduledOperationView,
)
    requires
        n <= nodes.len(),
        plan_holds(p, k, op),
        no_pod_key_is(nodes, ds, k, n as int),
    ensures
        plan_holds(ds_pod_fold(p, nodes, ds, hashes, n), k, op),
    decreases n,
{
    if n > 0 {
        let m = (n - 1) as nat;
        assert(no_pod_key_is(nodes, ds, k, m as int)) by {
            reveal(no_pod_key_is);
        }
        lemma_ds_pod_fold_keeps(p, nodes, ds, hashes, m, k, op);
        let e = ds_pod_fold(p, nodes, ds, hashes, m);
        let node = nodes[m as int];
        if node_schedulable(node) {
            let km = daemonset_pod_key(ds, node.node_name);
            assert(km != k) by {
                reveal(no_pod_key_is);
            }
            let ops = pod_plan(nodes, daemonset_pod(ds, node.node_name), hashes[m as int]);
            assert(ds_pod_fold(p, nodes, ds, hashes, n) == plan_set(e, km, ops));
            lemma_plan_get_set_other(e, k, km, ops);
        }
    }
}

/// A daemonset's pods on a node that no longer takes work are deleted there: each pod on such
/// a node labelled with the daemonset (in its namespace) has, under the pod's name, a deletion
/// of that pod on that node, unless a node that takes work has its own pod planned under that
/// very name.
pub proof fn lemma_daemonset_plan_deletes_on_idle_nodes(nodes: Seq<NodeStateView>, ds: DaemonSetView, hashes: Seq<Seq<char>>)
    ensures
        forall|i: int, j: int| 0 <= i < nodes.len() && !node_schedulable(nodes[i]) && 0 <= j < node_pods(nodes[i]).len()
            && crate::state::pod_labelled(#[trigger] node_pods(nodes[i])[j], "skate.io/daemonset"@, text_or_empty(ds.metadata.name), text_or_empty(ds.metadata.namespace))
            && no_pod_key_is(nodes, ds, crate::naming::ns_name_of_text(node_pods(nodes[i])[j].name), nodes.len() as int)
            ==> plan_holds(
                daemonset_plan(nodes, ds, hashes),
                crate::naming::ns_name_of_text(node_pods(nodes[i])[j].name),
                op_view(SupportedResourcesView::Pod(pod_from_info(node_pods(nodes[i])[j])), Some(nodes[i]), OpType::Delete, false),
            ),
{
    let dsn = text_or_empty(ds.metadata.name);
    let ns = text_or_empty(ds.metadata.namespace);
    let g = cluster_generation(nodes, ResourceType::DaemonSet, ns, dsn);
    let ds2 = DaemonSetView { metadata: ObjectMetaView { generation: Some(g), ..ds.metadata }, ..ds };
    let defaults = Seq::new(nodes.len(), |i: int| op_view(SupportedResourcesView::DaemonSet(ds2), Some(nodes[i]), OpType::Create, true));
    let start = seq![(metadata_name_spec(ds2.metadata), defaults)];
    let culled = ds_cull_fold(start, nodes, dsn, ns, nodes.len());
    assert forall|i: int, j: int| 0 <= i < nodes.len() && !node_schedulable(nodes[i]) && 0 <= j < node_pods(nodes[i]).len()
        && crate::state::pod_labelled(#[trigger] node_pods(nodes[i])[j], "skate.io/daemonset"@, dsn, ns)
        && no_pod_key_is(nodes, ds, crate::naming::ns_name_of_text(node_pods(nodes[i])[j].name), nodes.len() as int)
        implies plan_holds(
            daemonset_plan(nodes, ds, hashes),
            crate::naming::ns_name_of_text(node_pods(nodes[i])[j].name),
            op_view(SupportedResourcesView::Pod(pod_from_info(node_pods(nodes[i])[j])), Some(nodes[i]), OpType::Delete, false),
        ) by {
        lemma_ds_cull_fold_holds(start, nodes, dsn, ns, nodes.len(), i, j);
        lemma_ds_pod_fold_keeps(culled, nodes, ds, hashes, nodes.len(), crate::naming::ns_name_of_text(node_pods(nodes[i])[j].name),
            pod_delete_op((node_pods(nodes[i])[j], nodes[i])));
    }
}

/// A resource is deployed at the generation after the one the cluster holds for it: one more
/// than the stored generation where that is positive, and 1 for a resource the cluster does not
/// hold yet (or holds at no positive generation).
pub proof fn lemma_generation_advances(nodes: Seq<NodeStateView>, t: ResourceType, ns: Seq<char>, name: Seq<char>)
    ensures
        first_in_cluster(nodes, t, ns, name) is None ==> cluster_generation(nodes, t, ns, name) == 1,
        ({
            let stored = first_in_cluster(nodes, t, ns, name)->0;
            (first_in_cluster(nodes, t, ns, name) is Some && stored.0.generation <= 0) ==> cluster_generation(nodes, t, ns, name) == 1
        }),
        ({
            let stored = first_in_cluster(nodes, t, ns, name)->0;
            (first_in_cluster(nodes, t, ns, name) is Some && 0 < stored.0.generation < i64::MAX)
                ==> cluster_generation(nodes, t, ns, name) == stored.0.generation + 1
        }),
{
}

/// What one node gets of a resource that every node holds a copy of, by what it holds: a node
/// that no longer takes work loses its copy and gets nothing new; a node that takes work and
/// holds no copy gets one; one that holds a copy with another hash has it replaced in place
/// (secrets) or deleted and created again (the rest); one whose copy carries the new hash keeps
/// it.
pub proof fn lemma_node_ops_by_holding(n: NodeStateView, t: ResourceType, ns: Seq<char>, name: Seq<char>, hash: Seq<char>, r: SupportedResourcesView, clobber: bool)
    ensures
        ({
            let held = first_item(crate::state::node_resources(n), t, ns, name);
            let ops = node_ops(n, t, ns, name, hash, r, clobber);
            &&& (!node_schedulable(n) && held is Some) ==> ops == seq![op_view(r, Some(n), OpType::Delete, false)]
            &&& (!node_schedulable(n) && held is None) ==> ops.len() == 0
            &&& (node_schedulable(n) && held is None) ==> ops == seq![op_view(r, Some(n), OpType::Create, false)]
            &&& (node_schedulable(n) && held is Some && held->0.manifest_hash == hash) ==> ops == seq![op_view(r, Some(n), OpType::Unchanged, false)]
            &&& (node_schedulable(n) && held is Some && held->0.manifest_hash != hash && clobber) ==> ops == seq![op_view(r, Some(n), OpType::Clobber, false)]
            &&& (node_schedulable(n) && held is Some && held->0.manifest_hash != hash && !clobber) ==> ops == seq![
                op_view(r, Some(n), OpType::Delete, false),
                op_view(r, Some(n), OpType::Create, false),
            ]
        }),
{
}

} // verus!
