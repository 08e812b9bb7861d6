//! Carrying out a plan: for each planned operation, what happens where, and which operations
//! are reported back. The remote calls themselves are made by the program that drives the
//! library; it hands their outcomes back here.
use vstd::prelude::*;
use crate::errors::SkateError;
use crate::manifest::{
    kind_text, CronJobView, Pod, PodSpecView, PodView, SupportedResources, SupportedResourcesView,
};
use crate::naming::{metadata_name_spec, ns_name_text};
use crate::scheduler::{
    rejection_reasons, selection_failure_message, text_or_empty, NodeSelection, OpType,
    ScheduleResult, ScheduledOperation, ScheduledOperationView,
};
use crate::text::{join2, owned};

verus! {

/// What carrying out one operation comes to.
#[derive(Debug)]
pub enum ApplyAction {
    /// Remove the resource from `node`; `remote` is false on a dry run, where nothing is
    /// called and only the known state is updated.
    Remove { node: String, remote: bool },
    /// Put the resource on `node`; `remote` as for `Remove`.
    Place { node: String, remote: bool },
    /// Report the operation on `node` (it is returned as carried out).
    Report { node: String },
    /// Nothing to do (it is not returned).
    Keep,
}

/// The pod spec of a cron job's job template, where it has one.
pub open spec fn cron_pod_spec(c: CronJobView) -> Option<PodSpecView> {
    match c.spec {
        Some(s) => match s.job_template.spec {
            Some(j) => j.template.spec,
            None => None,
        },
        None => None,
    }
}

/// The pod that is placed for an operation that names no node: a pod itself, or, for a cron
/// job, a pod with the cron job's metadata and its job template's pod spec. Other kinds have
/// their node chosen when planned, so meeting one here is an internal error.
pub open spec fn placement_pod(r: SupportedResourcesView) -> Result<PodView, Seq<char>> {
    match r {
        SupportedResourcesView::Pod(p) => Ok(p),
        SupportedResourcesView::CronJob(c) => match cron_pod_spec(c) {
            Some(sp) => Ok(PodView { metadata: c.metadata, spec: Some(sp) }),
            None => Err("failed to find pod spec in cron job "@ + text_or_empty(c.metadata.name)),
        },
        _ => Err("internal scheduler error: found non pod resource "@ + kind_text(r.resource_type()) + ":"@
            + ns_name_text(metadata_name_spec(r.meta())) + " without a pre allocated node"@),
    }
}

/// The pod to choose a node for, for an operation that names no node (see `placement_pod`).
pub fn placement_pod_of(resource: &SupportedResources) -> (res: Result<Pod, SkateError>)
    ensures
        match placement_pod(resource.deep_view()) {
            Ok(p) => res matches Ok(q) && q.deep_view() == p,
            Err(m) => res matches Err(e) && e.message() == m,
        },
{
    match resource {
        SupportedResources::Pod(p) => Ok(p.clone()),
        SupportedResources::CronJob(c) => {
            let sp = match &c.spec {
                Some(s) => match &s.job_template.spec {
                    Some(j) => match &j.template.spec {
                        Some(sp) => Some(sp.clone()),
                        None => None,
                    },
                    None => None,
                },
                None => None,
            };
            match sp {
                Some(sp) => Ok(Pod { metadata: c.metadata.clone(), spec: Some(sp) }),
                None => {
                    let name = match &c.metadata.name {
                        Some(n) => n.clone(),
                        None => String::new(),
                    };
                    Err(SkateError::String(join2("failed to find pod spec in cron job ", name.as_str())))
                },
            }
        },
        _ => {
            let mut m = owned("internal scheduler error: found non pod resource ");
            let kind = resource.to_string();
            m.append(kind.as_str());
            m.append(":");
            let n = resource.name().to_string();
            m.append(n.as_str());
            m.append(" without a pre allocated node");
            Err(SkateError::String(m))
        },
    }
}

/// The message when no node was selected, given the refused nodes.
pub open spec fn selection_failure_text(rejected: Seq<crate::scheduler::RejectedNodeView>) -> Seq<char> {
    "failed to find feasible node ("@ + crate::text::decimal(rejected.len()) + " rejected): "@
        + rejection_reasons(rejected)
}

/// Decides how to carry out one planned operation.
///
/// - A delete removes the resource from the operation's node.
/// - A create or clobber places the resource on the operation's node where it names one;
///   otherwise on the node selected for its placement pod (`selected`, the node choice for
///   `placement_pod_of`). Without a placement pod, its error is returned; with no node
///   selected (or no selection given), the selection failure message.
/// - An info operation is reported on its node; an unchanged one is kept as it is.
/// - On a dry run no remote call is made (`remote` is false).
pub fn apply_decision(op: &ScheduledOperation, selected: Option<&NodeSelection>, dry_run: bool) -> (res: Result<ApplyAction, SkateError>)
    requires
        (op.operation == OpType::Delete || op.operation == OpType::Info || op.operation == OpType::Unchanged)
            ==> op.node is Some,
    ensures
        op.operation == OpType::Delete ==> (res matches Ok(ApplyAction::Remove { node, remote })
            && node@ == op.node->0.node_name@ && remote == !dry_run),
        op.operation == OpType::Info ==> (res matches Ok(ApplyAction::Report { node })
            && node@ == op.node->0.node_name@),
        op.operation == OpType::Unchanged ==> (res matches Ok(ApplyAction::Keep)),
        (op.operation == OpType::Create || op.operation == OpType::Clobber) ==> match op.node {
            Some(n) => res matches Ok(ApplyAction::Place { node, remote }) && node@ == n.node_name@ && remote == !dry_run,
            None => match placement_pod(op.resource.deep_view()) {
                Err(m) => res matches Err(e) && e.message() == m,
                Ok(_) => match selected {
                    Some(sel) => match sel.selected {
                        Some(n) => res matches Ok(ApplyAction::Place { node, remote }) && node@ == n.node_name@
                            && remote == !dry_run,
                        None => res matches Err(e) && e.message() == selection_failure_text(sel.rejected.deep_view()),
                    },
                    None => res matches Err(e) && e.message() == selection_failure_text(Seq::empty()),
                },
            },
        },
{
    match op.operation {
        OpType::Delete => {
            let n = op.node.as_ref().unwrap();
            Ok(ApplyAction::Remove { node: n.node_name.clone(), remote: !dry_run })
        },
        OpType::Info => {
            let n = op.node.as_ref().unwrap();
            Ok(ApplyAction::Report { node: n.node_name.clone() })
        },
        OpType::Unchanged => Ok(ApplyAction::Keep),
        OpType::Create | OpType::Clobber => {
            match &op.node {
                Some(n) => Ok(ApplyAction::Place { node: n.node_name.clone(), remote: !dry_run }),
                None => {
                    let _pod = placement_pod_of(&op.resource)?;
                    match selected {
                        Some(sel) => match &sel.selected {
                            Some(n) => Ok(ApplyAction::Place { node: n.node_name.clone(), remote: !dry_run }),
                            None => {
                                let m = selection_failure_message(&sel.rejected);
                                Err(SkateError::String(m))
                            },
                        },
                        None => {
                            let empty: Vec<crate::scheduler::RejectedNode> = Vec::new();
                            let m = selection_failure_message(&empty);
                            assert(empty.deep_view() =~= Seq::<crate::scheduler::RejectedNodeView>::empty());
                            Err(SkateError::String(m))
                        },
                    }
                },
            }
        },
    }
}

/// Records the outcome of carrying out a removal or a placement: on a dry run nothing is
/// recorded; otherwise the operation is added, with the error where the remote call failed.
pub fn record_applied(result: &mut Vec<ScheduledOperation>, op: ScheduledOperation, dry_run: bool, outcome: Result<(), String>)
    ensures
        dry_run ==> final(result).deep_view() == old(result).deep_view(),
        !dry_run && outcome is Ok ==> final(result).deep_view() == old(result).deep_view().push(op.deep_view()),
        !dry_run ==> (outcome matches Err(m) ==> final(result).deep_view() == old(result).deep_view().push(
            ScheduledOperationView { error: Some(m@), ..op.deep_view() },
        )),
{
    if dry_run {
        return;
    }
    let mut op = op;
    match outcome {
        Ok(()) => {},
        Err(m) => {
            op.error = Some(m);
        },
    }
    let ghost before = result.deep_view();
    result.push(op);
    assert(result.deep_view() =~= before.push(op.deep_view()));
}

/// The operations carried out so far, once one more operation is carried out: a reported
/// operation is returned as it is; a kept (unchanged) one is not returned; a removal or a
/// placement is returned only when its remote call was made, with the call's error where it
/// failed.
pub open spec fn step_record(
    acc: Seq<ScheduledOperationView>,
    op: ScheduledOperationView,
    action: ApplyAction,
    outcome: Result<(), Seq<char>>,
) -> Seq<ScheduledOperationView> {
    match action {
        ApplyAction::Keep => acc,
        ApplyAction::Report { .. } => acc.push(op),
        ApplyAction::Remove { remote, .. } | ApplyAction::Place { remote, .. } => if !remote {
            acc
        } else {
            match outcome {
                Ok(()) => acc.push(op),
                Err(m) => acc.push(ScheduledOperationView { error: Some(m), ..op }),
            }
        },
    }
}

/// Records one carried-out operation (see `step_record`); `outcome` is what the remote call
/// gave, where one was made.
pub fn record_step(result: &mut Vec<ScheduledOperation>, op: ScheduledOperation, action: &ApplyAction, outcome: Result<(), String>)
    ensures
        final(result).deep_view() == step_record(
            old(result).deep_view(),
            op.deep_view(),
            *action,
            match outcome { Ok(()) => Ok(()), Err(m) => Err(m@) },
        ),
{
    match action {
        ApplyAction::Keep => {},
        ApplyAction::Report { .. } => {
            let ghost before = result.deep_view();
            let ghost v = op.deep_view();
            result.push(op);
            assert(result.deep_view() =~= before.push(v));
        },
        ApplyAction::Remove { remote, .. } | ApplyAction::Place { remote, .. } => {
            record_applied(result, op, !*remote, outcome);
        },
    }
}

/// What scheduling one manifest contributes to the result: its operations, or an `Info`
/// operation on the manifest that carries the failure's text.
pub open spec fn outcome_ops(o: (SupportedResources, Result<Vec<ScheduledOperation>, String>)) -> Seq<ScheduledOperationView> {
    match o.1 {
        Ok(ops) => ops.deep_view(),
        Err(m) => seq![ScheduledOperationView {
            resource: o.0.deep_view(),
            node: None,
            operation: OpType::Info,
            error: Some(m@),
            silent: false,
        }],
    }
}

/// The operations of scheduling several manifests, manifest by manifest in order.
pub open spec fn scheduled_ops(outs: Seq<(SupportedResources, Result<Vec<ScheduledOperation>, String>)>) -> Seq<ScheduledOperationView>
    decreases outs.len(),
{
    if outs.len() == 0 {
        Seq::empty()
    } else {
        scheduled_ops(outs.drop_last()) + outcome_ops(outs.last())
    }
}

/// The result of scheduling several manifests, given what scheduling each gave, in order: the
/// operations of the ones that were scheduled, and an `Info` operation with the failure for
/// each one that was not (see `scheduled_ops`).
pub fn schedule_results(outcomes: Vec<(SupportedResources, Result<Vec<ScheduledOperation>, String>)>) -> (res: ScheduleResult)
    ensures
        res.deep_view().placements == scheduled_ops(outcomes@),
{
    let ghost all = outcomes@;
    let mut rest = outcomes;
    let mut rev: Vec<(SupportedResources, Result<Vec<ScheduledOperation>, String>)> = Vec::new();
    while rest.len() > 0
        invariant
            rest@ + rev@.reverse() == all,
        decreases rest.len(),
    {
        let ghost r0 = rest@;
        let ghost v0 = rev@;
        let x = rest.pop().unwrap();
        rev.push(x);
        proof {
            assert(rest@ =~= r0.drop_last());
            assert(rev@ =~= v0.push(r0.last()));
            assert(rev@.reverse() =~= seq![r0.last()] + v0.reverse());
            assert(rest@ + rev@.reverse() =~= r0 + v0.reverse());
        }
    }
    assert(rev@.reverse() =~= all);
    let mut out = ScheduleResult { placements: Vec::new() };
    assert(out.placements.deep_view() =~= Seq::<ScheduledOperationView>::empty());
    let ghost mut done: int = 0;
    while rev.len() > 0
        invariant
            0 <= done <= all.len(),
            all.take(done) + rev@.reverse() == all,
            out.deep_view().placements == scheduled_ops(all.take(done)),
        decreases rev.len(),
    {
        let ghost v0 = rev@;
        let (object, outcome) = rev.pop().unwrap();
        proof {
            assert(rev@ =~= v0.drop_last());
            assert(v0.reverse()[0] == v0.last());
            assert((all.take(done) + v0.reverse())[done] == all[done]);
            assert(v0.reverse() =~= seq![v0.last()] + v0.drop_last().reverse());
            assert(all.take(done + 1) =~= all.take(done).push(all[done]));
            assert(all.take(done) + v0.reverse() =~= all.take(done + 1) + rev@.reverse());
            assert(all.take(done + 1).drop_last() =~= all.take(done));
        }
        out.record(&object, outcome);
        proof {
            done = done + 1;
        }
    }
    assert(all.take(done) =~= all);
    out
}

} // verus!
