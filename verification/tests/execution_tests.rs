use skate::errors::SkateError;
use skate::execution::{apply_decision, placement_pod_of, record_applied, record_step, schedule_results, ApplyAction};
use skate::manifest::{
    CronJob, CronJobSpec, Deployment, DeploymentSpec, DeploymentStrategy, JobSpec, JobTemplateSpec, ObjectMeta, Pod,
    PodSpec, PodTemplateSpec, Secret, SupportedResources,
};
use skate::scheduler::{DefaultScheduler, NodeSelection, OpType, RejectedNode, ScheduledOperation};
use skate::state::{ClusterState, NodeState, NodeStatus};

fn meta(name: &str) -> ObjectMeta {
    ObjectMeta { name: Some(name.to_string()), namespace: Some("ns".to_string()), labels: None, annotations: None, generation: None }
}

fn node(name: &str) -> NodeState {
    NodeState { node_name: name.to_string(), status: NodeStatus::Healthy, message: None, host_info: None }
}

fn empty_spec() -> PodSpec {
    PodSpec { containers: vec![], volumes: None, node_selector: None, host_network: Some(true), restart_policy: None }
}

fn pod() -> SupportedResources {
    SupportedResources::Pod(Pod { metadata: meta("p"), spec: None })
}

fn message(e: SkateError) -> String {
    match e {
        SkateError::String(m) => m,
        other => panic!("{:?}", other),
    }
}

#[test]
fn deletes_and_placements() {
    let del = ScheduledOperation::new(OpType::Delete, pod()).node(node("n1"));
    match apply_decision(&del, None, false).unwrap() {
        ApplyAction::Remove { node, remote } => {
            assert_eq!(node, "n1");
            assert!(remote);
        }
        other => panic!("{:?}", other),
    }
    match apply_decision(&del, None, true).unwrap() {
        ApplyAction::Remove { remote, .. } => assert!(!remote),
        other => panic!("{:?}", other),
    }
    let create = ScheduledOperation::new(OpType::Create, pod());
    let sel = NodeSelection { selected: Some(node("n2")), rejected: vec![] };
    match apply_decision(&create, Some(&sel), false).unwrap() {
        ApplyAction::Place { node, remote } => {
            assert_eq!(node, "n2");
            assert!(remote);
        }
        other => panic!("{:?}", other),
    }
    let none = NodeSelection {
        selected: None,
        rejected: vec![RejectedNode { node_name: "n1".to_string(), reason: "cordoned".to_string() }],
    };
    assert_eq!(message(apply_decision(&create, Some(&none), false).unwrap_err()), "failed to find feasible node (1 rejected): n1 - cordoned");
    assert_eq!(message(apply_decision(&create, None, false).unwrap_err()), "failed to find feasible node (0 rejected): <none>");
    let info = ScheduledOperation::new(OpType::Info, pod()).node(node("n3"));
    assert!(matches!(apply_decision(&info, None, false).unwrap(), ApplyAction::Report { .. }));
    let same = ScheduledOperation::new(OpType::Unchanged, pod()).node(node("n3"));
    assert!(matches!(apply_decision(&same, None, false).unwrap(), ApplyAction::Keep));
}

#[test]
fn cron_jobs_and_other_kinds_without_a_node() {
    let cron = CronJob {
        metadata: meta("backup"),
        spec: Some(CronJobSpec {
            schedule: "* * * * *".to_string(),
            time_zone: None,
            job_template: JobTemplateSpec { spec: Some(JobSpec { template: PodTemplateSpec { metadata: None, spec: Some(empty_spec()) } }) },
        }),
    };
    let p = placement_pod_of(&SupportedResources::CronJob(cron)).unwrap();
    assert_eq!(p.metadata.name, Some("backup".to_string()));
    assert_eq!(p.spec.unwrap().host_network, Some(true));

    let bare = CronJob { metadata: meta("bare"), spec: None };
    let op = ScheduledOperation::new(OpType::Create, SupportedResources::CronJob(bare));
    assert_eq!(message(apply_decision(&op, None, false).unwrap_err()), "failed to find pod spec in cron job bare");

    let secret = SupportedResources::Secret(Secret { metadata: meta("s"), data: None, string_data: None });
    let op = ScheduledOperation::new(OpType::Clobber, secret);
    assert_eq!(
        message(apply_decision(&op, None, false).unwrap_err()),
        "internal scheduler error: found non pod resource Secret:s.ns without a pre allocated node"
    );
}

#[test]
fn recording_outcomes() {
    let mut result = vec![];
    record_applied(&mut result, ScheduledOperation::new(OpType::Create, pod()), true, Ok(()));
    assert!(result.is_empty());
    record_applied(&mut result, ScheduledOperation::new(OpType::Create, pod()), false, Ok(()));
    record_applied(&mut result, ScheduledOperation::new(OpType::Delete, pod()), false, Err("boom".to_string()));
    assert_eq!(result.len(), 2);
    assert_eq!(result[0].error, None);
    assert_eq!(result[1].error, Some("boom".to_string()));
}

#[test]
fn deployment_errors() {
    let d = |name: Option<&str>, strategy: &str| Deployment {
        metadata: ObjectMeta { name: name.map(|s| s.to_string()), namespace: Some("ns".to_string()), labels: None, annotations: None, generation: None },
        spec: Some(DeploymentSpec {
            replicas: Some(0),
            template: PodTemplateSpec { metadata: None, spec: None },
            strategy: Some(DeploymentStrategy { type_: Some(strategy.to_string()) }),
        }),
    };
    let state = ClusterState { cluster_name: "c".to_string(), nodes: vec![] };
    assert_eq!(message(DefaultScheduler::plan_deployment(&state, &d(Some("x"), "BlueGreen"), &vec![]).unwrap_err()), "unrecognised strategy BlueGreen");
    assert_eq!(message(DefaultScheduler::plan_deployment(&state, &d(None, "Recreate"), &vec![]).unwrap_err()), "no deployment name");
}

#[test]
fn apply_returns_reported_but_not_kept_operations() {
    let mut result = vec![];
    let info = ScheduledOperation::new(OpType::Info, pod()).node(node("n1"));
    let same = ScheduledOperation::new(OpType::Unchanged, pod()).node(node("n1"));
    let a = apply_decision(&info, None, false).unwrap();
    record_step(&mut result, info, &a, Ok(()));
    let b = apply_decision(&same, None, false).unwrap();
    record_step(&mut result, same, &b, Ok(()));
    assert_eq!(result.len(), 1);
    assert_eq!(result[0].operation, OpType::Info);
    let del = ScheduledOperation::new(OpType::Delete, pod()).node(node("n1"));
    let c = apply_decision(&del, None, true).unwrap();
    record_step(&mut result, del, &c, Ok(()));
    assert_eq!(result.len(), 1);
}

#[test]
fn schedule_combines_outcomes() {
    let ok_ops = vec![ScheduledOperation::new(OpType::Create, pod())];
    let r = schedule_results(vec![(pod(), Ok(ok_ops)), (pod(), Err("no node".to_string()))]);
    assert_eq!(r.placements.len(), 2);
    assert_eq!(r.placements[0].operation, OpType::Create);
    assert_eq!(r.placements[1].operation, OpType::Info);
    assert_eq!(r.placements[1].error, Some("no node".to_string()));
}
