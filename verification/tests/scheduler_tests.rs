use skate::labels::StringMap;
use skate::manifest::{
    Container, Deployment, DeploymentSpec, DeploymentStrategy, ObjectMeta, Pod, PodSpec,
    PodTemplateSpec, Service, ServiceSpec, SupportedResources,
};
use skate::naming::NamespacedName;
use skate::scheduler::{DefaultScheduler, OpType, ScheduledOperation};
use skate::state::{
    ClusterState, HostInfo, NodeState, NodeStatus, PodmanPodInfo, PodmanPodStatus, SystemInfo,
};

fn node_state(name: &str) -> NodeState {
    NodeState {
        node_name: name.to_string(),
        status: NodeStatus::Healthy,
        message: None,
        host_info: Some(HostInfo {
            node_name: name.to_string(),
            system_info: Some(SystemInfo {
                hostname: name.to_string(),
                cordoned: false,
                pods: Some(vec![]),
                resources: Some(vec![]),
            }),
        }),
    }
}

fn with_pod(node: &NodeState, pod: &Pod) -> NodeState {
    let mut n = node.clone();
    let info = PodmanPodInfo {
        id: format!("id-{}", pod.metadata.name.clone().unwrap_or_default()),
        name: pod.metadata.name.clone().unwrap_or_default(),
        status: PodmanPodStatus::Running,
        created: 0,
        labels: pod.metadata.labels.clone().unwrap_or(StringMap::new()),
        containers: None,
    };
    let hi = n.host_info.as_mut().unwrap();
    let si = hi.system_info.as_mut().unwrap();
    si.pods.as_mut().unwrap().push(info);
    n
}

fn labels(pairs: &[(&str, &str)]) -> StringMap {
    let mut m = StringMap::new();
    for (k, v) in pairs {
        m.insert(k.to_string(), v.to_string());
    }
    m
}

fn create_deployment_fixtures(
    ns_name: &NamespacedName,
    requested_replicas: usize,
    existing_replicas: usize,
    strategy: &str,
) -> (Vec<Pod>, Deployment) {
    let container = Container {
        args: Some(vec!["arg1".to_string()]),
        command: Some(vec!["cmd".to_string()]),
        name: "container1".to_string(),
        image: None,
        env: None,
    };

    let mut pods = vec![];

    for i in 0..existing_replicas {
        let pod_name = format!("dpl-{}-{}", ns_name.name, i);
        let pod_meta = ObjectMeta {
            name: Some(format!("{}.{}", pod_name, ns_name.namespace)),
            namespace: None,
            labels: Some(labels(&[
                ("skate.io/deployment", &ns_name.name),
                ("skate.io/name", &pod_name),
                ("skate.io/namespace", &ns_name.namespace),
            ])),
            annotations: None,
            generation: None,
        };
        let pod_spec = PodSpec {
            containers: vec![container.clone()],
            volumes: None,
            node_selector: None,
            host_network: None,
            restart_policy: None,
        };
        pods.push(Pod { metadata: pod_meta, spec: Some(pod_spec) })
    }

    let pod_template = PodTemplateSpec {
        metadata: None,
        spec: Some(PodSpec {
            containers: vec![],
            volumes: None,
            node_selector: None,
            host_network: None,
            restart_policy: None,
        }),
    };
    let deployment = Deployment {
        metadata: ObjectMeta {
            name: Some("foo".to_string()),
            namespace: Some("foo-namespace".to_string()),
            labels: None,
            annotations: None,
            generation: None,
        },
        spec: Some(DeploymentSpec {
            replicas: Some(requested_replicas as i32),
            template: pod_template,
            strategy: Some(DeploymentStrategy { type_: Some(strategy.to_string()) }),
        }),
    };

    let sup_deployment = SupportedResources::Deployment(deployment).fixup();
    assert!(sup_deployment.is_ok());
    let deployment = match sup_deployment.unwrap() {
        SupportedResources::Deployment(deployment) => deployment,
        _ => panic!("wrong type"),
    };

    (pods, deployment)
}

fn replica_hashes(n: usize) -> Vec<String> {
    (0..n).map(|i| format!("hash-{}", i)).collect()
}

fn is_deployment(o: &ScheduledOperation) -> bool {
    matches!(o.resource, SupportedResources::Deployment(_))
}

fn is_pod(o: &ScheduledOperation) -> bool {
    matches!(o.resource, SupportedResources::Pod(_))
}

#[test]
fn test_plan_deployment_clean_slate_recreate() {
    let ns_name = NamespacedName { name: "foo".to_string(), namespace: "foo-namespace".to_string() };

    let (_, deployment) = create_deployment_fixtures(&ns_name, 2, 0, "Recreate");

    let state = ClusterState {
        cluster_name: "test".to_string(),
        nodes: vec![node_state("node-1"), node_state("node-2")],
    };

    let result = DefaultScheduler::plan_deployment(&state, &deployment, &replica_hashes(2));
    assert!(result.is_ok());

    let result = &result.unwrap();
    assert_eq!(1, result.len());

    let ops = result.get(&ns_name);
    assert!(ops.is_some());

    let ops = ops.unwrap();
    assert_eq!(4, ops.len());

    let deployment_ops: Vec<_> = ops.iter().filter(|o| is_deployment(o)).collect();
    assert_eq!(2, deployment_ops.len());
    assert!(deployment_ops.iter().all(|o| o.operation == OpType::Create
        && o.node.is_some()
        && !o.node.as_ref().unwrap().node_name.is_empty()));

    let pod_ops: Vec<_> = ops.iter().filter(|o| is_pod(o)).collect();
    assert_eq!(2, pod_ops.len());
    assert!(pod_ops.iter().all(|o| o.operation == OpType::Create && o.node.is_none()));

    println!("{:?}", pod_ops.into_iter().map(|p| p.resource.name()).collect::<Vec<_>>())
}

#[test]
fn test_plan_deployment_recreate() {
    let existing_replicas = 2;
    let requested_replicas = 2;
    let ns_name = NamespacedName { name: "foo".to_string(), namespace: "foo-namespace".to_string() };

    let (pods, deployment) =
        create_deployment_fixtures(&ns_name, requested_replicas, existing_replicas, "Recreate");

    let mut nodes = [node_state("node-1"), node_state("node-2")];

    for (i, pod) in pods.iter().enumerate().take(existing_replicas) {
        let node_index: usize = (i + 1) % 2; // 0 or 1 alternating
        nodes[node_index] = with_pod(&nodes[node_index], pod);
    }

    let state = ClusterState {
        cluster_name: "test".to_string(),
        nodes: vec![nodes[0].clone(), nodes[1].clone()],
    };

    let result = DefaultScheduler::plan_deployment(&state, &deployment, &replica_hashes(requested_replicas));
    if result.is_err() {
        panic!("{:?}", result.err().unwrap())
    }

    let result = &result.unwrap();
    assert_eq!(1, result.len());

    let ops = result.get(&ns_name);
    assert!(ops.is_some());

    let ops = ops.unwrap();
    assert_eq!(2 + existing_replicas + requested_replicas, ops.len());

    let deployment_ops: Vec<_> = ops.iter().filter(|o| is_deployment(o)).collect();
    assert_eq!(2, deployment_ops.len());
    assert!(deployment_ops.iter().all(|o| o.operation == OpType::Create
        && o.node.is_some()
        && !o.node.as_ref().unwrap().node_name.is_empty()));

    let pod_ops: Vec<_> = ops.iter().filter(|o| is_pod(o)).collect();
    assert_eq!(4, pod_ops.len());

    assert_eq!(OpType::Delete, pod_ops[0].operation);
    assert_eq!(OpType::Delete, pod_ops[1].operation);
    assert_eq!(OpType::Create, pod_ops[2].operation);
    assert_eq!(OpType::Create, pod_ops[3].operation);
}

#[test]
fn test_plan_deployment_rolling_update() {
    let existing_replicas = 2;
    let requested_replicas = 2;
    let ns_name = NamespacedName { name: "foo".to_string(), namespace: "foo-namespace".to_string() };

    let (pods, deployment) =
        create_deployment_fixtures(&ns_name, requested_replicas, existing_replicas, "RollingUpdate");

    let mut nodes = [node_state("node-1"), node_state("node-2")];

    for (i, pod) in pods.iter().enumerate().take(existing_replicas) {
        let node_index: usize = (i + 1) % 2; // 0 or 1 alternating
        nodes[node_index] = with_pod(&nodes[node_index], pod);
    }

    let state = ClusterState {
        cluster_name: "test".to_string(),
        nodes: vec![nodes[0].clone(), nodes[1].clone()],
    };

    let result = DefaultScheduler::plan_deployment(&state, &deployment, &replica_hashes(requested_replicas));
    if result.is_err() {
        panic!("{:?}", result.err().unwrap())
    }

    let result = &result.unwrap();

    assert_eq!(1 + std::cmp::max(requested_replicas, existing_replicas), result.len());

    let deployment_ops: Vec<_> = result.get(&ns_name).unwrap().iter().filter(|o| is_deployment(o)).collect();

    assert_eq!(2, deployment_ops.len());

    assert!(deployment_ops.iter().all(|o| o.operation == OpType::Create
        && o.node.is_some()
        && !o.node.as_ref().unwrap().node_name.is_empty()));

    for pod in pods.iter().take(existing_replicas) {
        let pod_name = skate::naming::metadata_name(&pod.metadata);
        let pod_ops = result.get(&pod_name);
        assert!(pod_ops.is_some());

        let pod_ops = pod_ops.unwrap();
        assert_eq!(2, pod_ops.len());

        assert_eq!(OpType::Delete, pod_ops[0].operation);
        assert_eq!(OpType::Create, pod_ops[1].operation);
    }
}

#[test]
fn unchanged_pod_is_left_alone() {
    let pod = Pod {
        metadata: ObjectMeta {
            name: Some("web".to_string()),
            namespace: Some("default".to_string()),
            labels: Some(labels(&[("skate.io/name", "web"), ("skate.io/namespace", "default")])),
            annotations: None,
            generation: None,
        },
        spec: None,
    };
    let mut running = pod.clone();
    running.metadata.labels.as_mut().unwrap().insert("skate.io/hash".to_string(), "h1".to_string());
    let node = with_pod(&node_state("node-1"), &running);
    let state = ClusterState { cluster_name: "test".to_string(), nodes: vec![node] };

    let same = DefaultScheduler::plan_pod(&state, &pod, "h1").unwrap();
    assert_eq!(1, same.len());
    assert_eq!(OpType::Unchanged, same[0].operation);

    let changed = DefaultScheduler::plan_pod(&state, &pod, "h2").unwrap();
    assert_eq!(2, changed.len());
    assert_eq!(OpType::Delete, changed[0].operation);
    assert_eq!(OpType::Create, changed[1].operation);
}

#[test]
fn recreate_puts_creations_before_unchanged() {
    let ns_name = NamespacedName { name: "foo".to_string(), namespace: "foo-namespace".to_string() };
    let (mut pods, deployment) = create_deployment_fixtures(&ns_name, 1, 1, "Recreate");
    pods[0].metadata.labels.as_mut().unwrap().insert("skate.io/hash".to_string(), "hash-0".to_string());
    let state = ClusterState {
        cluster_name: "test".to_string(),
        nodes: vec![with_pod(&node_state("node-1"), &pods[0]), node_state("node-2")],
    };
    let result = DefaultScheduler::plan_deployment(&state, &deployment, &replica_hashes(1)).unwrap();
    let ops = result.get(&ns_name).unwrap();
    assert_eq!(ops.len(), 3);
    assert_eq!(OpType::Create, ops[0].operation);
    assert_eq!(OpType::Create, ops[1].operation);
    assert_eq!(OpType::Unchanged, ops[2].operation);
}

#[test]
fn services_need_a_selector_and_go_to_every_node() {
    let meta = ObjectMeta { name: Some("web".to_string()), namespace: Some("prod".to_string()), labels: None, annotations: None, generation: None };
    let state = ClusterState { cluster_name: "c".to_string(), nodes: vec![node_state("a"), node_state("b")] };
    let empty = Service { metadata: meta.clone(), spec: Some(ServiceSpec { selector: Some(StringMap::new()), ports: None }) };
    match DefaultScheduler::plan_service(&state, &empty, "h") {
        Err(skate::errors::SkateError::String(m)) => assert_eq!(m, "service selector can not be empty"),
        other => panic!("{:?}", other),
    }
    let mut sel = StringMap::new();
    sel.insert("app".to_string(), "web".to_string());
    let svc = Service { metadata: meta, spec: Some(ServiceSpec { selector: Some(sel), ports: None }) };
    let plan = DefaultScheduler::plan_service(&state, &svc, "h").unwrap();
    let ops = plan.get(&NamespacedName::new("web", "prod")).unwrap();
    assert_eq!(ops.len(), 2);
    assert!(ops.iter().all(|o| o.operation == OpType::Create));
    assert_eq!(ops[0].node.as_ref().unwrap().node_name, "a");
    assert_eq!(ops[1].node.as_ref().unwrap().node_name, "b");
}
