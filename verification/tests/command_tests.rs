use skate::apply::{fixup_all, ApplyArgs};
use skate::cli::ConfigFileArgs;
use skate::cluster_cmd::{without_donor, ClusterArgs, Commands, RescheduleArgs};
use skate::config::{Cluster, Config};
use skate::config_cmd::{cluster_names, current_context_text, deleted_message, node_names, switched_message};
use skate::cordon::cordon_command;
use skate::create::{create_cluster, cronjob_name, CreateClusterArgs, CreateJobArgs, JobArgs};
use skate::delete::{delete_cluster, node_output_lines, DeleteCommands, DeleteNamespaceArgs, DeleteResourceArgs, DeleteTarget};
use skate::describe::find_node_state;
use skate::errors::SkateError;
use skate::get::{list_pods, matches_ns_name, GetObjectArgs, OutputFormat, PodListItem};
use skate::labels::StringMap;
use skate::manifest::{ObjectMeta, Pod, SupportedResources};
use skate::naming::NamespacedName;
use skate::node_shell::NodeShellArgs;
use skate::on::version_word;
use skate::resource::ResourceType;
use skate::rollout::{owner_label_key, restartable, taint_pods, ResourceArg};
use skate::state::{
    ClusterState, HostInfo, NodeState, NodeStatus, ObjectListItem, PodmanContainerInfo, PodmanPodInfo,
    PodmanPodStatus, SystemInfo,
};

fn cfg() -> ConfigFileArgs {
    ConfigFileArgs { skateconfig: "conf.yaml".to_string(), context: None }
}

fn message(e: SkateError) -> String {
    match e {
        SkateError::String(m) => m,
        other => panic!("{:?}", other),
    }
}

fn labels(pairs: &[(&str, &str)]) -> StringMap {
    let mut m = StringMap::new();
    for (k, v) in pairs {
        m.insert(k.to_string(), v.to_string());
    }
    m
}

fn pod(id: &str, name: &str, ns: &str, extra: &[(&str, &str)]) -> PodmanPodInfo {
    let mut l = labels(&[("skate.io/name", name), ("skate.io/namespace", ns)]);
    for (k, v) in extra {
        l.insert(k.to_string(), v.to_string());
    }
    PodmanPodInfo { id: id.to_string(), name: format!("{}.{}", name, ns), status: PodmanPodStatus::Running, created: 0, labels: l, containers: None }
}

fn node(name: &str, pods: Vec<PodmanPodInfo>, resources: Vec<ObjectListItem>) -> NodeState {
    NodeState {
        node_name: name.to_string(),
        status: NodeStatus::Healthy,
        message: None,
        host_info: Some(HostInfo {
            node_name: name.to_string(),
            system_info: Some(SystemInfo { hostname: name.to_string(), cordoned: false, pods: Some(pods), resources: Some(resources) }),
        }),
    }
}

fn cluster_named(name: &str) -> Cluster {
    Cluster { name: name.to_string(), default_user: None, default_key: None, nodes: vec![] }
}

#[test]
fn apply_reads_stdin_only_for_a_lone_dash() {
    let mut a = ApplyArgs { filename: vec!["-".to_string()], grace_period: -1, config: cfg(), dry_run: false };
    assert!(a.reads_stdin());
    a.filename.push("b.yaml".to_string());
    assert!(!a.reads_stdin());
}

#[test]
fn fixup_all_reports_each_refused_manifest() {
    let ok = SupportedResources::Pod(Pod {
        metadata: ObjectMeta { name: Some("p".to_string()), namespace: Some("ns".to_string()), labels: None, annotations: None, generation: None },
        spec: None,
    });
    let bad = SupportedResources::Pod(Pod {
        metadata: ObjectMeta { name: None, namespace: Some("ns".to_string()), labels: None, annotations: None, generation: None },
        spec: None,
    });
    let done = fixup_all(vec![ok]).unwrap();
    assert_eq!(done.len(), 1);
    assert_eq!(done[0].metadata().name.clone().unwrap(), "p.ns");
    let bad2 = SupportedResources::Pod(Pod {
        metadata: ObjectMeta { name: Some("q".to_string()), namespace: None, labels: None, annotations: None, generation: None },
        spec: None,
    });
    let errs = fixup_all(vec![bad, bad2]).unwrap_err();
    assert_eq!(errs.len(), 2);
    let texts: Vec<String> = errs.into_iter().map(message).collect();
    assert_eq!(texts, vec!["metadata.name is empty".to_string(), "metadata.namespace is empty".to_string()]);
}

#[test]
fn fixup_all_keeps_the_order_of_refusals_among_accepted() {
    let meta = |name: Option<&str>, ns: Option<&str>| ObjectMeta {
        name: name.map(|n| n.to_string()),
        namespace: ns.map(|n| n.to_string()),
        labels: None,
        annotations: None,
        generation: None,
    };
    let rs = vec![
        SupportedResources::Pod(Pod { metadata: meta(Some("a"), None), spec: None }),
        SupportedResources::Pod(Pod { metadata: meta(Some("b"), Some("ns")), spec: None }),
        SupportedResources::Pod(Pod { metadata: meta(None, None), spec: None }),
    ];
    let errs = fixup_all(rs).unwrap_err();
    let texts: Vec<String> = errs.into_iter().map(message).collect();
    assert_eq!(texts, vec!["metadata.namespace is empty".to_string(), "metadata.name is empty".to_string()]);
}

fn item(t: ResourceType, name: &str, ns: &str) -> ObjectListItem {
    ObjectListItem {
        resource_type: t,
        name: NamespacedName { name: name.to_string(), namespace: ns.to_string() },
        manifest_hash: "h".to_string(),
        generation: 1,
    }
}

#[test]
fn daemonset_and_deployment_rows() {
    let mut old_ds_pod = pod("3", "dms-agent-b", "default", &[("skate.io/daemonset", "agent")]);
    old_ds_pod.status = PodmanPodStatus::Exited;
    old_ds_pod.created = 10;
    let mut new_ds_pod = pod("1", "dms-agent-a", "default", &[("skate.io/daemonset", "agent")]);
    new_ds_pod.created = 20;
    let state = ClusterState {
        cluster_name: "c".to_string(),
        nodes: vec![
            node(
                "a",
                vec![
                    new_ds_pod,
                    pod("2", "dpl-web-0", "default", &[("skate.io/deployment", "web")]),
                ],
                vec![
                    item(ResourceType::DaemonSet, "agent", "default"),
                    item(ResourceType::Deployment, "web", "default"),
                    item(ResourceType::DaemonSet, "dns", "skate"),
                ],
            ),
            node(
                "b",
                vec![old_ds_pod],
                vec![item(ResourceType::DaemonSet, "agent", "default"), item(ResourceType::Deployment, "api", "prod")],
            ),
        ],
    };
    // each daemonset once, skate's own namespace hidden without filters
    let ds = skate::get::daemonset_rows(&state, "", "", 100);
    assert_eq!(ds.len(), 1);
    assert_eq!((ds[0].name.as_str(), ds[0].namespace.as_str()), ("agent", "default"));
    assert_eq!(ds[0].desired, 2);
    assert_eq!((ds[0].pods.total, ds[0].pods.running, ds[0].pods.earliest_created), (2, 1, 10));
    let with_ns = skate::get::daemonset_rows(&state, "", "skate", 100);
    assert_eq!(with_ns.len(), 1);
    assert_eq!(with_ns[0].name, "dns");
    assert_eq!(with_ns[0].pods.total, 0);
    assert_eq!(with_ns[0].pods.earliest_created, 100);

    let dep = skate::get::deployment_rows(&state, "", "", 100);
    assert_eq!(dep.len(), 2);
    assert_eq!((dep[0].name.as_str(), dep[1].name.as_str()), ("web", "api"));
    assert_eq!((dep[0].pods.total, dep[0].pods.running), (1, 1));
    assert_eq!(dep[1].pods.total, 0);
    let only_api = skate::get::deployment_rows(&state, "api", "", 100);
    assert_eq!(only_api.len(), 1);
    assert_eq!(only_api[0].namespace, "prod");
    let cat = skate::get::catalogue(&state, ResourceType::DaemonSet, "", "");
    assert_eq!(cat.len(), 1);
}

#[test]
fn reschedule_takes_the_cluster_config() {
    let a = ClusterArgs {
        config: ConfigFileArgs { skateconfig: "global.yaml".to_string(), context: Some("c".to_string()) },
        command: Commands::Reschedule(RescheduleArgs { config: cfg(), dry_run: true }),
    };
    let r = a.reschedule_args();
    assert_eq!(r.config.skateconfig, "global.yaml");
    assert!(r.dry_run);
    let state = ClusterState { cluster_name: "c".to_string(), nodes: vec![node("a", vec![], vec![]), node("b", vec![], vec![])] };
    let kept = without_donor(&state, Some("a"));
    assert_eq!(kept.nodes.len(), 1);
    assert_eq!(kept.nodes[0].node_name, "b");
    assert_eq!(without_donor(&state, None).nodes.len(), 2);
}

#[test]
fn config_listings_and_messages() {
    let mut c = cluster_named("one");
    c.nodes.push(skate::config::Node { name: "n1".to_string(), ..Default::default() });
    let config = Config { current_context: None, clusters: vec![c, cluster_named("two")] };
    assert_eq!(cluster_names(&config), vec!["one", "two"]);
    assert_eq!(node_names(&config.clusters[0]), vec!["n1"]);
    assert_eq!(current_context_text(&config), "");
    assert_eq!(switched_message("we\"ird"), "Switched to context \"weird\"");
    assert_eq!(deleted_message("one"), "Deleted context \"one\"");
}

#[test]
fn used_context_becomes_active() {
    let mut config = Config { current_context: None, clusters: vec![cluster_named("one"), cluster_named("two")] };
    skate::config::use_context(&mut config, "two").unwrap();
    assert_eq!(config.active_cluster(Some("one".to_string())).unwrap().name, "two");
    assert!(skate::config::use_context(&mut config, "three").is_err());
}

#[test]
fn cordon_commands() {
    assert_eq!(cordon_command(true), "sudo skatelet cordon");
    assert_eq!(cordon_command(false), "sudo skatelet uncordon");
}

#[test]
fn creating_clusters_and_jobs() {
    let mut config = Config { current_context: None, clusters: vec![cluster_named("one")] };
    let args = CreateClusterArgs { skateconfig: "conf.yaml".to_string(), name: "two".to_string(), default_user: Some("u".to_string()), default_key: None };
    create_cluster(&mut config, &args).unwrap();
    assert_eq!(config.clusters.len(), 2);
    assert_eq!(config.current_context, Some("two".to_string()));
    assert_eq!(message(create_cluster(&mut config, &args).unwrap_err()), "cluster by name of two already exists in conf.yaml");

    assert_eq!(cronjob_name("cronjob/backup").unwrap(), "backup");
    assert_eq!(message(cronjob_name("backup").unwrap_err()), "invalid --from");
    assert_eq!(message(cronjob_name("deployment/x").unwrap_err()), "only cronjob is supported");

    let job = CreateJobArgs {
        config: cfg(),
        args: JobArgs { from: "cronjob/backup".to_string(), name: "run1".to_string(), wait: true },
        namespace: "prod".to_string(),
    };
    assert_eq!(job.job_command(), "sudo skatelet create --namespace prod job --wait --from cronjob/backup run1");
    let item = ObjectListItem {
        resource_type: ResourceType::CronJob,
        name: NamespacedName { name: "backup".to_string(), namespace: "prod".to_string() },
        manifest_hash: "h".to_string(),
        generation: 1,
    };
    let state = ClusterState { cluster_name: "c".to_string(), nodes: vec![node("a", vec![], vec![]), node("b", vec![], vec![item])] };
    assert_eq!(job.cronjob_node(&state).unwrap(), "b");
    let missing = CreateJobArgs { namespace: "dev".to_string(), ..job };
    assert_eq!(message(missing.cronjob_node(&state).unwrap_err()), "no cronjobs found by name of cronjob/backup in namespace dev");
}

#[test]
fn delete_targets_and_output() {
    let t = DeleteCommands::Namespace(DeleteNamespaceArgs { name: "team".to_string(), config: cfg() }).target();
    match t {
        DeleteTarget::Namespace(a) => {
            assert_eq!(a.name, "team");
            assert_eq!(a.namespace, "team");
        }
        other => panic!("{:?}", other),
    }
    let t = DeleteCommands::Daemonset(DeleteResourceArgs { name: "d".to_string(), namespace: "default".to_string(), config: cfg() }).target();
    assert!(matches!(t, DeleteTarget::Resource(ResourceType::DaemonSet, _)));
    assert_eq!(node_output_lines("n1", "  a\nb \n"), vec!["n1 - a", "n1 - b"]);
    assert!(node_output_lines("n1", "").is_empty());
    let mut config = Config { current_context: None, clusters: vec![cluster_named("one")] };
    assert_eq!(message(delete_cluster(&mut config, "two").unwrap_err()), "cluster not found");
    delete_cluster(&mut config, "one").unwrap();
    assert!(config.clusters.is_empty());
}

#[test]
fn describe_finds_nodes() {
    let state = ClusterState { cluster_name: "c".to_string(), nodes: vec![node("a", vec![], vec![]), node("b", vec![], vec![])] };
    assert_eq!(find_node_state(&state, "b").unwrap().node_name, "b");
    assert!(find_node_state(&state, "z").is_none());
}

#[test]
fn get_filters_and_rows() {
    assert_eq!(OutputFormat::from_str("yaml").unwrap(), OutputFormat::Yaml);
    assert_eq!(message(OutputFormat::from_str("JSON").unwrap_err()), "Matching variant not found");
    assert!(matches_ns_name("id1", "web", "default", "", ""));
    assert!(!matches_ns_name("id1", "web", "skate", "", ""));
    assert!(matches_ns_name("id1", "web", "skate", "", "skate"));
    assert!(matches_ns_name("id1", "web", "default", "id1", ""));
    assert!(!matches_ns_name("id1", "web", "default", "api", ""));
    assert!(!matches_ns_name("id1", "web", "default", "", "prod"));

    let state = ClusterState {
        cluster_name: "c".to_string(),
        nodes: vec![
            node("a", vec![pod("1", "web", "default", &[]), pod("2", "dns", "skate", &[])], vec![]),
            node("b", vec![pod("3", "web", "prod", &[])], vec![]),
        ],
    };
    let all = GetObjectArgs { config: cfg(), namespace: None, id: None, output: None };
    let names: Vec<_> = list_pods(&state, &all).iter().map(|p| p.id.clone()).collect();
    assert_eq!(names, vec!["1", "3"]);
    let prod = GetObjectArgs { config: cfg(), namespace: Some("prod".to_string()), id: None, output: None };
    assert_eq!(list_pods(&state, &prod).len(), 1);

    let mut p = pod("1", "web", "default", &[]);
    p.containers = Some(vec![
        PodmanContainerInfo { id: "c1".to_string(), names: "c1".to_string(), status: "running".to_string(), restart_count: Some(2) },
        PodmanContainerInfo { id: "c2".to_string(), names: "c2".to_string(), status: "exited".to_string(), restart_count: Some(3) },
        PodmanContainerInfo { id: "c3".to_string(), names: "c3".to_string(), status: "running".to_string(), restart_count: None },
    ]);
    let row = PodListItem::from(&p, "5m".to_string());
    assert_eq!(row.ready, "2/3");
    assert_eq!(row.restarts, "5");
    assert_eq!(row.status, "Running");
    assert_eq!(row.name, "web");
    assert_eq!(row.namespace, "default");
    assert_eq!(row.age, "5m");
}

#[test]
fn node_shell_and_on() {
    let a = NodeShellArgs { config: cfg(), node_name: "a".to_string(), cmd: vec!["ls".to_string(), "-la".to_string()] };
    assert_eq!(a.command_line(), "ls -la");
    assert_eq!(version_word(&Some("skatelet 0.1.23\n".to_string())), "0.1.23");
    assert_eq!(version_word(&None), "");
}

#[test]
fn rollout_restart() {
    let (t, n) = ResourceArg("deployment/web".to_string()).parse().unwrap();
    assert_eq!(t, ResourceType::Deployment);
    assert_eq!(n, Some("web".to_string()));
    let (t, n) = ResourceArg("daemonsets".to_string()).parse().unwrap();
    assert_eq!(t, ResourceType::DaemonSet);
    assert_eq!(n, None);
    assert!(ResourceArg("widgets/x".to_string()).parse().is_err());
    assert!(restartable(ResourceType::Deployment).is_ok());
    assert_eq!(message(restartable(ResourceType::Pod).unwrap_err()), "resource type not supported");
    assert_eq!(owner_label_key(ResourceType::Deployment), "skate.io/deployment");

    let mut state = ClusterState {
        cluster_name: "c".to_string(),
        nodes: vec![node(
            "a",
            vec![
                pod("1", "dpl-web-0", "default", &[("skate.io/deployment", "web"), ("skate.io/hash", "abc")]),
                pod("2", "dpl-api-0", "default", &[("skate.io/deployment", "api"), ("skate.io/hash", "def")]),
            ],
            vec![],
        )],
    };
    let names = vec![NamespacedName { name: "web".to_string(), namespace: "default".to_string() }];
    taint_pods(&mut state, "skate.io/deployment", &names);
    let pods = state.nodes[0].host_info.as_ref().unwrap().system_info.as_ref().unwrap().pods.as_ref().unwrap();
    assert_eq!(pods[0].labels.get("skate.io/hash"), Some("".to_string()));
    assert_eq!(pods[1].labels.get("skate.io/hash"), Some("def".to_string()));
}

#[test]
fn owner_pod_counts() {
    let mut stopped = pod("2", "dpl-web-1", "default", &[("skate.io/deployment", "web")]);
    stopped.status = PodmanPodStatus::Exited;
    stopped.created = 50;
    let mut first = pod("1", "dpl-web-0", "default", &[("skate.io/deployment", "web")]);
    first.created = 70;
    let state = ClusterState {
        cluster_name: "c".to_string(),
        nodes: vec![
            node("a", vec![first, pod("9", "other", "default", &[("skate.io/deployment", "api")])], vec![]),
            node("b", vec![stopped], vec![]),
        ],
    };
    let o = skate::get::owner_pods(&state, "skate.io/deployment", "web", "default", 100);
    assert_eq!(o.total, 2);
    assert_eq!(o.running, 1);
    assert_eq!(o.earliest_created, 50);
    assert_eq!(skate::get::ready_text(&o), "1/2");
    // a pod without a namespace label counts under `default`
    let mut unlabelled = pod("5", "dpl-api-1", "x", &[("skate.io/deployment", "api")]);
    unlabelled.labels = labels(&[("skate.io/deployment", "api")]);
    let state2 = ClusterState { cluster_name: "c".to_string(), nodes: vec![node("a", vec![unlabelled], vec![])] };
    assert_eq!(skate::get::owner_pods(&state2, "skate.io/deployment", "api", "default", 100).total, 1);
    let none = skate::get::owner_pods(&state, "skate.io/deployment", "web", "prod", 100);
    assert_eq!(none.total, 0);
    assert_eq!(none.earliest_created, 100);
}

#[test]
fn recording_a_node() {
    let args = skate::provision::CreateNodeArgs {
        name: "n2".to_string(),
        host: "h2".to_string(),
        peer_host: None,
        user: None,
        key: None,
        port: None,
        subnet_cidr: "10.2.0.0/16".to_string(),
        config: cfg(),
    };
    let mut config = Config { current_context: Some("two".to_string()), clusters: vec![cluster_named("one"), cluster_named("two")] };
    let c = skate::provision::record_node(&mut config, &args).unwrap();
    assert_eq!(c.name, "two");
    assert_eq!(config.clusters[1].nodes.len(), 1);
    assert_eq!(config.clusters[1].nodes[0].peer_host, "h2");
    assert!(config.clusters[0].nodes.is_empty());
    let bad = skate::provision::CreateNodeArgs { subnet_cidr: "nope".to_string(), ..args };
    assert!(matches!(skate::provision::record_node(&mut config, &bad), Err(SkateError::Multi(_))));
    let mut empty = Config { current_context: None, clusters: vec![] };
    let ok_args = skate::provision::CreateNodeArgs { subnet_cidr: "10.2.0.0/16".to_string(), ..bad };
    assert_eq!(message(skate::provision::record_node(&mut empty, &ok_args).unwrap_err()), "no clusters in config");
}
