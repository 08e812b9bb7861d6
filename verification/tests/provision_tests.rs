use skate::cli::ConfigFileArgs;
use skate::config::{Cluster, Node};
use skate::platform::Distribution;
use skate::provision::{
    backend_needs_reset, default_subnet_command, find_node, netavark_config, network_backend_command,
    peers_command, podman_action, provisioner_for, remove_node, skate_dirs_command,
    template_coredns_manifest, upsert_node, CreateNodeArgs, PodmanAction, Provisioner,
};

fn cfg() -> ConfigFileArgs {
    ConfigFileArgs { skateconfig: "~/.skate/config.yaml".to_string(), context: None }
}

fn args(name: &str, peer: Option<&str>, subnet: &str) -> CreateNodeArgs {
    CreateNodeArgs {
        name: name.to_string(),
        host: "node.example.com".to_string(),
        peer_host: peer.map(|p| p.to_string()),
        user: Some("ubuntu".to_string()),
        key: None,
        port: Some(22),
        subnet_cidr: subnet.to_string(),
        config: cfg(),
    }
}

fn node(name: &str, peer: &str, subnet: &str) -> Node {
    Node { name: name.to_string(), host: "".to_string(), peer_host: peer.to_string(), subnet_cidr: subnet.to_string(), ..Default::default() }
}

fn cluster(nodes: Vec<Node>) -> Cluster {
    Cluster { name: "c".to_string(), default_user: None, default_key: None, nodes }
}

fn message(e: skate::errors::SkateError) -> String {
    match e {
        skate::errors::SkateError::String(m) => m,
        other => panic!("{:?}", other),
    }
}

fn problems(e: skate::errors::SkateError) -> Vec<String> {
    match e {
        skate::errors::SkateError::Multi(v) => v.into_iter().map(message).collect(),
        other => panic!("{:?}", other),
    }
}

#[test]
fn node_arguments_are_checked() {
    assert!(args("node-1", Some("10.0.0.1"), "10.1.0.0/16").validate().is_ok());
    assert_eq!(problems(args("Node", None, "10.1.0.0/16").validate().unwrap_err()), vec!["name: name can only contain a-z, 0-9, _ or -"]);
    assert_eq!(problems(args("", None, "10.1.0.0/16").validate().unwrap_err()), vec!["name: name must be between 1 and 128 characters"]);
    assert_eq!(problems(args("n", Some("10.0.0"), "10.1.0.0/16").validate().unwrap_err()), vec!["peer_host: peer-host must be a valid ipv4 address"]);
    assert_eq!(problems(args("n", None, "10.1.0.0").validate().unwrap_err()), vec!["subnet_cidr: subnet-cidr must be a valid ipv4 cidr range"]);
    let mut long_host = args("n", None, "10.1.0.0/16");
    long_host.host = "h".repeat(254);
    assert_eq!(problems(long_host.validate().unwrap_err()), vec!["host: host must be at most 253 characters"]);
    // every broken rule is reported, field by field
    assert_eq!(
        problems(args("N", Some("x"), "bad").validate().unwrap_err()),
        vec!["name: name can only contain a-z, 0-9, _ or -", "peer_host: peer-host must be a valid ipv4 address", "subnet_cidr: subnet-cidr must be a valid ipv4 cidr range"]
    );
}

#[test]
fn node_entry_defaults_peer_to_host() {
    let n = args("node-1", None, "10.1.0.0/16").node();
    assert_eq!(n.peer_host, "node.example.com");
    let n = args("node-1", Some("10.0.0.1"), "10.1.0.0/16").node();
    assert_eq!(n.peer_host, "10.0.0.1");
    assert_eq!(n.port, Some(22));
}

#[test]
fn recorded_node_is_found() {
    let mut c = cluster(vec![node("a", "1", "s"), node("b", "2", "s")]);
    upsert_node(&mut c, node("b", "9", "t"));
    assert_eq!(c.nodes.len(), 2);
    assert_eq!(find_node(&c, "b", "node not found").unwrap().peer_host, "9");
    upsert_node(&mut c, node("c", "3", "s"));
    assert_eq!(c.nodes.len(), 3);
    assert_eq!(c.nodes[2].name, "c");
    assert!(remove_node(&mut c, "a"));
    assert!(!remove_node(&mut c, "a"));
    assert_eq!(message(find_node(&c, "a", "node not found").unwrap_err()), "node not found");
}

#[test]
fn provisioners_by_distribution() {
    assert_eq!(provisioner_for(Distribution::Raspbian).unwrap(), Provisioner::Ubuntu);
    assert_eq!(provisioner_for(Distribution::FedoraCoreOs).unwrap(), Provisioner::FedoraCoreos);
    assert_eq!(message(provisioner_for(Distribution::Unknown).unwrap_err()), "unknown distribution");
    assert_eq!(Provisioner::Ubuntu.install_podman(), "sudo apt-get install -y podman");
    assert_eq!(Provisioner::FedoraCoreos.system_update(), "");
    assert_eq!(Provisioner::Fedora.configure_firewall(), "sudo systemctl stop firewalld; sudo systemctl disable firewalld");
    assert_eq!(Provisioner::Ubuntu.configure_etc_containers_registries(), "");
    assert_eq!(Provisioner::Fedora.install_keepalived(), "sudo dnf -y install keepalived");
    assert_eq!(Provisioner::Ubuntu.remove_kernel_security(), "sudo aa-teardown && sudo apt purge -y apparmor");
}

#[test]
fn podman_versions() {
    match podman_action(Provisioner::Fedora, &None) {
        Some(Ok(PodmanAction::Install(c))) => assert_eq!(c, "sudo dnf -y install podman"),
        other => panic!("{:?}", other),
    }
    assert!(matches!(podman_action(Provisioner::Ubuntu, &Some("4.9.3".to_string())), Some(Ok(PodmanAction::AlreadyInstalled))));
    match podman_action(Provisioner::Ubuntu, &Some("2.1.0".to_string())) {
        Some(Err(e)) => assert_eq!(message(e), "podman version too old, must be >=3.0.0, see https://podman.io/docs/installation"),
        other => panic!("{:?}", other),
    }
    assert!(podman_action(Provisioner::Ubuntu, &Some("four".to_string())).is_none());
}

#[test]
fn node_commands() {
    assert_eq!(
        skate_dirs_command("/var/lib/skate"),
        "sudo mkdir -p /var/lib/skate/ingress /var/lib/skate/ingress/letsencrypt_storage /var/lib/skate/dns /var/lib/skate/keepalived"
    );
    assert_eq!(
        default_subnet_command("10.1.0.0/16"),
        "sudo sed -i 's&#default_subnet[ =].*&default_subnet = \"10.1.0.0/16\"&' /etc/containers/containers.conf"
    );
    assert!(network_backend_command().contains("network_backend = \"netavark\""));
    assert!(!backend_needs_reset(" netavark\n"));
    assert!(backend_needs_reset("cni"));
    assert_eq!(
        netavark_config("{\"subnet\": \"%%subnet%%\", \"gateway\": \"%%gateway%%\"}", "10.1.2.0/24"),
        "{\"subnet\": \"10.1.2.0/24\", \"gateway\": \"10.1.2.1\"}"
    );
    let c = cluster(vec![node("a", "10.0.0.1", "10.1.0.0/16"), node("b", "10.0.0.2", "10.2.0.0/16"), node("c", "10.0.0.3", "10.3.0.0/16")]);
    assert_eq!(peers_command(&c, "b"), "sudo skatelet peers set --peer a:10.0.0.1:10.1.0.0/16 --peer c:10.0.0.3:10.3.0.0/16");
    assert_eq!(peers_command(&cluster(vec![node("a", "1", "s")]), "a"), "sudo skatelet peers set ");
}

/// The cluster DNS manifest: a daemonset whose Corefile (its `CORE_FILE` variable) holds the
/// three lists that are filled in per node.
const COREDNS_MANIFEST: &str = r#"apiVersion: apps/v1
kind: DaemonSet
metadata:
  name: coredns
  namespace: skate
spec:
  selector:
    matchLabels:
      name: coredns
  template:
    metadata:
      labels:
        name: coredns
    spec:
      containers:
      - name: coredns
        image: coredns/coredns
        env:
        - name: CORE_FILE
          value: |

            # What's going on here you might ask? This is to provide at least 2 upstreams to the forward plugin in
            # order for it to keep doing healthchecks. It doesnt if there's only 1 upstream.
            .:6053 {

            }
            # serve dns for this node
            .:5553 {

                # rewrite name suffix .n-node-1.skate. .cluster.skate.
                # rewrite name suffix .n-node-2.skate. .cluster.skate.
                #...
                %%rewrite_list%%

                # public since other nodes need to reach this
                bind lo 0.0.0.0

                hosts /var/lib/skate/dns/addnhosts
            }

            svc.cluster.skate:5053 {
                
                    bind lo
                
                    hosts /var/lib/skate/dns/addnhosts
                
            }

            pod.cluster.skate:5053 {

                bind lo

                gathersrv pod.cluster.skate. {
                  # n-node-1.skate. 1-
                  %%gathersrv_list%%
                }

                #forward pod.n-node-1.skate. 127.0.0.1:5553 127.0.0.1:6053 {
                #  policy sequential
                #  prefer_udp
                #  health_check 0.1s
                #}
                %%forward_list%%

                cache {
                    disable success
                }

                loadbalance round_robin

            }
            .:5053 {
                bind lo 0.0.0.0
                forward . 8.8.8.8
            }
"#;

#[test]
fn test_should_template_coredns_manifest() {
    let cluster = Cluster {
        name: "".to_string(),
        default_user: None,
        default_key: None,
        nodes: vec![
            Node { name: "node-1".to_string(), host: "".to_string(), peer_host: "10.0.0.1".to_string(), ..Default::default() },
            Node { name: "node-2".to_string(), host: "".to_string(), peer_host: "10.0.0.2".to_string(), ..Default::default() },
        ],
    };

    let manifest = template_coredns_manifest(COREDNS_MANIFEST, &cluster);

    println!("{manifest}");

    let daemonset: k8s_openapi::api::apps::v1::DaemonSet = serde_yaml::from_str(&manifest).unwrap();

    let envs = daemonset
        .spec
        .unwrap_or_default()
        .template
        .spec
        .unwrap_or_default()
        .containers[0]
        .env
        .clone()
        .unwrap_or_default();
    let core_file_env = envs.into_iter().find(|e| e.name == "CORE_FILE");
    assert!(core_file_env.is_some());
    let core_file = core_file_env.unwrap();

    let expect = r#"
# What's going on here you might ask? This is to provide at least 2 upstreams to the forward plugin in
# order for it to keep doing healthchecks. It doesnt if there's only 1 upstream.
.:6053 {

}
# serve dns for this node
.:5553 {

    # rewrite name suffix .n-node-1.skate. .cluster.skate.
    # rewrite name suffix .n-node-2.skate. .cluster.skate.
    #...
                   rewrite name suffix .n-node-1.skate. .cluster.skate.
   rewrite name suffix .n-node-2.skate. .cluster.skate.

    # public since other nodes need to reach this
    bind lo 0.0.0.0

    hosts /var/lib/skate/dns/addnhosts
}

svc.cluster.skate:5053 {
    
        bind lo
    
        hosts /var/lib/skate/dns/addnhosts
    
}

pod.cluster.skate:5053 {

    bind lo

    gathersrv pod.cluster.skate. {
      # n-node-1.skate. 1-
                     pod.n-node-1.skate. 0
   pod.n-node-2.skate. 1
    }

    #forward pod.n-node-1.skate. 127.0.0.1:5553 127.0.0.1:6053 {
    #  policy sequential
    #  prefer_udp
    #  health_check 0.1s
    #}
                   forward pod.n-node-1.skate. 10.0.0.1:5553 127.0.0.1:6053 {
       policy sequential
       health_check 0.5s
   }
   forward pod.n-node-2.skate. 10.0.0.2:5553 127.0.0.1:6053 {
       policy sequential
       health_check 0.5s
   }

    cache {
        disable success
    }

    loadbalance round_robin

}
.:5053 {
    bind lo 0.0.0.0
    forward . 8.8.8.8
}
"#;
    assert_eq!(core_file.value.clone().unwrap().as_str(), expect);
}
