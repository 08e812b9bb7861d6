use skate::resource::ResourceType;

#[test]
fn test_resource_type_from_str() {
    let table = &[
        ("pod", ResourceType::Pod),
        ("pods", ResourceType::Pod),
        ("Pod", ResourceType::Pod),
        ("pods", ResourceType::Pod),
        ("daemonset", ResourceType::DaemonSet),
        ("daemonsets", ResourceType::DaemonSet),
        ("DaemonSet", ResourceType::DaemonSet),
        ("DaemonSets", ResourceType::DaemonSet),
    ];

    for (input, expect) in table {
        match ResourceType::from_str(input) {
            Ok(output) => {
                assert_eq!(output, *expect, "input: {}", input);
            }
            Err(e) => {
                panic!("{:?}: {:?}", *expect, e);
            }
        }
    }
}

#[test]
fn resource_type_names_read_back() {
    let all = [
        ResourceType::Pod,
        ResourceType::Deployment,
        ResourceType::DaemonSet,
        ResourceType::Ingress,
        ResourceType::CronJob,
        ResourceType::Secret,
        ResourceType::Service,
        ResourceType::ClusterIssuer,
    ];
    for t in all {
        let text = t.to_string();
        assert_eq!(ResourceType::from_str(&text).unwrap(), t);
    }
    assert_eq!(ResourceType::ClusterIssuer.to_string(), "clusterissuer");
    assert!(ResourceType::from_str("ingresses").is_err());
    assert!(ResourceType::from_str("widget").is_err());
}
