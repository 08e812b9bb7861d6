use skate::config::{cache_dir_in, config_path};
use skate::controllers::{ipvsmon_unit, service_domain, DefaultExecutor, PodController, SecretController};
use skate::errors::SkateError;
use skate::filestore::FileStore;
use skate::github::{Asset, Release};
use skate::ingress_conf::lets_encrypt_settings;
use skate::labels::StringMap;
use skate::logs::{log_target, pod_log_command, LogArgs, LogSource};
use skate::manifest::{AcmeIssuer, ClusterIssuer, ClusterIssuerSpec, Ingress, IngressRule, IngressSpec, ObjectMeta};
use skate::naming::NamespacedName;
use skate::platform::{Distribution, Platform};
use skate::resource::ResourceType;
use skate::scheduler::{selection_failure_message, OpType, RejectedNode};
use skate::versions::check_podman_version;
use skate::cli::ConfigFileArgs;
use skate::manifest::{CronJob, CronJobSpec, JobTemplateSpec};

fn meta() -> ObjectMeta {
    ObjectMeta { name: Some("x".to_string()), namespace: Some("default".to_string()), labels: None, annotations: None, generation: None }
}

fn asset(name: &str, url: &str) -> Asset {
    Asset {
        url: None,
        name: Some(name.to_string()),
        label: None,
        content_type: None,
        state: None,
        browser_download_url: Some(url.to_string()),
    }
}

#[test]
fn config_paths() {
    assert_eq!(config_path(Some("/etc/skate.yaml".to_string())), "/etc/skate.yaml");
    assert_eq!(cache_dir_in("/home/u/.skate"), "/home/u/.skate/cache");
    // a leading ~ is expanded by the environment's home directory
    assert!(!config_path(Some("~/x.yaml".to_string())).starts_with('~'));
    assert!(config_path(Some("~/x.yaml".to_string())).ends_with("/x.yaml"));
    // with no path given, the file in the configuration directory
    assert!(config_path(None).ends_with("/.skate/config.yaml"));
    assert!(!config_path(None).starts_with('~'));
}

#[test]
fn release_archive_and_version() {
    let release = Release {
        name: None,
        tag_name: Some("v0.2.5".to_string()),
        prerelease: None,
        created_at: None,
        published_at: None,
        assets: Some(vec![
            asset("skatelet-aarch64-unknown-linux-gnu.tar.gz", "https://dl/arm"),
            asset("skatelet-x86_64-unknown-linux-gnu.tar.gz", "https://dl/amd"),
        ]),
    };
    let amd = Platform { arch: "amd64".to_string(), distribution: Distribution::Ubuntu };
    assert_eq!(release.find_skatelet_archive(&amd), Some("https://dl/amd".to_string()));
    let riscv = Platform { arch: "riscv64".to_string(), distribution: Distribution::Ubuntu };
    assert_eq!(release.find_skatelet_archive(&riscv), None);
    assert_eq!(release.version().unwrap(), semver::Version::new(0, 2, 5));
    let untagged = Release { tag_name: None, ..release };
    assert!(untagged.version().is_err());
}

#[test]
fn podman_version_check() {
    assert_eq!(check_podman_version("3.0.0"), Some(true));
    assert_eq!(check_podman_version("2.9.9"), Some(false));
    assert_eq!(check_podman_version("3"), None);
}

#[test]
fn log_commands() {
    let args = LogArgs { config: ConfigFileArgs { skateconfig: "c".to_string(), context: None }, follow: true, tail: 5, namespace: None, identifier: "pod/web".to_string() };
    assert_eq!(args.to_podman_log_args(), vec!["sudo", "podman", "pod", "logs", "--names", "--timestamps", "--follow", "--tail 5"]);
    assert_eq!(args.to_journalctl_args(), vec!["sudo", "journalctl", "--output", "short-iso-precise", "--quiet", "-f", "-n 5", "-u"]);
    assert_eq!(pod_log_command(&args, "web"), "sudo podman pod logs --names --timestamps --follow --tail 5 web");
    let (src, name) = log_target("deployment/api").unwrap();
    assert!(matches!(src, LogSource::ChildPods(ResourceType::Deployment)));
    assert_eq!(name, "api");
    let (src, name) = log_target("web").unwrap();
    assert!(matches!(src, LogSource::Pod));
    assert_eq!(name, "web");
    assert!(log_target("secret/x").is_err());
}

#[test]
fn labels_map() {
    let mut m = StringMap::new();
    m.insert("a".to_string(), "1".to_string());
    m.insert("b".to_string(), "2".to_string());
    m.insert("a".to_string(), "3".to_string());
    assert_eq!(m.get("a"), Some("3".to_string()));
    assert!(m.contains_key("b"));
    assert!(!m.contains_key("c"));
    assert_eq!(m.len(), 2);
}

#[test]
fn namespaced_names_read_back() {
    let n = NamespacedName::new("web", "prod");
    assert_eq!(n.to_string(), "web.prod");
    let back = NamespacedName::from_text(&n.to_string());
    assert!(back.same_as(&n));
    let odd = NamespacedName::from_text("a.b.c");
    assert_eq!(odd.name, "a");
    assert_eq!(odd.namespace, "b.c");
}

#[test]
fn scheduler_messages() {
    let rejected = vec![
        RejectedNode { node_name: "a".to_string(), reason: "cordoned".to_string() },
        RejectedNode { node_name: "b".to_string(), reason: "unhealthy".to_string() },
    ];
    assert_eq!(selection_failure_message(&rejected), "failed to find feasible node (2 rejected): a - cordoned, b - unhealthy");
    let create = OpType::Create.symbol();
    assert!(create == "+" || create == "\x1b[1;32m+\x1b[0m", "{:?}", create);
    let delete = OpType::Delete.symbol();
    assert!(delete == "-" || delete == "\x1b[1;31m-\x1b[0m", "{:?}", delete);
    let info = OpType::Info.symbol();
    assert!(info == "[i]" || info == "\x1b[1;34m[i]\x1b[0m", "{:?}", info);
}

#[test]
fn lets_encrypt_from_ingresses() {
    let ing = |hosts: &[Option<&str>]| Ingress {
        metadata: meta(),
        spec: Some(IngressSpec { rules: Some(hosts.iter().map(|h| IngressRule { host: h.map(|s| s.to_string()) }).collect()) }),
    };
    let ingresses = vec![ing(&[Some("a.com"), None, Some("b.com")]), ing(&[Some("a.com"), Some("c.com")]), Ingress { metadata: meta(), spec: None }];
    let s = lets_encrypt_settings(&ingresses, None);
    assert_eq!(s.allow_domains, vec!["a.com", "b.com", "c.com"]);
    assert_eq!(s.endpoint, "https://acme-staging-v02.api.letsencrypt.org/directory");
    assert_eq!(s.email, "");
    let issuer = ClusterIssuer {
        metadata: meta(),
        spec: Some(ClusterIssuerSpec { acme: AcmeIssuer { server: "https://acme/prod".to_string(), email: "ops@x.com".to_string() } }),
    };
    let s = lets_encrypt_settings(&vec![], Some(&issuer));
    assert_eq!(s.endpoint, "https://acme/prod");
    assert_eq!(s.email, "ops@x.com");
    assert!(s.allow_domains.is_empty());
}

#[test]
fn controller_commands() {
    let pc = PodController::new();
    let r = pc.removal("pod-1", None).unwrap();
    assert_eq!(r.inspect_args, vec!["pod", "inspect", "pod-1", "--format={{range.Containers}}{{.Id}} {{end}}"]);
    assert_eq!(r.kill_args, vec!["pod", "kill", "--signal", "SIGTERM", "pod-1"]);
    assert_eq!(r.rm_args, vec!["pod", "rm", "--force", "pod-1"]);
    assert_eq!(r.grace, "10");
    assert_eq!(pc.wait_args(&r, "c1 c2 \n"), vec!["10", "podman", "wait", "c1", "c2"]);
    assert_eq!(pc.removal("p", Some(30)).unwrap().grace, "30");
    assert!(pc.removal("", None).is_err());
    assert!(pc.delete_podman_pods(vec![], vec![]).is_ok());
    let ids = vec!["a".to_string(), "".to_string(), "b".to_string()];
    let plan = pc.removals(&ids, None);
    // the call for "b" failed; "" was refused without a call
    let calls = vec![Ok(()), Ok(()), Err(SkateError::String("rm failed".to_string()))];
    match pc.delete_podman_pods(plan, calls) {
        Err(SkateError::Multi(v)) => {
            assert_eq!(v.len(), 2);
            assert!(matches!(&v[0], SkateError::String(m) if m == "no metadata.name found"));
            assert!(matches!(&v[1], SkateError::String(m) if m == "rm failed"));
        }
        other => panic!("{:?}", other),
    }
    let plan = pc.removals(&vec!["a".to_string()], None);
    assert!(pc.delete_podman_pods(plan, vec![Ok(())]).is_ok());
    let steps = skate::controllers::service_delete_commands("web.prod", "/etc/systemd/system", "/var/lib/skate");
    assert_eq!(steps.len(), 7);
    assert_eq!(steps[0].program, "systemctl");
    assert_eq!(steps[0].args, vec!["stop", "skate-ipvsmon-web.prod"]);
    assert_eq!(steps[2].args, vec!["/etc/systemd/system/skate-ipvsmon-web.prod.service"]);
    assert_eq!(steps[4].args, vec!["/var/lib/skate/keepalived/web.prod.conf"]);
    assert!(!steps[4].must_succeed);
    assert!(steps[5].must_succeed);
    assert!(skate::controllers::step_outcome(&steps[0], Err("x".to_string())).is_ok());
    assert!(skate::controllers::step_outcome(&steps[6], Err("x".to_string())).is_err());
    let sc = SecretController::new();
    assert_eq!(sc.delete_args(&NamespacedName::new("db", "prod")), vec!["secret", "rm", "db.prod"]);
    let _ = DefaultExecutor::new();
    assert_eq!(ipvsmon_unit("web.prod"), "skate-ipvsmon-web.prod");
    assert_eq!(service_domain("web.prod"), "web.prod.svc.cluster.skate");
}

#[test]
fn file_store_paths() {
    let fs = FileStore::new("/var/lib/skate/store".to_string());
    assert_eq!(fs.get_path(&vec!["ingress".to_string(), "web.prod".to_string()]), "/var/lib/skate/store/ingress/web.prod");
    assert_eq!(fs.get_path(&vec!["/abs".to_string(), "x".to_string()]), "/abs/x");
    let slash = FileStore::new("/base/".to_string());
    assert_eq!(slash.get_path(&vec!["a".to_string()]), "/base/a");
    assert_eq!(fs.file_path("service", "web.prod", "hash"), "/var/lib/skate/store/service/web.prod/hash");
}

#[test]
fn cron_job_units() {
    let cron = CronJob {
        metadata: ObjectMeta { name: Some("backup".to_string()), namespace: Some("prod".to_string()), labels: None, annotations: None, generation: None },
        spec: Some(CronJobSpec {
            schedule: "0 0 * * *".to_string(),
            time_zone: Some("UTC".to_string()),
            job_template: JobTemplateSpec { spec: None },
        }),
    };
    let u = skate::controllers::cron_units(&cron).unwrap();
    assert_eq!(u.unit_name, "skate-cronjob-backup.prod");
    assert_eq!(u.service_description, "backup.prod Job");
    assert_eq!(u.timer, "skate-cronjob-backup.prod.timer");
    assert_eq!(u.command, "skatelet create --namespace prod job --from cronjob/backup backup -w");
    assert_eq!(u.timer_description, "backup.prod Timer");
    assert_eq!(u.target_unit, "skate-cronjob-backup.prod.service");
    assert_eq!(u.on_calendar, "*-*-* 0:0:00 UTC");
    let broken = CronJob { spec: None, ..cron };
    assert!(skate::controllers::cron_units(&broken).is_err());
}

#[test]
fn fixup_refusal_messages() {
    use_fixup_refusals();
}

fn use_fixup_refusals() {
    let pod = |name: Option<&str>, ns: Option<&str>| skate::manifest::SupportedResources::Pod(skate::manifest::Pod {
        metadata: ObjectMeta { name: name.map(|s| s.to_string()), namespace: ns.map(|s| s.to_string()), labels: None, annotations: None, generation: None },
        spec: None,
    });
    let msg = |r: skate::manifest::SupportedResources| match r.fixup() {
        Err(SkateError::String(m)) => m,
        other => panic!("{:?}", other),
    };
    assert_eq!(msg(pod(None, Some("ns"))), "metadata.name is empty");
    assert_eq!(msg(pod(Some("p"), None)), "metadata.namespace is empty");
}

#[test]
fn pods_are_removed_one_by_one() {
    let pc = PodController::new();
    let ids = vec!["a".to_string(), "".to_string(), "b".to_string()];
    let rs = pc.removals(&ids, Some(5));
    assert_eq!(rs.len(), 3);
    assert_eq!(rs[0].as_ref().unwrap().rm_args, vec!["pod", "rm", "--force", "a"]);
    assert!(rs[1].is_err());
    assert_eq!(rs[2].as_ref().unwrap().grace, "5");
}

#[test]
fn unknown_context_message() {
    let mut config = skate::config::Config { current_context: None, clusters: vec![] };
    match skate::config::use_context(&mut config, "prod") {
        Err(SkateError::String(m)) => assert_eq!(m, "no context exists with the name prod"),
        other => panic!("{:?}", other),
    }
}

#[test]
fn manifest_kinds() {
    assert_eq!(skate::resource::manifest_kind(Some("apps/v1"), Some("Deployment")).unwrap(), ResourceType::Deployment);
    assert_eq!(skate::resource::manifest_kind(Some("v1"), Some("Secret")).unwrap(), ResourceType::Secret);
    assert_eq!(skate::resource::manifest_kind(Some("cert-manager.io/v1"), Some("ClusterIssuer")).unwrap(), ResourceType::ClusterIssuer);
    assert!(skate::resource::manifest_kind(Some("v1"), Some("ConfigMap")).is_err());
    assert!(skate::resource::manifest_kind(None, Some("Pod")).is_err());
}

#[test]
fn runs_of_node_commands() {
    let steps = skate::controllers::service_delete_commands("web.prod", "/etc/systemd/system", "/var/lib/skate");
    // failures of the monitor unit and its files are only logged
    let mut outcomes: Vec<Result<(), String>> = vec![Err("no unit".to_string()), Err("x".to_string())];
    outcomes.extend((0..5).map(|_| Ok(())));
    assert!(skate::controllers::run_outcome(&steps, outcomes).is_ok());
    // a failed reload stops the run with its message
    let outcomes: Vec<Result<(), String>> = (0..5)
        .map(|_| Ok(()))
        .chain(vec![Err("reload failed".to_string())])
        .collect();
    match skate::controllers::run_outcome(&steps, outcomes) {
        Err(SkateError::String(m)) => assert_eq!(m, "reload failed"),
        other => panic!("{:?}", other),
    }

    let cron = skate::controllers::cron_activation_commands("skate-cronjob-backup.prod");
    assert_eq!(cron.len(), 4);
    assert_eq!(cron[0].program, "systemctl");
    assert_eq!(cron[0].args, vec!["daemon-reload"]);
    assert_eq!(cron[1].args, vec!["enable", "skate-cronjob-backup.prod.timer"]);
    assert_eq!(cron[2].args, vec!["start", "skate-cronjob-backup.prod.timer"]);
    assert_eq!(cron[3].args, vec!["reset-failed", "skate-cronjob-backup.prod"]);
    assert!(cron[0].must_succeed && cron[1].must_succeed && cron[2].must_succeed);
    assert!(!cron[3].must_succeed);
    // a failed reset of the failed state is ignored
    let outcomes: Vec<Result<(), String>> = vec![Ok(()), Ok(()), Ok(()), Err("x".to_string())];
    assert!(skate::controllers::run_outcome(&cron, outcomes).is_ok());
    let outcomes: Vec<Result<(), String>> = vec![Ok(()), Err("enable failed".to_string())];
    match skate::controllers::run_outcome(&cron, outcomes) {
        Err(SkateError::String(m)) => assert_eq!(m, "enable failed"),
        other => panic!("{:?}", other),
    }
}
