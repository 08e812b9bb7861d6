//! Preparing manifests before they are scheduled: skate's labels and annotations, names
//! qualified by namespace, and secret references scoped to their namespace.
use vstd::prelude::*;
use crate::errors::SkateError;
use crate::labels::StringMap;
use crate::manifest::{
    Container, ContainerView, EnvVar, EnvVarView, ObjectMeta, ObjectMetaView, PodSpec, PodSpecView,
    PodTemplateSpec, PodTemplateSpecView, SecretKeySelector, SecretKeySelectorView, SecretVolumeSource,
    SecretVolumeSourceView, SupportedResources, SupportedResourcesView, Volume, VolumeView,
    PodView, DeploymentView, DaemonSetView, CronJobView, SecretView, ServiceView, IngressView,
    ClusterIssuerView, DeploymentSpecView, DaemonSetSpecView, CronJobSpecView, JobSpecView,
    JobTemplateSpecView,
};
use crate::naming::{metadata_name, metadata_name_spec, ns_name_text};
use crate::text::{join3, owned};

verus! {

/// A name scoped to a namespace: `name.namespace`.
pub open spec fn scoped(n: Seq<char>, ns: Seq<char>) -> Seq<char> {
    n + "."@ + ns
}

/// An environment variable whose secret reference is scoped to the namespace.
pub open spec fn fix_env(e: EnvVarView, ns: Seq<char>) -> EnvVarView {
    match e.secret_key_ref {
        Some(r) => match r.name {
            Some(n) => EnvVarView { secret_key_ref: Some(SecretKeySelectorView { name: Some(scoped(n, ns)), ..r }), ..e },
            None => e,
        },
        None => e,
    }
}

/// A container whose secret references are scoped to the namespace.
pub open spec fn fix_container(c: ContainerView, ns: Seq<char>) -> ContainerView {
    ContainerView {
        env: match c.env {
            Some(l) => Some(l.map_values(|e: EnvVarView| fix_env(e, ns))),
            None => None,
        },
        ..c
    }
}

/// A volume whose secret is scoped to the namespace.
pub open spec fn fix_volume(v: VolumeView, ns: Seq<char>) -> VolumeView {
    VolumeView {
        secret: match v.secret {
            Some(s) => Some(SecretVolumeSourceView {
                secret_name: match s.secret_name {
                    Some(n) => Some(scoped(n, ns)),
                    None => None,
                },
            }),
            None => None,
        },
        ..v
    }
}

/// A pod spec whose secret references, in environment variables and in volumes, are scoped to
/// the namespace, so that a secret of one namespace is not visible from another.
pub open spec fn fix_pod_spec(sp: PodSpecView, ns: Seq<char>) -> PodSpecView {
    PodSpecView {
        containers: sp.containers.map_values(|c: ContainerView| fix_container(c, ns)),
        volumes: match sp.volumes {
            Some(vs) => Some(vs.map_values(|v: VolumeView| fix_volume(v, ns))),
            None => None,
        },
        ..sp
    }
}

/// A pod template whose spec's secret references are scoped to the namespace.
pub open spec fn fix_template(t: PodTemplateSpecView, ns: Seq<char>) -> PodTemplateSpecView {
    PodTemplateSpecView {
        spec: match t.spec {
            Some(sp) => Some(fix_pod_spec(sp, ns)),
            None => None,
        },
        ..t
    }
}

/// Metadata with skate's labels (its name, its namespace, `default` where it has none, and any
/// extra label) and skate's annotation `io.skate=true`.
pub open spec fn fix_meta(m: ObjectMetaView, extra: Option<(Seq<char>, Seq<char>)>) -> ObjectMetaView {
    let ns = match m.namespace { Some(n) => n, None => "default"@ };
    let name = match m.name { Some(n) => n, None => Seq::empty() };
    let base = match m.labels { Some(l) => l, None => Map::empty() };
    let l1 = base.insert("skate.io/name"@, name).insert("skate.io/namespace"@, ns);
    let l2 = match extra { Some((k, v)) => l1.insert(k, v), None => l1 };
    let ann = match m.annotations { Some(a) => a, None => Map::empty() }.insert("io.skate"@, "true"@);
    ObjectMetaView { labels: Some(l2), annotations: Some(ann), ..m }
}

/// Metadata with its name replaced by its namespaced name's text form.
pub open spec fn renamed_by_labels(m: ObjectMetaView) -> ObjectMetaView {
    ObjectMetaView { name: Some(ns_name_text(metadata_name_spec(m))), ..m }
}

/// The metadata of a controller's pod template once prepared: it takes the controller's
/// namespace, the controller's name where it has none (`name_if_empty`: also where its name is
/// empty), and skate's labels with the extra label.
pub open spec fn fix_template_meta(tm: Option<ObjectMetaView>, owner: ObjectMetaView, name_if_empty: bool, extra: (Seq<char>, Seq<char>)) -> ObjectMetaView {
    let m0 = match tm {
        Some(m) => m,
        None => ObjectMetaView { name: None, namespace: None, labels: None, annotations: None, generation: None },
    };
    let missing = if name_if_empty {
        match m0.name { Some(n) => n.len() == 0, None => true }
    } else {
        m0.name is None
    };
    let m1 = ObjectMetaView { namespace: owner.namespace, name: if missing { owner.name } else { m0.name }, ..m0 };
    fix_meta(m1, Some(extra))
}

/// Whether a manifest can be prepared without failing on missing data that the preparation
/// assumes: a daemonset that passes the name and namespace checks must have template metadata
/// where it has a spec, and a cluster issuer must have a name.
pub open spec fn fixup_defined(r: SupportedResourcesView) -> bool {
    match r {
        SupportedResourcesView::DaemonSet(ds) => fixup_accepts(r) ==> (ds.spec matches Some(sp) ==> sp.template.metadata is Some),
        SupportedResourcesView::ClusterIssuer(c) => c.metadata.name is Some,
        _ => true,
    }
}

/// Whether a manifest names itself and its namespace as preparation requires: a name (non-empty
/// for secrets, cron jobs, deployments and daemonsets) and a namespace; cluster issuers need
/// neither.
pub open spec fn fixup_accepts(r: SupportedResourcesView) -> bool {
    let m = r.meta();
    match r {
        SupportedResourcesView::ClusterIssuer(_) => true,
        SupportedResourcesView::Ingress(_) | SupportedResourcesView::Pod(_) | SupportedResourcesView::Service(_) =>
            m.name is Some && m.namespace is Some,
        _ => (m.name matches Some(n) && n.len() > 0) && m.namespace is Some,
    }
}

/// Why preparation refuses a manifest that `fixup_accepts` does not accept: a missing (or, where
/// it must be non-empty, empty) name comes first, then a missing namespace.
pub open spec fn fixup_refusal(r: SupportedResourcesView) -> Seq<char> {
    let m = r.meta();
    let name_ok = match r {
        SupportedResourcesView::Ingress(_) | SupportedResourcesView::Pod(_) | SupportedResourcesView::Service(_) =>
            m.name is Some,
        _ => m.name matches Some(n) && n.len() > 0,
    };
    if !name_ok { "metadata.name is empty"@ } else { "metadata.namespace is empty"@ }
}

/// A manifest prepared for scheduling.
pub open spec fn fixup_spec(r: SupportedResourcesView) -> SupportedResourcesView {
    match r {
        SupportedResourcesView::Secret(s) => {
            let m = fix_meta(s.metadata, None);
            SupportedResourcesView::Secret(SecretView { metadata: ObjectMetaView { name: Some(scoped(s.metadata.name->0, s.metadata.namespace->0)), ..m }, ..s })
        },
        SupportedResourcesView::CronJob(c) => {
            let m = fix_meta(c.metadata, None);
            let ns = c.metadata.namespace->0;
            let spec = match c.spec {
                Some(sp) => match sp.job_template.spec {
                    Some(js) => {
                        let tm = fix_template_meta(js.template.metadata, m, false, ("skate.io/cronjob"@, c.metadata.name->0));
                        let t = fix_template(PodTemplateSpecView { metadata: Some(tm), ..js.template }, ns);
                        Some(CronJobSpecView { job_template: JobTemplateSpecView { spec: Some(JobSpecView { template: t }) }, ..sp })
                    },
                    None => None,
                },
                None => None,
            };
            SupportedResourcesView::CronJob(CronJobView { metadata: m, spec })
        },
        SupportedResourcesView::Ingress(i) => SupportedResourcesView::Ingress(IngressView { metadata: renamed_by_labels(fix_meta(i.metadata, None)), ..i }),
        SupportedResourcesView::Pod(p) => SupportedResourcesView::Pod(PodView { metadata: renamed_by_labels(fix_meta(p.metadata, None)), ..p }),
        SupportedResourcesView::Deployment(d) => {
            let extra = ("skate.io/deployment"@, d.metadata.name->0);
            let m = fix_meta(d.metadata, Some(extra));
            let ns = d.metadata.namespace->0;
            let spec = match d.spec {
                Some(sp) => {
                    let tm = fix_template_meta(sp.template.metadata, m, true, extra);
                    Some(DeploymentSpecView { template: fix_template(PodTemplateSpecView { metadata: Some(tm), ..sp.template }, ns), ..sp })
                },
                None => None,
            };
            SupportedResourcesView::Deployment(DeploymentView { metadata: m, spec })
        },
        SupportedResourcesView::DaemonSet(ds) => {
            let extra = ("skate.io/daemonset"@, ds.metadata.name->0);
            let m = fix_meta(ds.metadata, None);
            let ns = ds.metadata.namespace->0;
            let spec = match ds.spec {
                Some(sp) => {
                    let tm = fix_template_meta(sp.template.metadata, m, true, extra);
                    Some(DaemonSetSpecView { template: fix_template(PodTemplateSpecView { metadata: Some(tm), ..sp.template }, ns) })
                },
                None => None,
            };
            SupportedResourcesView::DaemonSet(DaemonSetView { metadata: m, spec })
        },
        SupportedResourcesView::Service(s) => SupportedResourcesView::Service(ServiceView { metadata: renamed_by_labels(fix_meta(s.metadata, None)), ..s }),
        SupportedResourcesView::ClusterIssuer(c) => SupportedResourcesView::ClusterIssuer(ClusterIssuerView { metadata: renamed_by_labels(fix_meta(c.metadata, None)), ..c }),
    }
}

fn fix_meta_exec(m: &ObjectMeta, extra: Option<(&str, &str)>) -> (res: ObjectMeta)
    ensures
        res.deep_view() == fix_meta(m.deep_view(), match extra { Some((k, v)) => Some((k@, v@)), None => None }),
{
    let ns = match &m.namespace {
        Some(n) => n.clone(),
        None => owned("default"),
    };
    let name = match &m.name {
        Some(n) => n.clone(),
        None => String::new(),
    };
    let mut labels = match &m.labels {
        Some(l) => l.clone(),
        None => StringMap::new(),
    };
    labels.insert(owned("skate.io/name"), name);
    labels.insert(owned("skate.io/namespace"), ns);
    match extra {
        Some((k, v)) => labels.insert(owned(k), owned(v)),
        None => {},
    }
    let mut ann = match &m.annotations {
        Some(a) => a.clone(),
        None => StringMap::new(),
    };
    ann.insert(owned("io.skate"), owned("true"));
    ObjectMeta {
        name: crate::config::clone_opt_text(&m.name),
        namespace: crate::config::clone_opt_text(&m.namespace),
        labels: Some(labels),
        annotations: Some(ann),
        generation: m.generation,
    }
}

fn fix_env_exec(e: &EnvVar, ns: &str) -> (res: EnvVar)
    ensures
        res.deep_view() == fix_env(e.deep_view(), ns@),
{
    let secret_key_ref = match &e.secret_key_ref {
        Some(r) => Some(SecretKeySelector {
            name: match &r.name {
                Some(n) => Some(join3(n.as_str(), ".", ns)),
                None => None,
            },
            key: r.key.clone(),
        }),
        None => None,
    };
    let res = EnvVar { name: e.name.clone(), value: crate::config::clone_opt_text(&e.value), secret_key_ref };
    proof {
        if e.secret_key_ref is Some && e.secret_key_ref->0.name is None {
            assert(res.deep_view() == e.deep_view());
        }
    }
    res
}

fn fix_container_exec(c: &Container, ns: &str) -> (res: Container)
    ensures
        res.deep_view() == fix_container(c.deep_view(), ns@),
{
    let env = match &c.env {
        Some(list) => {
            let mut out: Vec<EnvVar> = Vec::new();
            let mut i: usize = 0;
            while i < list.len()
                invariant
                    i <= list@.len(),
                    out.deep_view() == list.deep_view().take(i as int).map_values(|e: EnvVarView| fix_env(e, ns@)),
                decreases list.len() - i,
            {
                let ghost before = out.deep_view();
                out.push(fix_env_exec(&list[i], ns));
                proof {
                    assert(out.deep_view() =~= before.push(fix_env(list.deep_view()[i as int], ns@)));
                    assert(list.deep_view().take(i + 1) =~= list.deep_view().take(i as int).push(list.deep_view()[i as int]));
                    assert(list.deep_view().take(i + 1).map_values(|e: EnvVarView| fix_env(e, ns@)) =~= list.deep_view().take(i as int).map_values(|e: EnvVarView| fix_env(e, ns@)).push(fix_env(list.deep_view()[i as int], ns@)));
                }
                i = i + 1;
            }
            assert(list.deep_view().take(list@.len() as int) =~= list.deep_view());
            Some(out)
        },
        None => None,
    };
    let command = c.command.clone();
    assert(command is Some ==> command->0.deep_view() =~= c.command->0.deep_view());
    let args = c.args.clone();
    assert(args is Some ==> args->0.deep_view() =~= c.args->0.deep_view());
    Container { name: c.name.clone(), image: crate::config::clone_opt_text(&c.image), command, args, env }
}

fn fix_volume_exec(v: &Volume, ns: &str) -> (res: Volume)
    ensures
        res.deep_view() == fix_volume(v.deep_view(), ns@),
{
    let secret = match &v.secret {
        Some(s) => Some(SecretVolumeSource {
            secret_name: match &s.secret_name {
                Some(n) => Some(join3(n.as_str(), ".", ns)),
                None => None,
            },
        }),
        None => None,
    };
    Volume { name: v.name.clone(), secret }
}

fn fix_pod_spec_exec(sp: &PodSpec, ns: &str) -> (res: PodSpec)
    ensures
        res.deep_view() == fix_pod_spec(sp.deep_view(), ns@),
{
    let mut containers: Vec<Container> = Vec::new();
    let mut i: usize = 0;
    while i < sp.containers.len()
        invariant
            i <= sp.containers@.len(),
            containers.deep_view() == sp.containers.deep_view().take(i as int).map_values(|c: ContainerView| fix_container(c, ns@)),
        decreases sp.containers.len() - i,
    {
        let ghost before = containers.deep_view();
        containers.push(fix_container_exec(&sp.containers[i], ns));
        proof {
            let s = sp.containers.deep_view();
            assert(containers.deep_view() =~= before.push(fix_container(s[i as int], ns@)));
            assert(s.take(i + 1) =~= s.take(i as int).push(s[i as int]));
            assert(s.take(i + 1).map_values(|c: ContainerView| fix_container(c, ns@)) =~= s.take(i as int).map_values(|c: ContainerView| fix_container(c, ns@)).push(fix_container(s[i as int], ns@)));
        }
        i = i + 1;
    }
    assert(sp.containers.deep_view().take(sp.containers@.len() as int) =~= sp.containers.deep_view());
    let volumes = match &sp.volumes {
        Some(list) => {
            let mut out: Vec<Volume> = Vec::new();
            let mut j: usize = 0;
            while j < list.len()
                invariant
                    j <= list@.len(),
                    out.deep_view() == list.deep_view().take(j as int).map_values(|v: VolumeView| fix_volume(v, ns@)),
                decreases list.len() - j,
            {
                let ghost before = out.deep_view();
                out.push(fix_volume_exec(&list[j], ns));
                proof {
                    let s = list.deep_view();
                    assert(out.deep_view() =~= before.push(fix_volume(s[j as int], ns@)));
                    assert(s.take(j + 1) =~= s.take(j as int).push(s[j as int]));
                    assert(s.take(j + 1).map_values(|v: VolumeView| fix_volume(v, ns@)) =~= s.take(j as int).map_values(|v: VolumeView| fix_volume(v, ns@)).push(fix_volume(s[j as int], ns@)));
                }
                j = j + 1;
            }
            assert(list.deep_view().take(list@.len() as int) =~= list.deep_view());
            Some(out)
        },
        None => None,
    };
    PodSpec {
        containers,
        volumes,
        node_selector: match &sp.node_selector { Some(m) => Some(m.clone()), None => None },
        host_network: sp.host_network,
        restart_policy: crate::config::clone_opt_text(&sp.restart_policy),
    }
}

fn fix_template_exec(t: &PodTemplateSpec, meta: ObjectMeta, ns: &str) -> (res: PodTemplateSpec)
    ensures
        res.deep_view() == fix_template(PodTemplateSpecView { metadata: Some(meta.deep_view()), ..t.deep_view() }, ns@),
{
    PodTemplateSpec {
        metadata: Some(meta),
        spec: match &t.spec {
            Some(sp) => Some(fix_pod_spec_exec(sp, ns)),
            None => None,
        },
    }
}

fn fix_template_meta_exec(tm: &Option<ObjectMeta>, owner: &ObjectMeta, name_if_empty: bool, extra_key: &str, extra_value: &str) -> (res: ObjectMeta)
    ensures
        res.deep_view() == fix_template_meta(
            match tm { Some(m) => Some(m.deep_view()), None => None },
            owner.deep_view(),
            name_if_empty,
            (extra_key@, extra_value@),
        ),
{
    let m0 = match tm {
        Some(m) => m.clone(),
        None => ObjectMeta { name: None, namespace: None, labels: None, annotations: None, generation: None },
    };
    let missing = if name_if_empty {
        match &m0.name {
            Some(n) => n.as_str().unicode_len() == 0,
            None => true,
        }
    } else {
        m0.name.is_none()
    };
    let m1 = ObjectMeta {
        namespace: crate::config::clone_opt_text(&owner.namespace),
        name: if missing { crate::config::clone_opt_text(&owner.name) } else { m0.name },
        labels: m0.labels,
        annotations: m0.annotations,
        generation: m0.generation,
    };
    fix_meta_exec(&m1, Some((extra_key, extra_value)))
}

fn renamed_exec(m: ObjectMeta) -> (res: ObjectMeta)
    ensures
        res.deep_view() == renamed_by_labels(m.deep_view()),
{
    let n = metadata_name(&m).to_string();
    let mut r = m;
    r.name = Some(n);
    r
}

fn name_error() -> (res: SkateError)
    ensures
        res matches SkateError::String(m) && m@ == "metadata.name is empty"@,
{
    SkateError::msg("metadata.name is empty")
}

fn namespace_error() -> (res: SkateError)
    ensures
        res matches SkateError::String(m) && m@ == "metadata.namespace is empty"@,
{
    SkateError::msg("metadata.namespace is empty")
}

/// Whether a manifest's pods share the node's network (where it says nothing, they do not).
pub open spec fn host_network_spec(r: SupportedResourcesView) -> bool {
    let sp = match r {
        SupportedResourcesView::Pod(p) => p.spec,
        SupportedResourcesView::Deployment(d) => match d.spec { Some(s) => s.template.spec, None => None },
        SupportedResourcesView::DaemonSet(d) => match d.spec { Some(s) => s.template.spec, None => None },
        SupportedResourcesView::CronJob(c) => match c.spec {
            Some(s) => match s.job_template.spec { Some(j) => j.template.spec, None => None },
            None => None,
        },
        _ => None,
    };
    match sp {
        Some(s) => match s.host_network { Some(b) => b, None => false },
        None => false,
    }
}

fn spec_host_network(sp: &Option<PodSpec>) -> (res: bool)
    ensures
        res == (match sp { Some(s) => match s.host_network { Some(b) => b, None => false }, None => false }),
{
    match sp {
        Some(s) => match s.host_network { Some(b) => b, None => false },
        None => false,
    }
}

impl SupportedResources {
    /// Whether the manifest's pods share the node's network (see `host_network_spec`).
    pub fn host_network(&self) -> (res: bool)
        ensures
            res == host_network_spec(self.deep_view()),
    {
        match self {
            SupportedResources::Pod(p) => spec_host_network(&p.spec),
            SupportedResources::Deployment(d) => match &d.spec { Some(s) => spec_host_network(&s.template.spec), None => false },
            SupportedResources::DaemonSet(d) => match &d.spec { Some(s) => spec_host_network(&s.template.spec), None => false },
            SupportedResources::CronJob(c) => match &c.spec {
                Some(s) => match &s.job_template.spec { Some(j) => spec_host_network(&j.template.spec), None => false },
                None => false,
            },
            _ => false,
        }
    }

    /// Prepares a manifest for scheduling (see `fixup_spec`); a manifest without the name or
    /// namespace it needs (see `fixup_accepts`) is refused.
    pub fn fixup(self) -> (res: Result<SupportedResources, SkateError>)
        requires
            fixup_defined(self.deep_view()),
        ensures
            fixup_accepts(self.deep_view()) ==> (res matches Ok(r) && r.deep_view() == fixup_spec(self.deep_view())),
            !fixup_accepts(self.deep_view()) ==> (res matches Err(e) && e.message() == fixup_refusal(self.deep_view())),
    {
        match self {
            SupportedResources::Secret(s) => {
                let name = match &s.metadata.name { Some(n) => n.clone(), None => String::new() };
                if name.as_str().unicode_len() == 0 {
                    return Err(name_error());
                }
                let ns = match &s.metadata.namespace { Some(n) => n.clone(), None => return Err(namespace_error()) };
                let mut m = fix_meta_exec(&s.metadata, None);
                m.name = Some(join3(name.as_str(), ".", ns.as_str()));
                Ok(SupportedResources::Secret(crate::manifest::Secret { metadata: m, data: s.data, string_data: s.string_data }))
            },
            SupportedResources::CronJob(c) => {
                let name = match &c.metadata.name { Some(n) => n.clone(), None => String::new() };
                if name.as_str().unicode_len() == 0 {
                    return Err(name_error());
                }
                let ns = match &c.metadata.namespace { Some(n) => n.clone(), None => return Err(namespace_error()) };
                let m = fix_meta_exec(&c.metadata, None);
                let spec = match c.spec {
                    Some(sp) => match sp.job_template.spec {
                        Some(js) => {
                            let tm = fix_template_meta_exec(&js.template.metadata, &m, false, "skate.io/cronjob", name.as_str());
                            let t = fix_template_exec(&js.template, tm, ns.as_str());
                            Some(crate::manifest::CronJobSpec {
                                schedule: sp.schedule,
                                time_zone: sp.time_zone,
                                job_template: crate::manifest::JobTemplateSpec { spec: Some(crate::manifest::JobSpec { template: t }) },
                            })
                        },
                        None => None,
                    },
                    None => None,
                };
                Ok(SupportedResources::CronJob(crate::manifest::CronJob { metadata: m, spec }))
            },
            SupportedResources::Ingress(i) => {
                if i.metadata.name.is_none() {
                    return Err(name_error());
                }
                if i.metadata.namespace.is_none() {
                    return Err(namespace_error());
                }
                let m = renamed_exec(fix_meta_exec(&i.metadata, None));
                Ok(SupportedResources::Ingress(crate::manifest::Ingress { metadata: m, spec: i.spec }))
            },
            SupportedResources::Pod(p) => {
                if p.metadata.name.is_none() {
                    return Err(name_error());
                }
                if p.metadata.namespace.is_none() {
                    return Err(namespace_error());
                }
                let m = renamed_exec(fix_meta_exec(&p.metadata, None));
                Ok(SupportedResources::Pod(crate::manifest::Pod { metadata: m, spec: p.spec }))
            },
            SupportedResources::Deployment(d) => {
                let name = match &d.metadata.name { Some(n) => n.clone(), None => String::new() };
                if name.as_str().unicode_len() == 0 {
                    return Err(name_error());
                }
                let ns = match &d.metadata.namespace { Some(n) => n.clone(), None => return Err(namespace_error()) };
                let m = fix_meta_exec(&d.metadata, Some(("skate.io/deployment", name.as_str())));
                let spec = match d.spec {
                    Some(sp) => {
                        let tm = fix_template_meta_exec(&sp.template.metadata, &m, true, "skate.io/deployment", name.as_str());
                        let t = fix_template_exec(&sp.template, tm, ns.as_str());
                        Some(crate::manifest::DeploymentSpec { replicas: sp.replicas, template: t, strategy: sp.strategy })
                    },
                    None => None,
                };
                Ok(SupportedResources::Deployment(crate::manifest::Deployment { metadata: m, spec }))
            },
            SupportedResources::DaemonSet(ds) => {
                let name = match &ds.metadata.name { Some(n) => n.clone(), None => String::new() };
                if name.as_str().unicode_len() == 0 {
                    return Err(name_error());
                }
                let ns = match &ds.metadata.namespace { Some(n) => n.clone(), None => return Err(namespace_error()) };
                let m = fix_meta_exec(&ds.metadata, None);
                let spec = match ds.spec {
                    Some(sp) => {
                        let tm = fix_template_meta_exec(&sp.template.metadata, &m, true, "skate.io/daemonset", name.as_str());
                        let t = fix_template_exec(&sp.template, tm, ns.as_str());
                        Some(crate::manifest::DaemonSetSpec { template: t })
                    },
                    None => None,
                };
                Ok(SupportedResources::DaemonSet(crate::manifest::DaemonSet { metadata: m, spec }))
            },
            SupportedResources::Service(s) => {
                if s.metadata.name.is_none() {
                    return Err(name_error());
                }
                if s.metadata.namespace.is_none() {
                    return Err(namespace_error());
                }
                let m = renamed_exec(fix_meta_exec(&s.metadata, None));
                Ok(SupportedResources::Service(crate::manifest::Service { metadata: m, spec: s.spec }))
            },
            SupportedResources::ClusterIssuer(c) => {
                let m = renamed_exec(fix_meta_exec(&c.metadata, None));
                Ok(SupportedResources::ClusterIssuer(crate::manifest::ClusterIssuer { metadata: m, spec: c.spec }))
            },
        }
    }
}

/// Preparing a manifest keeps its kind and marks it as skate's: it carries the annotation
/// `io.skate=true` and the label `skate.io/namespace` with its namespace (`default` where it has
/// none).
pub proof fn lemma_fixup_marks_manifest(r: SupportedResourcesView)
    requires
        fixup_defined(r),
        fixup_accepts(r),
    ensures
        fixup_spec(r).resource_type() == r.resource_type(),
        fixup_spec(r).meta().annotations matches Some(a) && a.contains_key("io.skate"@) && a["io.skate"@] == "true"@,
        fixup_spec(r).meta().labels matches Some(l) && l.contains_key("skate.io/namespace"@)
            && l["skate.io/namespace"@] == (match r.meta().namespace { Some(n) => n, None => "default"@ }),
{
    reveal_strlit("skate.io/namespace");
    reveal_strlit("skate.io/name");
    reveal_strlit("skate.io/deployment");
    assert("skate.io/deployment"@ != "skate.io/namespace"@) by {
        assert("skate.io/deployment"@.len() != "skate.io/namespace"@.len());
    }
    let m = r.meta();
    let ns = match m.namespace { Some(n) => n, None => "default"@ };
    match r {
        SupportedResourcesView::Deployment(d) => {
            let extra = ("skate.io/deployment"@, d.metadata.name->0);
            let fm = fix_meta(d.metadata, Some(extra));
            assert(fm.labels->0["skate.io/namespace"@] == ns);
        },
        _ => {
            let fm = fix_meta(m, None);
            assert(fm.labels->0["skate.io/namespace"@] == ns);
        },
    }
}

/// The secret that the `j`-th environment variable of a container reads, where it reads one.
pub open spec fn env_secret(c: ContainerView, j: int) -> Option<Seq<char>> {
    match c.env {
        Some(l) => if 0 <= j < l.len() {
            match l[j].secret_key_ref {
                Some(r) => r.name,
                None => None,
            }
        } else {
            None
        },
        None => None,
    }
}

/// The secret that the `k`-th volume of a pod spec mounts, where it mounts one.
pub open spec fn volume_secret(sp: PodSpecView, k: int) -> Option<Seq<char>> {
    match sp.volumes {
        Some(vs) => if 0 <= k < vs.len() {
            match vs[k].secret {
                Some(s) => s.secret_name,
                None => None,
            }
        } else {
            None
        },
        None => None,
    }
}

/// Scoping a pod spec to a namespace keeps its containers and volumes, one for one, and turns
/// every secret they name, in an environment variable or in a volume, from `x` into
/// `x.<namespace>`; what names no secret stays as it is.
pub proof fn lemma_fix_pod_spec_scopes(ps: PodSpecView, ns: Seq<char>)
    ensures
        fix_pod_spec(ps, ns).containers.len() == ps.containers.len(),
        forall|i: int, j: int| 0 <= i < ps.containers.len() ==>
            #[trigger] env_secret(fix_pod_spec(ps, ns).containers[i], j) == (match env_secret(ps.containers[i], j) {
                Some(x) => Some(scoped(x, ns)),
                None => None,
            }),
        forall|k: int| #[trigger] volume_secret(fix_pod_spec(ps, ns), k) == (match volume_secret(ps, k) {
            Some(x) => Some(scoped(x, ns)),
            None => None,
        }),
{
    let ps2 = fix_pod_spec(ps, ns);
    assert forall|i: int, j: int| 0 <= i < ps.containers.len() implies
        #[trigger] env_secret(ps2.containers[i], j) == (match env_secret(ps.containers[i], j) {
            Some(x) => Some(scoped(x, ns)),
            None => None,
        }) by {
        assert(ps2.containers[i] == fix_container(ps.containers[i], ns));
    }
    assert forall|k: int| #[trigger] volume_secret(ps2, k) == (match volume_secret(ps, k) {
        Some(x) => Some(scoped(x, ns)),
        None => None,
    }) by {
        match ps.volumes {
            Some(vs) => {
                if 0 <= k < vs.len() {
                    assert(ps2.volumes->0[k] == fix_volume(vs[k], ns));
                }
            },
            None => {},
        }
    }
}

/// Preparing a deployment keeps its name, labels it with its name, namespace and deployment,
/// marks it as skate's, and gives its pod template the deployment's namespace and deployment
/// label (and its name where the template has none) and a spec whose secrets are scoped to the
/// namespace (see `lemma_fix_pod_spec_scopes`).
#[verifier::spinoff_prover]
pub proof fn lemma_fixup_deployment(d: DeploymentView)
    requires
        d.metadata.name matches Some(n) && n.len() > 0,
        d.metadata.namespace is Some,
    ensures
        ({
            let nm = d.metadata.name->0;
            let ns = d.metadata.namespace->0;
            fixup_spec(SupportedResourcesView::Deployment(d)) matches SupportedResourcesView::Deployment(d2) && {
                &&& d2.metadata.name == Some(nm)
                &&& d2.metadata.labels matches Some(l) && l.contains_key("skate.io/name"@) && l["skate.io/name"@] == nm
                    && l.contains_key("skate.io/namespace"@) && l["skate.io/namespace"@] == ns
                    && l.contains_key("skate.io/deployment"@) && l["skate.io/deployment"@] == nm
                &&& d2.metadata.annotations matches Some(a) && a.contains_key("io.skate"@) && a["io.skate"@] == "true"@
                &&& (d.spec matches Some(sp) ==> (d2.spec matches Some(sp2) && {
                    &&& sp2.template.metadata is Some
                    &&& sp2.template.metadata->0.namespace == Some(ns)
                    &&& sp2.template.metadata->0.labels is Some
                    &&& sp2.template.metadata->0.labels->0.contains_key("skate.io/deployment"@)
                    &&& sp2.template.metadata->0.labels->0["skate.io/deployment"@] == nm
                    &&& sp2.template.spec == (match sp.template.spec {
                        Some(ps) => Some(fix_pod_spec(ps, ns)),
                        None => None,
                    })
                }))
            }
        }),
{
    reveal_strlit("skate.io/namespace");
    reveal_strlit("skate.io/name");
    reveal_strlit("skate.io/deployment");
    assert("skate.io/deployment"@ != "skate.io/namespace"@) by {
        assert("skate.io/deployment"@.len() != "skate.io/namespace"@.len());
    }
    assert("skate.io/deployment"@ != "skate.io/name"@) by {
        assert("skate.io/deployment"@.len() != "skate.io/name"@.len());
    }
}

/// The pod spec that a workload's pods run (a deployment's or daemonset's template, a cron
/// job's job template), where it has one.
pub open spec fn workload_pod_spec(r: SupportedResourcesView) -> Option<PodSpecView> {
    match r {
        SupportedResourcesView::Deployment(d) => match d.spec { Some(sp) => sp.template.spec, None => None },
        SupportedResourcesView::DaemonSet(ds) => match ds.spec { Some(sp) => sp.template.spec, None => None },
        SupportedResourcesView::CronJob(c) => match c.spec {
            Some(sp) => match sp.job_template.spec { Some(js) => js.template.spec, None => None },
            None => None,
        },
        _ => None,
    }
}

/// Preparing a deployment, daemonset or cron job scopes every secret that its pods name to
/// the workload's namespace: an environment variable that reads secret `x`, or a volume that
/// mounts secret `x`, names `x.<namespace>` afterwards; the pods keep their containers, and what
/// names no secret still names none.
pub proof fn lemma_fixup_scopes_workload_secrets(r: SupportedResourcesView)
    requires
        r.meta().namespace is Some,
    ensures
        ({
            let ns = r.meta().namespace->0;
            match workload_pod_spec(r) {
                Some(ps) => workload_pod_spec(fixup_spec(r)) matches Some(ps2) && {
                    &&& ps2.containers.len() == ps.containers.len()
                    &&& forall|i: int, j: int| 0 <= i < ps.containers.len() ==>
                        #[trigger] env_secret(ps2.containers[i], j) == (match env_secret(ps.containers[i], j) {
                            Some(x) => Some(x + "."@ + ns),
                            None => None,
                        })
                    &&& forall|k: int| #[trigger] volume_secret(ps2, k) == (match volume_secret(ps, k) {
                        Some(x) => Some(x + "."@ + ns),
                        None => None,
                    })
                },
                None => true,
            }
        }),
{
    let ns = r.meta().namespace->0;
    match workload_pod_spec(r) {
        Some(ps) => {
            lemma_fix_pod_spec_scopes(ps, ns);
            assert(workload_pod_spec(fixup_spec(r)) == Some(fix_pod_spec(ps, ns)));
        },
        None => {},
    }
}

} // verus!
