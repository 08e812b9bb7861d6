//! The kinds of resources that skate manages, and how they are named on the command line.
use vstd::prelude::*;
use crate::errors::SkateError;
use crate::text::{ascii_lower, eq_ignore_ascii_case, join2, owned, text_eq, text_eq_ignore_ascii_case};

verus! {

/// A kind of resource.
#[derive(Debug, Clone, Copy, PartialEq, Eq, Structural)]
pub enum ResourceType {
    Pod,
    Deployment,
    DaemonSet,
    Ingress,
    CronJob,
    Secret,
    Service,
    ClusterIssuer,
}

/// The display name of a resource kind.
pub open spec fn resource_type_text(t: ResourceType) -> Seq<char> {
    match t {
        ResourceType::Pod => "pod"@,
        ResourceType::Deployment => "deployment"@,
        ResourceType::DaemonSet => "daemonset"@,
        ResourceType::Ingress => "ingress"@,
        ResourceType::CronJob => "cronjob"@,
        ResourceType::Secret => "secret"@,
        ResourceType::Service => "service"@,
        ResourceType::ClusterIssuer => "clusterissuer"@,
    }
}

/// The resource kind that a name denotes, compared without regard to ASCII case: the singular
/// and plural forms of each kind (only `ingress` for ingresses).
pub open spec fn resource_type_from_text(s: Seq<char>) -> Option<ResourceType> {
    if eq_ignore_ascii_case(s, "pods"@) || eq_ignore_ascii_case(s, "pod"@) {
        Some(ResourceType::Pod)
    } else if eq_ignore_ascii_case(s, "deployments"@) || eq_ignore_ascii_case(s, "deployment"@) {
        Some(ResourceType::Deployment)
    } else if eq_ignore_ascii_case(s, "daemonsets"@) || eq_ignore_ascii_case(s, "daemonset"@) {
        Some(ResourceType::DaemonSet)
    } else if eq_ignore_ascii_case(s, "ingress"@) {
        Some(ResourceType::Ingress)
    } else if eq_ignore_ascii_case(s, "cronjobs"@) || eq_ignore_ascii_case(s, "cronjob"@) {
        Some(ResourceType::CronJob)
    } else if eq_ignore_ascii_case(s, "secrets"@) || eq_ignore_ascii_case(s, "secret"@) {
        Some(ResourceType::Secret)
    } else if eq_ignore_ascii_case(s, "services"@) || eq_ignore_ascii_case(s, "service"@) {
        Some(ResourceType::Service)
    } else if eq_ignore_ascii_case(s, "clusterissuers"@) || eq_ignore_ascii_case(s, "clusterissuer"@) {
        Some(ResourceType::ClusterIssuer)
    } else {
        None
    }
}

impl ResourceType {
    /// The display name (`pod`, `deployment`, ...).
    pub fn to_string(&self) -> (res: String)
        ensures
            res@ == resource_type_text(*self),
    {
        match self {
            ResourceType::Pod => owned("pod"),
            ResourceType::Deployment => owned("deployment"),
            ResourceType::DaemonSet => owned("daemonset"),
            ResourceType::Ingress => owned("ingress"),
            ResourceType::CronJob => owned("cronjob"),
            ResourceType::Secret => owned("secret"),
            ResourceType::Service => owned("service"),
            ResourceType::ClusterIssuer => owned("clusterissuer"),
        }
    }

    /// Parses a resource kind from its name (`FromStr`); unknown names are an error.
    pub fn from_str(s: &str) -> (res: Result<ResourceType, SkateError>)
        ensures
            match resource_type_from_text(s@) {
                Some(t) => res == Ok::<ResourceType, SkateError>(t),
                None => res is Err,
            },
    {
        if text_eq_ignore_ascii_case(s, "pods") || text_eq_ignore_ascii_case(s, "pod") {
            Ok(ResourceType::Pod)
        } else if text_eq_ignore_ascii_case(s, "deployments") || text_eq_ignore_ascii_case(s, "deployment") {
            Ok(ResourceType::Deployment)
        } else if text_eq_ignore_ascii_case(s, "daemonsets") || text_eq_ignore_ascii_case(s, "daemonset") {
            Ok(ResourceType::DaemonSet)
        } else if text_eq_ignore_ascii_case(s, "ingress") {
            Ok(ResourceType::Ingress)
        } else if text_eq_ignore_ascii_case(s, "cronjobs") || text_eq_ignore_ascii_case(s, "cronjob") {
            Ok(ResourceType::CronJob)
        } else if text_eq_ignore_ascii_case(s, "secrets") || text_eq_ignore_ascii_case(s, "secret") {
            Ok(ResourceType::Secret)
        } else if text_eq_ignore_ascii_case(s, "services") || text_eq_ignore_ascii_case(s, "service") {
            Ok(ResourceType::Service)
        } else if text_eq_ignore_ascii_case(s, "clusterissuers") || text_eq_ignore_ascii_case(
            s,
            "clusterissuer",
        ) {
            Ok(ResourceType::ClusterIssuer)
        } else {
            Err(SkateError::String(join2("Matching variant not found: ", s)))
        }
    }
}

/// A kind's display name parses back to that kind.
pub proof fn lemma_resource_type_round_trip(t: ResourceType)
    ensures
        resource_type_from_text(resource_type_text(t)) == Some(t),
{
    reveal_strlit("pod");
    reveal_strlit("pods");
    reveal_strlit("deployment");
    reveal_strlit("deployments");
    reveal_strlit("daemonset");
    reveal_strlit("daemonsets");
    reveal_strlit("ingress");
    reveal_strlit("cronjob");
    reveal_strlit("cronjobs");
    reveal_strlit("secret");
    reveal_strlit("secrets");
    reveal_strlit("service");
    reveal_strlit("services");
    reveal_strlit("clusterissuer");
    reveal_strlit("clusterissuers");
    let s = resource_type_text(t);
    assert(eq_ignore_ascii_case(s, s));
    match t {
        ResourceType::Pod => {
            assert(!eq_ignore_ascii_case(s, "pods"@));
        },
        ResourceType::Deployment => {
            assert(!eq_ignore_ascii_case(s, "pods"@));
            assert(!eq_ignore_ascii_case(s, "pod"@));
            assert(!eq_ignore_ascii_case(s, "deployments"@));
        },
        ResourceType::DaemonSet => {
            assert(!eq_ignore_ascii_case(s, "pods"@));
            assert(!eq_ignore_ascii_case(s, "pod"@));
            assert(!eq_ignore_ascii_case(s, "deployments"@));
            assert(!eq_ignore_ascii_case(s, "deployment"@));
            assert(!eq_ignore_ascii_case(s, "daemonsets"@));
        },
        ResourceType::Ingress => {
            assert(!eq_ignore_ascii_case(s, "pods"@));
            assert(!eq_ignore_ascii_case(s, "pod"@));
            assert(!eq_ignore_ascii_case(s, "deployments"@));
            assert(!eq_ignore_ascii_case(s, "deployment"@));
            assert(!eq_ignore_ascii_case(s, "daemonsets"@));
            assert(!eq_ignore_ascii_case(s, "daemonset"@));
        },
        ResourceType::CronJob => {
            assert(!eq_ignore_ascii_case(s, "pods"@));
            assert(!eq_ignore_ascii_case(s, "pod"@));
            assert(!eq_ignore_ascii_case(s, "deployments"@));
            assert(!eq_ignore_ascii_case(s, "deployment"@));
            assert(!eq_ignore_ascii_case(s, "daemonsets"@));
            assert(!eq_ignore_ascii_case(s, "daemonset"@));
            assert(ascii_lower(s[0]) != ascii_lower("ingress"@[0]));
            assert(!eq_ignore_ascii_case(s, "ingress"@));
            assert(!eq_ignore_ascii_case(s, "cronjobs"@));
        },
        ResourceType::Secret => {
            assert(!eq_ignore_ascii_case(s, "pods"@));
            assert(!eq_ignore_ascii_case(s, "pod"@));
            assert(!eq_ignore_ascii_case(s, "deployments"@));
            assert(!eq_ignore_ascii_case(s, "deployment"@));
            assert(!eq_ignore_ascii_case(s, "daemonsets"@));
            assert(!eq_ignore_ascii_case(s, "daemonset"@));
            assert(!eq_ignore_ascii_case(s, "ingress"@));
            assert(!eq_ignore_ascii_case(s, "cronjobs"@));
            assert(!eq_ignore_ascii_case(s, "cronjob"@));
            assert(!eq_ignore_ascii_case(s, "secrets"@));
        },
        ResourceType::Service => {
            assert(!eq_ignore_ascii_case(s, "pods"@));
            assert(!eq_ignore_ascii_case(s, "pod"@));
            assert(!eq_ignore_ascii_case(s, "deployments"@));
            assert(!eq_ignore_ascii_case(s, "deployment"@));
            assert(!eq_ignore_ascii_case(s, "daemonsets"@));
            assert(!eq_ignore_ascii_case(s, "daemonset"@));
            assert(ascii_lower(s[0]) != ascii_lower("ingress"@[0]));
            assert(!eq_ignore_ascii_case(s, "ingress"@));
            assert(!eq_ignore_ascii_case(s, "cronjobs"@));
            assert(!eq_ignore_ascii_case(s, "cronjob"@));
            assert(ascii_lower(s[2]) != ascii_lower("secrets"@[2]));
            assert(!eq_ignore_ascii_case(s, "secrets"@));
            assert(!eq_ignore_ascii_case(s, "secret"@));
            assert(!eq_ignore_ascii_case(s, "services"@));
        },
        ResourceType::ClusterIssuer => {
            assert(!eq_ignore_ascii_case(s, "pods"@));
            assert(!eq_ignore_ascii_case(s, "pod"@));
            assert(!eq_ignore_ascii_case(s, "deployments"@));
            assert(!eq_ignore_ascii_case(s, "deployment"@));
            assert(!eq_ignore_ascii_case(s, "daemonsets"@));
            assert(!eq_ignore_ascii_case(s, "daemonset"@));
            assert(!eq_ignore_ascii_case(s, "ingress"@));
            assert(!eq_ignore_ascii_case(s, "cronjobs"@));
            assert(!eq_ignore_ascii_case(s, "cronjob"@));
            assert(!eq_ignore_ascii_case(s, "secrets"@));
            assert(!eq_ignore_ascii_case(s, "secret"@));
            assert(!eq_ignore_ascii_case(s, "services"@));
            assert(!eq_ignore_ascii_case(s, "service"@));
            assert(!eq_ignore_ascii_case(s, "clusterissuers"@));
        },
    }
}

/// The API version and kind that a manifest of each supported kind declares.
pub open spec fn api_id(t: ResourceType) -> (Seq<char>, Seq<char>) {
    match t {
        ResourceType::Pod => ("v1"@, "Pod"@),
        ResourceType::Deployment => ("apps/v1"@, "Deployment"@),
        ResourceType::DaemonSet => ("apps/v1"@, "DaemonSet"@),
        ResourceType::Ingress => ("networking.k8s.io/v1"@, "Ingress"@),
        ResourceType::CronJob => ("batch/v1"@, "CronJob"@),
        ResourceType::Secret => ("v1"@, "Secret"@),
        ResourceType::Service => ("v1"@, "Service"@),
        ResourceType::ClusterIssuer => ("cert-manager.io/v1"@, "ClusterIssuer"@),
    }
}

/// The kind of a manifest by its `apiVersion` and `kind` fields: the supported kind that
/// declares exactly that pair; anything else, and a manifest without both fields, is not
/// supported.
pub open spec fn manifest_kind_spec(api_version: Option<Seq<char>>, kind: Option<Seq<char>>) -> Option<ResourceType> {
    match (api_version, kind) {
        (Some(a), Some(k)) => {
            if (a, k) == api_id(ResourceType::Pod) { Some(ResourceType::Pod) }
            else if (a, k) == api_id(ResourceType::Deployment) { Some(ResourceType::Deployment) }
            else if (a, k) == api_id(ResourceType::DaemonSet) { Some(ResourceType::DaemonSet) }
            else if (a, k) == api_id(ResourceType::Ingress) { Some(ResourceType::Ingress) }
            else if (a, k) == api_id(ResourceType::CronJob) { Some(ResourceType::CronJob) }
            else if (a, k) == api_id(ResourceType::Secret) { Some(ResourceType::Secret) }
            else if (a, k) == api_id(ResourceType::Service) { Some(ResourceType::Service) }
            else if (a, k) == api_id(ResourceType::ClusterIssuer) { Some(ResourceType::ClusterIssuer) }
            else { None }
        },
        _ => None,
    }
}

/// The kind of a manifest by its `apiVersion` and `kind` fields (see `manifest_kind_spec`);
/// what is not supported is refused with `unsupported resource type`.
pub fn manifest_kind(api_version: Option<&str>, kind: Option<&str>) -> (res: Result<ResourceType, SkateError>)
    ensures
        match manifest_kind_spec(
            match api_version { Some(a) => Some(a@), None => None },
            match kind { Some(k) => Some(k@), None => None },
        ) {
            Some(t) => res == Ok::<ResourceType, SkateError>(t),
            None => res matches Err(e) && e.message() == "unsupported resource type"@,
        },
{
    match (api_version, kind) {
        (Some(a), Some(k)) => {
            if text_eq(a, "v1") && text_eq(k, "Pod") {
                Ok(ResourceType::Pod)
            } else if text_eq(a, "apps/v1") && text_eq(k, "Deployment") {
                Ok(ResourceType::Deployment)
            } else if text_eq(a, "apps/v1") && text_eq(k, "DaemonSet") {
                Ok(ResourceType::DaemonSet)
            } else if text_eq(a, "networking.k8s.io/v1") && text_eq(k, "Ingress") {
                Ok(ResourceType::Ingress)
            } else if text_eq(a, "batch/v1") && text_eq(k, "CronJob") {
                Ok(ResourceType::CronJob)
            } else if text_eq(a, "v1") && text_eq(k, "Secret") {
                Ok(ResourceType::Secret)
            } else if text_eq(a, "v1") && text_eq(k, "Service") {
                Ok(ResourceType::Service)
            } else if text_eq(a, "cert-manager.io/v1") && text_eq(k, "ClusterIssuer") {
                Ok(ResourceType::ClusterIssuer)
            } else {
                Err(SkateError::msg("unsupported resource type"))
            }
        },
        _ => Err(SkateError::msg("unsupported resource type")),
    }
}

/// A manifest's kind is read off exactly the pair of `apiVersion` and `kind` that the kind
/// declares: each supported kind's own pair gives that kind, and a pair that gives a kind is
/// that kind's pair.
pub proof fn lemma_manifest_kind_exact(t: ResourceType, a: Seq<char>, k: Seq<char>)
    ensures
        manifest_kind_spec(Some(api_id(t).0), Some(api_id(t).1)) == Some(t),
        manifest_kind_spec(Some(a), Some(k)) == Some(t) ==> (a, k) == api_id(t),
{
    reveal_strlit("v1");
    reveal_strlit("apps/v1");
    reveal_strlit("networking.k8s.io/v1");
    reveal_strlit("batch/v1");
    reveal_strlit("cert-manager.io/v1");
    reveal_strlit("Pod");
    reveal_strlit("Deployment");
    reveal_strlit("DaemonSet");
    reveal_strlit("Ingress");
    reveal_strlit("CronJob");
    reveal_strlit("Secret");
    reveal_strlit("Service");
    reveal_strlit("ClusterIssuer");
    assert("Pod"@ != "Secret"@) by { assert("Pod"@.len() != "Secret"@.len()); }
    assert("Pod"@ != "Service"@) by { assert("Pod"@.len() != "Service"@.len()); }
    assert("Secret"@ != "Service"@) by { assert("Secret"@.len() != "Service"@.len()); }
    assert("Deployment"@ != "DaemonSet"@) by { assert("Deployment"@.len() != "DaemonSet"@.len()); }
    assert("v1"@ != "apps/v1"@) by { assert("v1"@.len() != "apps/v1"@.len()); }
    assert("v1"@ != "batch/v1"@) by { assert("v1"@.len() != "batch/v1"@.len()); }
    assert("v1"@ != "networking.k8s.io/v1"@) by { assert("v1"@.len() != "networking.k8s.io/v1"@.len()); }
    assert("v1"@ != "cert-manager.io/v1"@) by { assert("v1"@.len() != "cert-manager.io/v1"@.len()); }
    assert("apps/v1"@ != "batch/v1"@) by { assert("apps/v1"@.len() != "batch/v1"@.len()); }
    assert("apps/v1"@ != "networking.k8s.io/v1"@) by { assert("apps/v1"@.len() != "networking.k8s.io/v1"@.len()); }
    assert("apps/v1"@ != "cert-manager.io/v1"@) by { assert("apps/v1"@.len() != "cert-manager.io/v1"@.len()); }
    assert("batch/v1"@ != "networking.k8s.io/v1"@) by { assert("batch/v1"@.len() != "networking.k8s.io/v1"@.len()); }
    assert("batch/v1"@ != "cert-manager.io/v1"@) by { assert("batch/v1"@.len() != "cert-manager.io/v1"@.len()); }
    assert("networking.k8s.io/v1"@ != "cert-manager.io/v1"@) by { assert("networking.k8s.io/v1"@.len() != "cert-manager.io/v1"@.len()); }
}

} // verus!
