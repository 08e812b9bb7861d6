//! Kubernetes manifests as plain values: the fields that skate reads and changes.
use vstd::prelude::*;
use crate::labels::StringMap;
use crate::naming::{metadata_name, metadata_name_spec, NamespacedName};
use crate::resource::ResourceType;

verus! {

impl DeepView for StringMap {
    type V = Map<Seq<char>, Seq<char>>;

    open spec fn deep_view(&self) -> Map<Seq<char>, Seq<char>> {
        self@
    }
}

impl Clone for StringMap {
    fn clone(&self) -> (res: StringMap)
        ensures
            res@ == self@,
            res.deep_view() == self.deep_view(),
    {
        let mut entries: Vec<(String, String)> = Vec::new();
        let mut i: usize = 0;
        while i < self.entries.len()
            invariant
                i <= self.entries@.len(),
                entries@.map_values(|e: (String, String)| (e.0@, e.1@)) == self.entry_views().take(i as int),
            decreases self.entries.len() - i,
        {
            let ghost before = entries@;
            let e = &self.entries[i];
            entries.push((e.0.clone(), e.1.clone()));
            proof {
                assert(entries@.map_values(|e: (String, String)| (e.0@, e.1@)) =~= before.map_values(
                    |e: (String, String)| (e.0@, e.1@),
                ).push((e.0@, e.1@)));
                assert(self.entry_views().take(i + 1) =~= self.entry_views().take(i as int).push((e.0@, e.1@)));
            }
            i = i + 1;
        }
        assert(self.entry_views().take(self.entries@.len() as int) =~= self.entry_views());
        let res = StringMap { entries };
        assert(res.entry_views() =~= self.entry_views());
        res
    }
}

/// The metadata of a manifest.
#[derive(Debug)]
pub struct ObjectMeta {
    pub name: Option<String>,
    pub namespace: Option<String>,
    pub labels: Option<StringMap>,
    pub annotations: Option<StringMap>,
    pub generation: Option<i64>,
}

/// `ObjectMeta` as plain values.
pub struct ObjectMetaView {
    pub name: Option<Seq<char>>,
    pub namespace: Option<Seq<char>>,
    pub labels: Option<Map<Seq<char>, Seq<char>>>,
    pub annotations: Option<Map<Seq<char>, Seq<char>>>,
    pub generation: Option<i64>,
}

impl DeepView for ObjectMeta {
    type V = ObjectMetaView;

    open spec fn deep_view(&self) -> ObjectMetaView {
        ObjectMetaView {
            name: self.name.deep_view(),
            namespace: self.namespace.deep_view(),
            labels: self.labels.deep_view(),
            annotations: self.annotations.deep_view(),
            generation: self.generation.deep_view(),
        }
    }
}

impl Clone for ObjectMeta {
    fn clone(&self) -> (res: ObjectMeta)
        ensures
            res.deep_view() == self.deep_view(),
    {
        let name = self.name.clone();
        let namespace = self.namespace.clone();
        let labels = self.labels.clone();
        let annotations = self.annotations.clone();
        let generation = self.generation.clone();
        ObjectMeta { name, namespace, labels, annotations, generation }
    }
}

/// A reference to one key of a secret.
#[derive(Debug)]
pub struct SecretKeySelector {
    pub name: Option<String>,
    pub key: String,
}

/// `SecretKeySelector` as plain values.
pub struct SecretKeySelectorView {
    pub name: Option<Seq<char>>,
    pub key: Seq<char>,
}

impl DeepView for SecretKeySelector {
    type V = SecretKeySelectorView;

    open spec fn deep_view(&self) -> SecretKeySelectorView {
        SecretKeySelectorView {
            name: self.name.deep_view(),
            key: self.key.deep_view(),
        }
    }
}

impl Clone for SecretKeySelector {
    fn clone(&self) -> (res: SecretKeySelector)
        ensures
            res.deep_view() == self.deep_view(),
    {
        let name = self.name.clone();
        let key = self.key.clone();
        SecretKeySelector { name, key }
    }
}

/// An environment variable of a container.
#[derive(Debug)]
pub struct EnvVar {
    pub name: String,
    pub value: Option<String>,
    pub secret_key_ref: Option<SecretKeySelector>,
}

/// `EnvVar` as plain values.
pub struct EnvVarView {
    pub name: Seq<char>,
    pub value: Option<Seq<char>>,
    pub secret_key_ref: Option<SecretKeySelectorView>,
}

impl DeepView for EnvVar {
    type V = EnvVarView;

    open spec fn deep_view(&self) -> EnvVarView {
        EnvVarView {
            name: self.name.deep_view(),
            value: self.value.deep_view(),
            secret_key_ref: self.secret_key_ref.deep_view(),
        }
    }
}

impl Clone for EnvVar {
    fn clone(&self) -> (res: EnvVar)
        ensures
            res.deep_view() == self.deep_view(),
    {
        let name = self.name.clone();
        let value = self.value.clone();
        let secret_key_ref = self.secret_key_ref.clone();
        EnvVar { name, value, secret_key_ref }
    }
}

/// A container of a pod.
#[derive(Debug)]
pub struct Container {
    pub name: String,
    pub image: Option<String>,
    pub command: Option<Vec<String>>,
    pub args: Option<Vec<String>>,
    pub env: Option<Vec<EnvVar>>,
}

/// `Container` as plain values.
pub struct ContainerView {
    pub name: Seq<char>,
    pub image: Option<Seq<char>>,
    pub command: Option<Seq<Seq<char>>>,
    pub args: Option<Seq<Seq<char>>>,
    pub env: Option<Seq<EnvVarView>>,
}

impl DeepView for Container {
    type V = ContainerView;

    open spec fn deep_view(&self) -> ContainerView {
        ContainerView {
            name: self.name.deep_view(),
            image: self.image.deep_view(),
            command: self.command.deep_view(),
            args: self.args.deep_view(),
            env: self.env.deep_view(),
        }
    }
}

impl Clone for Container {
    fn clone(&self) -> (res: Container)
        ensures
            res.deep_view() == self.deep_view(),
    {
        let name = self.name.clone();
        let image = self.image.clone();
        let command = self.command.clone();
        assert(command is Some ==> command->0.deep_view() =~= self.command->0.deep_view());
        let args = self.args.clone();
        assert(args is Some ==> args->0.deep_view() =~= self.args->0.deep_view());
        let env = self.env.clone();
        assert(env is Some ==> env->0.deep_view() =~= self.env->0.deep_view());
        Container { name, image, command, args, env }
    }
}

/// A volume that holds a secret.
#[derive(Debug)]
pub struct SecretVolumeSource {
    pub secret_name: Option<String>,
}

/// `SecretVolumeSource` as plain values.
pub struct SecretVolumeSourceView {
    pub secret_name: Option<Seq<char>>,
}

impl DeepView for SecretVolumeSource {
    type V = SecretVolumeSourceView;

    open spec fn deep_view(&self) -> SecretVolumeSourceView {
        SecretVolumeSourceView {
            secret_name: self.secret_name.deep_view(),
        }
    }
}

impl Clone for SecretVolumeSource {
    fn clone(&self) -> (res: SecretVolumeSource)
        ensures
            res.deep_view() == self.deep_view(),
    {
        let secret_name = self.secret_name.clone();
        SecretVolumeSource { secret_name }
    }
}

/// A volume of a pod.
#[derive(Debug)]
pub struct Volume {
    pub name: String,
    pub secret: Option<SecretVolumeSource>,
}

/// `Volume` as plain values.
pub struct VolumeView {
    pub name: Seq<char>,
    pub secret: Option<SecretVolumeSourceView>,
}

impl DeepView for Volume {
    type V = VolumeView;

    open spec fn deep_view(&self) -> VolumeView {
        VolumeView {
            name: self.name.deep_view(),
            secret: self.secret.deep_view(),
        }
    }
}

impl Clone for Volume {
    fn clone(&self) -> (res: Volume)
        ensures
            res.deep_view() == self.deep_view(),
    {
        let name = self.name.clone();
        let secret = self.secret.clone();
        Volume { name, secret }
    }
}

/// What a pod runs.
#[derive(Debug)]
pub struct PodSpec {
    pub containers: Vec<Container>,
    pub volumes: Option<Vec<Volume>>,
    pub node_selector: Option<StringMap>,
    pub host_network: Option<bool>,
    pub restart_policy: Option<String>,
}

/// `PodSpec` as plain values.
pub struct PodSpecView {
    pub containers: Seq<ContainerView>,
    pub volumes: Option<Seq<VolumeView>>,
    pub node_selector: Option<Map<Seq<char>, Seq<char>>>,
    pub host_network: Option<bool>,
    pub restart_policy: Option<Seq<char>>,
}

impl DeepView for PodSpec {
    type V = PodSpecView;

    open spec fn deep_view(&self) -> PodSpecView {
        PodSpecView {
            containers: self.containers.deep_view(),
            volumes: self.volumes.deep_view(),
            node_selector: self.node_selector.deep_view(),
            host_network: self.host_network.deep_view(),
            restart_policy: self.restart_policy.deep_view(),
        }
    }
}

impl Clone for PodSpec {
    fn clone(&self) -> (res: PodSpec)
        ensures
            res.deep_view() == self.deep_view(),
    {
        let containers = self.containers.clone();
        assert(containers.deep_view() =~= self.containers.deep_view());
        let volumes = self.volumes.clone();
        assert(volumes is Some ==> volumes->0.deep_view() =~= self.volumes->0.deep_view());
        let node_selector = self.node_selector.clone();
        let host_network = self.host_network.clone();
        let restart_policy = self.restart_policy.clone();
        PodSpec { containers, volumes, node_selector, host_network, restart_policy }
    }
}

/// The pod that a controller creates.
#[derive(Debug)]
pub struct PodTemplateSpec {
    pub metadata: Option<ObjectMeta>,
    pub spec: Option<PodSpec>,
}

/// `PodTemplateSpec` as plain values.
pub struct PodTemplateSpecView {
    pub metadata: Option<ObjectMetaView>,
    pub spec: Option<PodSpecView>,
}

impl DeepView for PodTemplateSpec {
    type V = PodTemplateSpecView;

    open spec fn deep_view(&self) -> PodTemplateSpecView {
        PodTemplateSpecView {
            metadata: self.metadata.deep_view(),
            spec: self.spec.deep_view(),
        }
    }
}

impl Clone for PodTemplateSpec {
    fn clone(&self) -> (res: PodTemplateSpec)
        ensures
            res.deep_view() == self.deep_view(),
    {
        let metadata = self.metadata.clone();
        let spec = self.spec.clone();
        PodTemplateSpec { metadata, spec }
    }
}

/// A pod manifest.
#[derive(Debug)]
pub struct Pod {
    pub metadata: ObjectMeta,
    pub spec: Option<PodSpec>,
}

/// `Pod` as plain values.
pub struct PodView {
    pub metadata: ObjectMetaView,
    pub spec: Option<PodSpecView>,
}

impl DeepView for Pod {
    type V = PodView;

    open spec fn deep_view(&self) -> PodView {
        PodView {
            metadata: self.metadata.deep_view(),
            spec: self.spec.deep_view(),
        }
    }
}

impl Clone for Pod {
    fn clone(&self) -> (res: Pod)
        ensures
            res.deep_view() == self.deep_view(),
    {
        let metadata = self.metadata.clone();
        let spec = self.spec.clone();
        Pod { metadata, spec }
    }
}

/// How a deployment replaces its pods.
#[derive(Debug)]
pub struct DeploymentStrategy {
    pub type_: Option<String>,
}

/// `DeploymentStrategy` as plain values.
pub struct DeploymentStrategyView {
    pub type_: Option<Seq<char>>,
}

impl DeepView for DeploymentStrategy {
    type V = DeploymentStrategyView;

    open spec fn deep_view(&self) -> DeploymentStrategyView {
        DeploymentStrategyView {
            type_: self.type_.deep_view(),
        }
    }
}

impl Clone for DeploymentStrategy {
    fn clone(&self) -> (res: DeploymentStrategy)
        ensures
            res.deep_view() == self.deep_view(),
    {
        let type_ = self.type_.clone();
        DeploymentStrategy { type_ }
    }
}

/// What a deployment runs.
#[derive(Debug)]
pub struct DeploymentSpec {
    pub replicas: Option<i32>,
    pub template: PodTemplateSpec,
    pub strategy: Option<DeploymentStrategy>,
}

/// `DeploymentSpec` as plain values.
pub struct DeploymentSpecView {
    pub replicas: Option<i32>,
    pub template: PodTemplateSpecView,
    pub strategy: Option<DeploymentStrategyView>,
}

impl DeepView for DeploymentSpec {
    type V = DeploymentSpecView;

    open spec fn deep_view(&self) -> DeploymentSpecView {
        DeploymentSpecView {
            replicas: self.replicas.deep_view(),
            template: self.template.deep_view(),
            strategy: self.strategy.deep_view(),
        }
    }
}

impl Clone for DeploymentSpec {
    fn clone(&self) -> (res: DeploymentSpec)
        ensures
            res.deep_view() == self.deep_view(),
    {
        let replicas = self.replicas.clone();
        let template = self.template.clone();
        let strategy = self.strategy.clone();
        DeploymentSpec { replicas, template, strategy }
    }
}

/// A deployment manifest.
#[derive(Debug)]
pub struct Deployment {
    pub metadata: ObjectMeta,
    pub spec: Option<DeploymentSpec>,
}

/// `Deployment` as plain values.
pub struct DeploymentView {
    pub metadata: ObjectMetaView,
    pub spec: Option<DeploymentSpecView>,
}

impl DeepView for Deployment {
    type V = DeploymentView;

    open spec fn deep_view(&self) -> DeploymentView {
        DeploymentView {
            metadata: self.metadata.deep_view(),
            spec: self.spec.deep_view(),
        }
    }
}

impl Clone for Deployment {
    fn clone(&self) -> (res: Deployment)
        ensures
            res.deep_view() == self.deep_view(),
    {
        let metadata = self.metadata.clone();
        let spec = self.spec.clone();
        Deployment { metadata, spec }
    }
}

/// What a daemonset runs on every node.
#[derive(Debug)]
pub struct DaemonSetSpec {
    pub template: PodTemplateSpec,
}

/// `DaemonSetSpec` as plain values.
pub struct DaemonSetSpecView {
    pub template: PodTemplateSpecView,
}

impl DeepView for DaemonSetSpec {
    type V = DaemonSetSpecView;

    open spec fn deep_view(&self) -> DaemonSetSpecView {
        DaemonSetSpecView {
            template: self.template.deep_view(),
        }
    }
}

impl Clone for DaemonSetSpec {
    fn clone(&self) -> (res: DaemonSetSpec)
        ensures
            res.deep_view() == self.deep_view(),
    {
        let template = self.template.clone();
        DaemonSetSpec { template }
    }
}

/// A daemonset manifest.
#[derive(Debug)]
pub struct DaemonSet {
    pub metadata: ObjectMeta,
    pub spec: Option<DaemonSetSpec>,
}

/// `DaemonSet` as plain values.
pub struct DaemonSetView {
    pub metadata: ObjectMetaView,
    pub spec: Option<DaemonSetSpecView>,
}

impl DeepView for DaemonSet {
    type V = DaemonSetView;

    open spec fn deep_view(&self) -> DaemonSetView {
        DaemonSetView {
            metadata: self.metadata.deep_view(),
            spec: self.spec.deep_view(),
        }
    }
}

impl Clone for DaemonSet {
    fn clone(&self) -> (res: DaemonSet)
        ensures
            res.deep_view() == self.deep_view(),
    {
        let metadata = self.metadata.clone();
        let spec = self.spec.clone();
        DaemonSet { metadata, spec }
    }
}

/// What a job runs.
#[derive(Debug)]
pub struct JobSpec {
    pub template: PodTemplateSpec,
}

/// `JobSpec` as plain values.
pub struct JobSpecView {
    pub template: PodTemplateSpecView,
}

impl DeepView for JobSpec {
    type V = JobSpecView;

    open spec fn deep_view(&self) -> JobSpecView {
        JobSpecView {
            template: self.template.deep_view(),
        }
    }
}

impl Clone for JobSpec {
    fn clone(&self) -> (res: JobSpec)
        ensures
            res.deep_view() == self.deep_view(),
    {
        let template = self.template.clone();
        JobSpec { template }
    }
}

/// The job that a cron job creates.
#[derive(Debug)]
pub struct JobTemplateSpec {
    pub spec: Option<JobSpec>,
}

/// `JobTemplateSpec` as plain values.
pub struct JobTemplateSpecView {
    pub spec: Option<JobSpecView>,
}

impl DeepView for JobTemplateSpec {
    type V = JobTemplateSpecView;

    open spec fn deep_view(&self) -> JobTemplateSpecView {
        JobTemplateSpecView {
            spec: self.spec.deep_view(),
        }
    }
}

impl Clone for JobTemplateSpec {
    fn clone(&self) -> (res: JobTemplateSpec)
        ensures
            res.deep_view() == self.deep_view(),
    {
        let spec = self.spec.clone();
        JobTemplateSpec { spec }
    }
}

/// When and what a cron job runs.
#[derive(Debug)]
pub struct CronJobSpec {
    pub schedule: String,
    pub time_zone: Option<String>,
    pub job_template: JobTemplateSpec,
}

/// `CronJobSpec` as plain values.
pub struct CronJobSpecView {
    pub schedule: Seq<char>,
    pub time_zone: Option<Seq<char>>,
    pub job_template: JobTemplateSpecView,
}

impl DeepView for CronJobSpec {
    type V = CronJobSpecView;

    open spec fn deep_view(&self) -> CronJobSpecView {
        CronJobSpecView {
            schedule: self.schedule.deep_view(),
            time_zone: self.time_zone.deep_view(),
            job_template: self.job_template.deep_view(),
        }
    }
}

impl Clone for CronJobSpec {
    fn clone(&self) -> (res: CronJobSpec)
        ensures
            res.deep_view() == self.deep_view(),
    {
        let schedule = self.schedule.clone();
        let time_zone = self.time_zone.clone();
        let job_template = self.job_template.clone();
        CronJobSpec { schedule, time_zone, job_template }
    }
}

/// A cron job manifest.
#[derive(Debug)]
pub struct CronJob {
    pub metadata: ObjectMeta,
    pub spec: Option<CronJobSpec>,
}

/// `CronJob` as plain values.
pub struct CronJobView {
    pub metadata: ObjectMetaView,
    pub spec: Option<CronJobSpecView>,
}

impl DeepView for CronJob {
    type V = CronJobView;

    open spec fn deep_view(&self) -> CronJobView {
        CronJobView {
            metadata: self.metadata.deep_view(),
            spec: self.spec.deep_view(),
        }
    }
}

impl Clone for CronJob {
    fn clone(&self) -> (res: CronJob)
        ensures
            res.deep_view() == self.deep_view(),
    {
        let metadata = self.metadata.clone();
        let spec = self.spec.clone();
        CronJob { metadata, spec }
    }
}

/// A secret manifest.
#[derive(Debug)]
pub struct Secret {
    pub metadata: ObjectMeta,
    pub data: Option<StringMap>,
    pub string_data: Option<StringMap>,
}

/// `Secret` as plain values.
pub struct SecretView {
    pub metadata: ObjectMetaView,
    pub data: Option<Map<Seq<char>, Seq<char>>>,
    pub string_data: Option<Map<Seq<char>, Seq<char>>>,
}

impl DeepView for Secret {
    type V = SecretView;

    open spec fn deep_view(&self) -> SecretView {
        SecretView {
            metadata: self.metadata.deep_view(),
            data: self.data.deep_view(),
            string_data: self.string_data.deep_view(),
        }
    }
}

impl Clone for Secret {
    fn clone(&self) -> (res: Secret)
        ensures
            res.deep_view() == self.deep_view(),
    {
        let metadata = self.metadata.clone();
        let data = self.data.clone();
        let string_data = self.string_data.clone();
        Secret { metadata, data, string_data }
    }
}

/// A port of a service.
#[derive(Debug)]
pub struct ServicePort {
    pub port: i32,
}

/// `ServicePort` as plain values.
pub struct ServicePortView {
    pub port: i32,
}

impl DeepView for ServicePort {
    type V = ServicePortView;

    open spec fn deep_view(&self) -> ServicePortView {
        ServicePortView {
            port: self.port.deep_view(),
        }
    }
}

impl Clone for ServicePort {
    fn clone(&self) -> (res: ServicePort)
        ensures
            res.deep_view() == self.deep_view(),
    {
        let port = self.port.clone();
        ServicePort { port }
    }
}

/// The selector and ports of a service.
#[derive(Debug)]
pub struct ServiceSpec {
    pub selector: Option<StringMap>,
    pub ports: Option<Vec<ServicePort>>,
}

/// `ServiceSpec` as plain values.
pub struct ServiceSpecView {
    pub selector: Option<Map<Seq<char>, Seq<char>>>,
    pub ports: Option<Seq<ServicePortView>>,
}

impl DeepView for ServiceSpec {
    type V = ServiceSpecView;

    open spec fn deep_view(&self) -> ServiceSpecView {
        ServiceSpecView {
            selector: self.selector.deep_view(),
            ports: self.ports.deep_view(),
        }
    }
}

impl Clone for ServiceSpec {
    fn clone(&self) -> (res: ServiceSpec)
        ensures
            res.deep_view() == self.deep_view(),
    {
        let selector = self.selector.clone();
        let ports = self.ports.clone();
        assert(ports is Some ==> ports->0.deep_view() =~= self.ports->0.deep_view());
        ServiceSpec { selector, ports }
    }
}

/// A service manifest.
#[derive(Debug)]
pub struct Service {
    pub metadata: ObjectMeta,
    pub spec: Option<ServiceSpec>,
}

/// `Service` as plain values.
pub struct ServiceView {
    pub metadata: ObjectMetaView,
    pub spec: Option<ServiceSpecView>,
}

impl DeepView for Service {
    type V = ServiceView;

    open spec fn deep_view(&self) -> ServiceView {
        ServiceView {
            metadata: self.metadata.deep_view(),
            spec: self.spec.deep_view(),
        }
    }
}

impl Clone for Service {
    fn clone(&self) -> (res: Service)
        ensures
            res.deep_view() == self.deep_view(),
    {
        let metadata = self.metadata.clone();
        let spec = self.spec.clone();
        Service { metadata, spec }
    }
}

/// A host rule of an ingress.
#[derive(Debug)]
pub struct IngressRule {
    pub host: Option<String>,
}

/// `IngressRule` as plain values.
pub struct IngressRuleView {
    pub host: Option<Seq<char>>,
}

impl DeepView for IngressRule {
    type V = IngressRuleView;

    open spec fn deep_view(&self) -> IngressRuleView {
        IngressRuleView {
            host: self.host.deep_view(),
        }
    }
}

impl Clone for IngressRule {
    fn clone(&self) -> (res: IngressRule)
        ensures
            res.deep_view() == self.deep_view(),
    {
        let host = self.host.clone();
        IngressRule { host }
    }
}

/// The rules of an ingress.
#[derive(Debug)]
pub struct IngressSpec {
    pub rules: Option<Vec<IngressRule>>,
}

/// `IngressSpec` as plain values.
pub struct IngressSpecView {
    pub rules: Option<Seq<IngressRuleView>>,
}

impl DeepView for IngressSpec {
    type V = IngressSpecView;

    open spec fn deep_view(&self) -> IngressSpecView {
        IngressSpecView {
            rules: self.rules.deep_view(),
        }
    }
}

impl Clone for IngressSpec {
    fn clone(&self) -> (res: IngressSpec)
        ensures
            res.deep_view() == self.deep_view(),
    {
        let rules = self.rules.clone();
        assert(rules is Some ==> rules->0.deep_view() =~= self.rules->0.deep_view());
        IngressSpec { rules }
    }
}

/// An ingress manifest.
#[derive(Debug)]
pub struct Ingress {
    pub metadata: ObjectMeta,
    pub spec: Option<IngressSpec>,
}

/// `Ingress` as plain values.
pub struct IngressView {
    pub metadata: ObjectMetaView,
    pub spec: Option<IngressSpecView>,
}

impl DeepView for Ingress {
    type V = IngressView;

    open spec fn deep_view(&self) -> IngressView {
        IngressView {
            metadata: self.metadata.deep_view(),
            spec: self.spec.deep_view(),
        }
    }
}

impl Clone for Ingress {
    fn clone(&self) -> (res: Ingress)
        ensures
            res.deep_view() == self.deep_view(),
    {
        let metadata = self.metadata.clone();
        let spec = self.spec.clone();
        Ingress { metadata, spec }
    }
}

/// The ACME account of a cluster issuer.
#[derive(Debug)]
pub struct AcmeIssuer {
    pub server: String,
    pub email: String,
}

/// `AcmeIssuer` as plain values.
pub struct AcmeIssuerView {
    pub server: Seq<char>,
    pub email: Seq<char>,
}

impl DeepView for AcmeIssuer {
    type V = AcmeIssuerView;

    open spec fn deep_view(&self) -> AcmeIssuerView {
        AcmeIssuerView {
            server: self.server.deep_view(),
            email: self.email.deep_view(),
        }
    }
}

impl Clone for AcmeIssuer {
    fn clone(&self) -> (res: AcmeIssuer)
        ensures
            res.deep_view() == self.deep_view(),
    {
        let server = self.server.clone();
        let email = self.email.clone();
        AcmeIssuer { server, email }
    }
}

/// What a cluster issuer uses.
#[derive(Debug)]
pub struct ClusterIssuerSpec {
    pub acme: AcmeIssuer,
}

/// `ClusterIssuerSpec` as plain values.
pub struct ClusterIssuerSpecView {
    pub acme: AcmeIssuerView,
}

impl DeepView for ClusterIssuerSpec {
    type V = ClusterIssuerSpecView;

    open spec fn deep_view(&self) -> ClusterIssuerSpecView {
        ClusterIssuerSpecView {
            acme: self.acme.deep_view(),
        }
    }
}

impl Clone for ClusterIssuerSpec {
    fn clone(&self) -> (res: ClusterIssuerSpec)
        ensures
            res.deep_view() == self.deep_view(),
    {
        let acme = self.acme.clone();
        ClusterIssuerSpec { acme }
    }
}

/// A cluster issuer manifest.
#[derive(Debug)]
pub struct ClusterIssuer {
    pub metadata: ObjectMeta,
    pub spec: Option<ClusterIssuerSpec>,
}

/// `ClusterIssuer` as plain values.
pub struct ClusterIssuerView {
    pub metadata: ObjectMetaView,
    pub spec: Option<ClusterIssuerSpecView>,
}

impl DeepView for ClusterIssuer {
    type V = ClusterIssuerView;

    open spec fn deep_view(&self) -> ClusterIssuerView {
        ClusterIssuerView {
            metadata: self.metadata.deep_view(),
            spec: self.spec.deep_view(),
        }
    }
}

impl Clone for ClusterIssuer {
    fn clone(&self) -> (res: ClusterIssuer)
        ensures
            res.deep_view() == self.deep_view(),
    {
        let metadata = self.metadata.clone();
        let spec = self.spec.clone();
        ClusterIssuer { metadata, spec }
    }
}

/// A manifest of one of the kinds that skate deploys.
#[derive(Debug)]
pub enum SupportedResources {
    Pod(Pod),
    Deployment(Deployment),
    DaemonSet(DaemonSet),
    Ingress(Ingress),
    CronJob(CronJob),
    Secret(Secret),
    Service(Service),
    ClusterIssuer(ClusterIssuer),
}

/// A supported manifest as plain values.
pub enum SupportedResourcesView {
    Pod(PodView),
    Deployment(DeploymentView),
    DaemonSet(DaemonSetView),
    Ingress(IngressView),
    CronJob(CronJobView),
    Secret(SecretView),
    Service(ServiceView),
    ClusterIssuer(ClusterIssuerView),
}

impl DeepView for SupportedResources {
    type V = SupportedResourcesView;

    open spec fn deep_view(&self) -> SupportedResourcesView {
        match self {
            SupportedResources::Pod(r) => SupportedResourcesView::Pod(r.deep_view()),
            SupportedResources::Deployment(r) => SupportedResourcesView::Deployment(r.deep_view()),
            SupportedResources::DaemonSet(r) => SupportedResourcesView::DaemonSet(r.deep_view()),
            SupportedResources::Ingress(r) => SupportedResourcesView::Ingress(r.deep_view()),
            SupportedResources::CronJob(r) => SupportedResourcesView::CronJob(r.deep_view()),
            SupportedResources::Secret(r) => SupportedResourcesView::Secret(r.deep_view()),
            SupportedResources::Service(r) => SupportedResourcesView::Service(r.deep_view()),
            SupportedResources::ClusterIssuer(r) => SupportedResourcesView::ClusterIssuer(r.deep_view()),
        }
    }
}

impl Clone for SupportedResources {
    fn clone(&self) -> (res: SupportedResources)
        ensures
            res.deep_view() == self.deep_view(),
    {
        match self {
            SupportedResources::Pod(r) => SupportedResources::Pod(r.clone()),
            SupportedResources::Deployment(r) => SupportedResources::Deployment(r.clone()),
            SupportedResources::DaemonSet(r) => SupportedResources::DaemonSet(r.clone()),
            SupportedResources::Ingress(r) => SupportedResources::Ingress(r.clone()),
            SupportedResources::CronJob(r) => SupportedResources::CronJob(r.clone()),
            SupportedResources::Secret(r) => SupportedResources::Secret(r.clone()),
            SupportedResources::Service(r) => SupportedResources::Service(r.clone()),
            SupportedResources::ClusterIssuer(r) => SupportedResources::ClusterIssuer(r.clone()),
        }
    }
}

impl SupportedResourcesView {
    /// The metadata of the manifest.
    pub open spec fn meta(self) -> ObjectMetaView {
        match self {
            SupportedResourcesView::Pod(r) => r.metadata,
            SupportedResourcesView::Deployment(r) => r.metadata,
            SupportedResourcesView::DaemonSet(r) => r.metadata,
            SupportedResourcesView::Ingress(r) => r.metadata,
            SupportedResourcesView::CronJob(r) => r.metadata,
            SupportedResourcesView::Secret(r) => r.metadata,
            SupportedResourcesView::Service(r) => r.metadata,
            SupportedResourcesView::ClusterIssuer(r) => r.metadata,
        }
    }

    /// The kind of the manifest.
    pub open spec fn resource_type(self) -> ResourceType {
        match self {
            SupportedResourcesView::Pod(_) => ResourceType::Pod,
            SupportedResourcesView::Deployment(_) => ResourceType::Deployment,
            SupportedResourcesView::DaemonSet(_) => ResourceType::DaemonSet,
            SupportedResourcesView::Ingress(_) => ResourceType::Ingress,
            SupportedResourcesView::CronJob(_) => ResourceType::CronJob,
            SupportedResourcesView::Secret(_) => ResourceType::Secret,
            SupportedResourcesView::Service(_) => ResourceType::Service,
            SupportedResourcesView::ClusterIssuer(_) => ResourceType::ClusterIssuer,
        }
    }
}

/// The kind name of a manifest as it is displayed (`Pod`, `Deployment`, ...).
pub open spec fn kind_text(t: ResourceType) -> Seq<char> {
    match t {
        ResourceType::Pod => "Pod"@,
        ResourceType::Deployment => "Deployment"@,
        ResourceType::DaemonSet => "DaemonSet"@,
        ResourceType::Ingress => "Ingress"@,
        ResourceType::CronJob => "CronJob"@,
        ResourceType::Secret => "Secret"@,
        ResourceType::Service => "Service"@,
        ResourceType::ClusterIssuer => "ClusterIssuer"@,
    }
}

impl SupportedResources {
    /// The metadata of the manifest.
    pub fn metadata(&self) -> (res: &ObjectMeta)
        ensures
            res.deep_view() == self.deep_view().meta(),
    {
        match self {
            SupportedResources::Pod(r) => &r.metadata,
            SupportedResources::Deployment(r) => &r.metadata,
            SupportedResources::DaemonSet(r) => &r.metadata,
            SupportedResources::Ingress(r) => &r.metadata,
            SupportedResources::CronJob(r) => &r.metadata,
            SupportedResources::Secret(r) => &r.metadata,
            SupportedResources::Service(r) => &r.metadata,
            SupportedResources::ClusterIssuer(r) => &r.metadata,
        }
    }

    /// The kind of the manifest.
    pub fn resource_type(&self) -> (res: ResourceType)
        ensures
            res == self.deep_view().resource_type(),
    {
        match self {
            SupportedResources::Pod(_) => ResourceType::Pod,
            SupportedResources::Deployment(_) => ResourceType::Deployment,
            SupportedResources::DaemonSet(_) => ResourceType::DaemonSet,
            SupportedResources::Ingress(_) => ResourceType::Ingress,
            SupportedResources::CronJob(_) => ResourceType::CronJob,
            SupportedResources::Secret(_) => ResourceType::Secret,
            SupportedResources::Service(_) => ResourceType::Service,
            SupportedResources::ClusterIssuer(_) => ResourceType::ClusterIssuer,
        }
    }

    /// The kind name as it is displayed (`Pod`, `Deployment`, ...).
    pub fn to_string(&self) -> (res: String)
        ensures
            res@ == kind_text(self.deep_view().resource_type()),
    {
        match self {
            SupportedResources::Pod(_) => crate::text::owned("Pod"),
            SupportedResources::Deployment(_) => crate::text::owned("Deployment"),
            SupportedResources::DaemonSet(_) => crate::text::owned("DaemonSet"),
            SupportedResources::Ingress(_) => crate::text::owned("Ingress"),
            SupportedResources::CronJob(_) => crate::text::owned("CronJob"),
            SupportedResources::Secret(_) => crate::text::owned("Secret"),
            SupportedResources::Service(_) => crate::text::owned("Service"),
            SupportedResources::ClusterIssuer(_) => crate::text::owned("ClusterIssuer"),
        }
    }

    /// The manifest's namespaced name (see `metadata_name_spec`).
    pub fn name(&self) -> (res: NamespacedName)
        ensures
            res.deep_view() == metadata_name_spec(self.deep_view().meta()),
    {
        metadata_name(self.metadata())
    }
}

} // verus!
