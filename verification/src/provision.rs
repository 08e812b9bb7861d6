//! Adding a node to a cluster: the node's entry in the configuration, the commands that prepare
//! its distribution, its podman, its pod network and its peers, and the cluster DNS manifest.
use vstd::prelude::*;
use crate::cli::ConfigFileArgs;
use crate::config::{Cluster, Config, Node, first_cluster_named};
use crate::cron::{trim, trimmed};
use crate::errors::SkateError;
use crate::net::{gateway_spec, ipv4_spec, cidr_spec, is_ipv4_cidr, parse_ipv4};
use crate::platform::Distribution;
use crate::text::{
    decimal, joined, owned, push_decimal, replace_all, replaced, text_eq, views, join_with,
};
use crate::versions::{check_podman_version, min_podman_req, semver_parse, semver_req_matches, semver_req_parse};

verus! {

/// What `skate create node` is given.
#[derive(Debug)]
pub struct CreateNodeArgs {
    /// The node's name.
    pub name: String,
    /// Its address as seen from the skate command line.
    pub host: String,
    /// Its address as seen from the other nodes (the host where none is given).
    pub peer_host: Option<String>,
    pub user: Option<String>,
    pub key: Option<String>,
    pub port: Option<u16>,
    /// The node's pod subnet, unique in the cluster.
    pub subnet_cidr: String,
    pub config: ConfigFileArgs,
}

/// Whether a character may stand in a node name.
pub open spec fn name_char(c: char) -> bool {
    ('a' <= c && c <= 'z') || ('0' <= c && c <= '9') || c == '_' || c == '-'
}

/// The rules that the arguments of `skate create node` break, each by its message, field by
/// field: the name (its characters, then its length), the host, the peer host, the subnet. A
/// message starts with the field's name, as the arguments' validation words it.
pub open spec fn node_args_problems(name: Seq<char>, host: Seq<char>, peer_host: Option<Seq<char>>, subnet: Seq<char>) -> Seq<Seq<char>> {
    let s0 = Seq::<Seq<char>>::empty();
    let s1 = if !(forall|i: int| 0 <= i < name.len() ==> name_char(#[trigger] name[i])) {
        s0.push("name: name can only contain a-z, 0-9, _ or -"@)
    } else {
        s0
    };
    let s2 = if !(1 <= name.len() <= 128) { s1.push("name: name must be between 1 and 128 characters"@) } else { s1 };
    let s3 = if host.len() > 253 { s2.push("host: host must be at most 253 characters"@) } else { s2 };
    let s4 = if peer_host matches Some(p) && ipv4_spec(p) is None {
        s3.push("peer_host: peer-host must be a valid ipv4 address"@)
    } else {
        s3
    };
    if !cidr_spec(subnet) { s4.push("subnet_cidr: subnet-cidr must be a valid ipv4 cidr range"@) } else { s4 }
}

/// The messages of a list of errors.
pub open spec fn messages(es: Seq<SkateError>) -> Seq<Seq<char>> {
    es.map_values(|e: SkateError| e.message())
}

fn push_problem(errs: &mut Vec<SkateError>, m: &str)
    ensures
        messages(final(errs)@) == messages(old(errs)@).push(m@),
{
    errs.push(SkateError::msg(m));
    assert(messages(errs@) =~= messages(old(errs)@).push(m@));
}

impl CreateNodeArgs {
    /// Checks the arguments: a name of 1 to 128 characters from a-z, 0-9, `_` and `-`, a host
    /// of at most 253 characters, a peer host that is an IPv4 address and a subnet in CIDR
    /// form. Every rule broken is reported, one error each, in field order.
    pub fn validate(&self) -> (res: Result<(), SkateError>)
        ensures
            node_args_problems(self.name@, self.host@, match self.peer_host { Some(p) => Some(p@), None => None }, self.subnet_cidr@).len() == 0
                ==> res is Ok,
            node_args_problems(self.name@, self.host@, match self.peer_host { Some(p) => Some(p@), None => None }, self.subnet_cidr@).len() > 0
                ==> (res matches Err(SkateError::Multi(v)) && messages(v@) == node_args_problems(
                    self.name@,
                    self.host@,
                    match self.peer_host { Some(p) => Some(p@), None => None },
                    self.subnet_cidr@,
                )),
    {
        let mut errs: Vec<SkateError> = Vec::new();
        let n = self.name.as_str().unicode_len();
        let mut chars_ok = true;
        let mut i: usize = 0;
        while i < n
            invariant
                n == self.name@.len(),
                i <= n,
                chars_ok == forall|j: int| 0 <= j < i ==> name_char(#[trigger] self.name@[j]),
            decreases n - i,
        {
            let c = self.name.as_str().get_char(i);
            if !(('a' <= c && c <= 'z') || ('0' <= c && c <= '9') || c == '_' || c == '-') {
                assert(!name_char(self.name@[i as int]));
                chars_ok = false;
            }
            i = i + 1;
        }
        assert(messages(errs@) =~= Seq::<Seq<char>>::empty());
        if !chars_ok {
            push_problem(&mut errs, "name: name can only contain a-z, 0-9, _ or -");
        }
        if n < 1 || n > 128 {
            push_problem(&mut errs, "name: name must be between 1 and 128 characters");
        }
        if self.host.as_str().unicode_len() > 253 {
            push_problem(&mut errs, "host: host must be at most 253 characters");
        }
        match &self.peer_host {
            Some(p) => {
                if parse_ipv4(p.as_str()).is_none() {
                    push_problem(&mut errs, "peer_host: peer-host must be a valid ipv4 address");
                }
            },
            None => {},
        }
        if !is_ipv4_cidr(self.subnet_cidr.as_str()) {
            push_problem(&mut errs, "subnet_cidr: subnet-cidr must be a valid ipv4 cidr range");
        }
        if errs.len() == 0 {
            Ok(())
        } else {
            Err(SkateError::Multi(errs))
        }
    }

    /// The node as the configuration records it; its peer address is the host where none is
    /// given.
    pub fn node(&self) -> (res: Node)
        ensures
            res.name == self.name,
            res.host == self.host,
            res.peer_host == (match self.peer_host { Some(p) => p, None => self.host }),
            res.subnet_cidr == self.subnet_cidr,
            res.port == self.port,
            res.user == self.user,
            res.key == self.key,
    {
        Node {
            name: self.name.clone(),
            host: self.host.clone(),
            peer_host: match &self.peer_host {
                Some(p) => p.clone(),
                None => self.host.clone(),
            },
            subnet_cidr: self.subnet_cidr.clone(),
            port: self.port,
            user: crate::config::clone_opt_text(&self.user),
            key: crate::config::clone_opt_text(&self.key),
        }
    }
}

/// The index of the first node of the given name.
pub open spec fn first_node_named(nodes: Seq<Node>, name: Seq<char>) -> Option<int>
    decreases nodes.len(),
{
    if nodes.len() == 0 {
        None
    } else if nodes[0].name@ == name {
        Some(0)
    } else {
        match first_node_named(nodes.drop_first(), name) {
            Some(i) => Some(i + 1),
            None => None,
        }
    }
}

proof fn lemma_first_node_named(nodes: Seq<Node>, name: Seq<char>, k: int)
    requires
        0 <= k <= nodes.len(),
        forall|j: int| 0 <= j < k ==> #[trigger] nodes[j].name@ != name,
    ensures
        k < nodes.len() && nodes[k].name@ == name ==> first_node_named(nodes, name) == Some(k),
        k == nodes.len() ==> first_node_named(nodes, name) is None,
    decreases k,
{
    if k > 0 {
        lemma_first_node_named(nodes.drop_first(), name, k - 1);
    } else if nodes.len() > 0 && nodes[0].name@ != name {
        if k == nodes.len() {
        }
    }
}

/// The position of the first node of the given name.
pub fn position_of_node(nodes: &Vec<Node>, name: &str) -> (res: Option<usize>)
    ensures
        match res {
            Some(i) => first_node_named(nodes@, name@) == Some(i as int) && i < nodes@.len()
                && nodes@[i as int].name@ == name@,
            None => first_node_named(nodes@, name@) is None,
        },
{
    let mut i: usize = 0;
    while i < nodes.len()
        invariant
            i <= nodes@.len(),
            forall|j: int| 0 <= j < i ==> #[trigger] nodes@[j].name@ != name@,
        decreases nodes.len() - i,
    {
        if text_eq(nodes[i].name.as_str(), name) {
            proof {
                lemma_first_node_named(nodes@, name@, i as int);
            }
            return Some(i);
        }
        i = i + 1;
    }
    proof {
        lemma_first_node_named(nodes@, name@, i as int);
    }
    None
}

/// The first node of the given name, if the cluster has one (used to find the node a command
/// targets); refused with `message` otherwise.
pub fn find_node<'a>(cluster: &'a Cluster, name: &str, message: &str) -> (res: Result<&'a Node, SkateError>)
    ensures
        match first_node_named(cluster.nodes@, name@) {
            Some(i) => res matches Ok(n) && *n == cluster.nodes@[i],
            None => res matches Err(e) && e.message() == message@,
        },
{
    match position_of_node(&cluster.nodes, name) {
        Some(i) => Ok(&cluster.nodes[i]),
        None => Err(SkateError::msg(message)),
    }
}

/// The cluster's nodes once a node is recorded: it takes the place of the first node of the
/// same name, or is added at the end.
pub open spec fn upserted(nodes: Seq<Node>, node: Node) -> Seq<Node> {
    match first_node_named(nodes, node.name@) {
        Some(i) => nodes.update(i, node),
        None => nodes.push(node),
    }
}

/// Records a node in the cluster (see `upserted`); the cluster's other fields are unchanged.
pub fn upsert_node(cluster: &mut Cluster, node: Node)
    ensures
        final(cluster).nodes@ == upserted(old(cluster).nodes@, node),
        final(cluster).name == old(cluster).name,
        final(cluster).default_user == old(cluster).default_user,
        final(cluster).default_key == old(cluster).default_key,
{
    match position_of_node(&cluster.nodes, node.name.as_str()) {
        Some(i) => {
            cluster.nodes.set(i, node);
        },
        None => {
            cluster.nodes.push(node);
        },
    }
}

/// The cluster's nodes once the first node of the given name is removed (unchanged where no
/// node has that name).
pub open spec fn without_node(nodes: Seq<Node>, name: Seq<char>) -> Seq<Node> {
    match first_node_named(nodes, name) {
        Some(i) => nodes.remove(i),
        None => nodes,
    }
}

/// Removes the first node of the given name from the cluster; returns whether there was one.
pub fn remove_node(cluster: &mut Cluster, name: &str) -> (res: bool)
    ensures
        final(cluster).nodes@ == without_node(old(cluster).nodes@, name@),
        res == first_node_named(old(cluster).nodes@, name@) is Some,
        final(cluster).name == old(cluster).name,
        final(cluster).default_user == old(cluster).default_user,
        final(cluster).default_key == old(cluster).default_key,
{
    match position_of_node(&cluster.nodes, name) {
        Some(i) => {
            cluster.nodes.remove(i);
            true
        },
        None => false,
    }
}

/// The command sets used to prepare a node, one for each family of distributions.
#[derive(Debug, Clone, Copy, PartialEq, Eq, Structural)]
pub enum Provisioner {
    /// Debian, Raspbian and Ubuntu (apt).
    Ubuntu,
    /// Fedora (dnf).
    Fedora,
    /// Fedora CoreOS (rpm-ostree).
    FedoraCoreos,
}

/// The command set for a distribution; an unknown distribution has none.
pub open spec fn provisioner_spec(d: Distribution) -> Option<Provisioner> {
    match d {
        Distribution::Debian | Distribution::Raspbian | Distribution::Ubuntu => Some(Provisioner::Ubuntu),
        Distribution::Fedora => Some(Provisioner::Fedora),
        Distribution::FedoraCoreOs => Some(Provisioner::FedoraCoreos),
        Distribution::Unknown => None,
    }
}

/// The command set for a node's distribution; refused for an unknown distribution.
pub fn provisioner_for(d: Distribution) -> (res: Result<Provisioner, SkateError>)
    ensures
        match provisioner_spec(d) {
            Some(p) => res == Ok::<Provisioner, SkateError>(p),
            None => res matches Err(e) && e.message() == "unknown distribution"@,
        },
{
    match d {
        Distribution::Debian | Distribution::Raspbian | Distribution::Ubuntu => Ok(Provisioner::Ubuntu),
        Distribution::Fedora => Ok(Provisioner::Fedora),
        Distribution::FedoraCoreOs => Ok(Provisioner::FedoraCoreos),
        Distribution::Unknown => Err(SkateError::msg("unknown distribution")),
    }
}

/// The command that lets podman resolve short image names.
pub open spec fn registries_command_text() -> Seq<char> {
    "sudo bash -c \"sed -i 's|^[\\#]\\?short-name-mode\\s\\?=.*|short-name-mode=\\\"permissive\\\"|g' /etc/containers/registries.conf\""@
}

/// The command that puts SELinux in permissive mode.
pub open spec fn selinux_command_text() -> Seq<char> {
    "sudo setenforce 0; sudo sed -i 's/^SELINUX=.*/SELINUX=permissive/' /etc/selinux/config"@
}

impl Provisioner {
    /// The command that updates the system (none on Fedora CoreOS).
    pub fn system_update(&self) -> (res: String)
        ensures
            res@ == (match self {
                Provisioner::Ubuntu => "sudo apt-get update && sudo DEBIAN_FRONTEND=noninteractive apt-get -y upgrade"@,
                Provisioner::Fedora => "sudo dnf -y update && sudo dnf -y upgrade"@,
                Provisioner::FedoraCoreos => ""@,
            }),
    {
        match self {
            Provisioner::Ubuntu => owned("sudo apt-get update && sudo DEBIAN_FRONTEND=noninteractive apt-get -y upgrade"),
            Provisioner::Fedora => owned("sudo dnf -y update && sudo dnf -y upgrade"),
            Provisioner::FedoraCoreos => owned(""),
        }
    }

    /// The command that installs podman.
    pub fn install_podman(&self) -> (res: String)
        ensures
            res@ == (match self {
                Provisioner::Ubuntu => "sudo apt-get install -y podman"@,
                Provisioner::Fedora => "sudo dnf -y install podman"@,
                Provisioner::FedoraCoreos => "sudo rpm-ostree -y install podman"@,
            }),
    {
        match self {
            Provisioner::Ubuntu => owned("sudo apt-get install -y podman"),
            Provisioner::Fedora => owned("sudo dnf -y install podman"),
            Provisioner::FedoraCoreos => owned("sudo rpm-ostree -y install podman"),
        }
    }

    /// The command that installs keepalived.
    pub fn install_keepalived(&self) -> (res: String)
        ensures
            res@ == (match self {
                Provisioner::Ubuntu => "sudo apt-get install -y keepalived"@,
                Provisioner::Fedora => "sudo dnf -y install keepalived"@,
                Provisioner::FedoraCoreos => "sudo rpm-ostree -y install keepalived"@,
            }),
    {
        match self {
            Provisioner::Ubuntu => owned("sudo apt-get install -y keepalived"),
            Provisioner::Fedora => owned("sudo dnf -y install keepalived"),
            Provisioner::FedoraCoreos => owned("sudo rpm-ostree -y install keepalived"),
        }
    }

    /// The command that turns off the kernel's mandatory access control (AppArmor on the apt
    /// family, SELinux enforcement on the others).
    pub fn remove_kernel_security(&self) -> (res: String)
        ensures
            res@ == (match self {
                Provisioner::Ubuntu => "sudo aa-teardown && sudo apt purge -y apparmor"@,
                _ => selinux_command_text(),
            }),
    {
        match self {
            Provisioner::Ubuntu => owned("sudo aa-teardown && sudo apt purge -y apparmor"),
            _ => owned("sudo setenforce 0; sudo sed -i 's/^SELINUX=.*/SELINUX=permissive/' /etc/selinux/config"),
        }
    }

    /// The command that lets podman resolve short image names (none on the apt family).
    pub fn configure_etc_containers_registries(&self) -> (res: String)
        ensures
            res@ == (match self {
                Provisioner::Ubuntu => ""@,
                _ => registries_command_text(),
            }),
    {
        match self {
            Provisioner::Ubuntu => owned(""),
            _ => owned("sudo bash -c \"sed -i 's|^[\\#]\\?short-name-mode\\s\\?=.*|short-name-mode=\\\"permissive\\\"|g' /etc/containers/registries.conf\""),
        }
    }

    /// The command that turns the firewall off (only Fedora has one to turn off).
    pub fn configure_firewall(&self) -> (res: String)
        ensures
            res@ == (match self {
                Provisioner::Fedora => "sudo systemctl stop firewalld; sudo systemctl disable firewalld"@,
                _ => ""@,
            }),
    {
        match self {
            Provisioner::Fedora => owned("sudo systemctl stop firewalld; sudo systemctl disable firewalld"),
            _ => owned(""),
        }
    }
}

/// What to do about podman on a node.
#[derive(Debug)]
pub enum PodmanAction {
    /// A supported podman is already there.
    AlreadyInstalled,
    /// Install podman with this command.
    Install(String),
}

/// Decides what to do about podman, given the version the node reports (`None` where podman is
/// missing): a version that satisfies `>=3.0.0` is kept, an older one is refused, a missing one
/// is installed with the distribution's command. `None` where the reported version is not a
/// semantic version.
pub fn podman_action(p: Provisioner, podman_version: &Option<String>) -> (res: Option<Result<PodmanAction, SkateError>>)
    ensures
        match podman_version {
            None => res matches Some(Ok(PodmanAction::Install(c))) && c@ == (match p {
                Provisioner::Ubuntu => "sudo apt-get install -y podman"@,
                Provisioner::Fedora => "sudo dnf -y install podman"@,
                Provisioner::FedoraCoreos => "sudo rpm-ostree -y install podman"@,
            }),
            Some(v) => {
                if semver_parse(v@) is Some && semver_req_parse(min_podman_req()) is Some {
                    if semver_req_matches(semver_req_parse(min_podman_req())->0, semver_parse(v@)->0) {
                        res matches Some(Ok(PodmanAction::AlreadyInstalled))
                    } else {
                        res matches Some(Err(e)) && e.message()
                            == "podman version too old, must be >=3.0.0, see https://podman.io/docs/installation"@
                    }
                } else {
                    res is None
                }
            },
        },
{
    match podman_version {
        None => Some(Ok(PodmanAction::Install(p.install_podman()))),
        Some(v) => match check_podman_version(v.as_str()) {
            Some(true) => Some(Ok(PodmanAction::AlreadyInstalled)),
            Some(false) => Some(Err(SkateError::msg(
                "podman version too old, must be >=3.0.0, see https://podman.io/docs/installation",
            ))),
            None => None,
        },
    }
}

/// The directories skate keeps on a node, under its data directory.
pub open spec fn skate_dirs_command_spec(var_path: Seq<char>) -> Seq<char> {
    "sudo mkdir -p "@ + var_path + "/ingress "@ + var_path + "/ingress/letsencrypt_storage "@ + var_path
        + "/dns "@ + var_path + "/keepalived"@
}

/// The command that creates the directories skate keeps on a node.
pub fn skate_dirs_command(var_path: &str) -> (res: String)
    ensures
        res@ == skate_dirs_command_spec(var_path@),
{
    let mut s = owned("sudo mkdir -p ");
    s.append(var_path);
    s.append("/ingress ");
    s.append(var_path);
    s.append("/ingress/letsencrypt_storage ");
    s.append(var_path);
    s.append("/dns ");
    s.append(var_path);
    s.append("/keepalived");
    s
}

/// The command that sets the subnet of podman's default network to the node's subnet.
pub open spec fn default_subnet_command_spec(subnet: Seq<char>) -> Seq<char> {
    "sudo sed -i 's&#default_subnet[ =].*&default_subnet = \""@ + subnet + "\"&' /etc/containers/containers.conf"@
}

/// The command that sets the subnet of podman's default network.
pub fn default_subnet_command(subnet: &str) -> (res: String)
    ensures
        res@ == default_subnet_command_spec(subnet@),
{
    let mut s = owned("sudo sed -i 's&#default_subnet[ =].*&default_subnet = \"");
    s.append(subnet);
    s.append("\"&' /etc/containers/containers.conf");
    s
}

/// The network backend that skate sets up.
pub open spec fn network_backend() -> Seq<char> {
    "netavark"@
}

/// The command that selects the network backend.
pub fn network_backend_command() -> (res: String)
    ensures
        res@ == "sudo sed -i 's&#network_backend[ =].*&network_backend = \"netavark\"&' /etc/containers/containers.conf"@,
{
    owned("sudo sed -i 's&#network_backend[ =].*&network_backend = \"netavark\"&' /etc/containers/containers.conf")
}

/// Whether podman must be reset because the backend it reports (surrounding whitespace aside)
/// is not the one skate sets up.
pub fn backend_needs_reset(reported: &str) -> (res: bool)
    ensures
        res == (trimmed(reported@) != network_backend()),
{
    let t = trim(reported);
    !text_eq(t.as_str(), "netavark")
}

/// The network configuration of a node: the template with its subnet and gateway filled in.
pub open spec fn netavark_config_spec(template: Seq<char>, subnet: Seq<char>, gateway: Seq<char>) -> Seq<char> {
    replaced(replaced(template, "%%subnet%%"@, subnet), "%%gateway%%"@, gateway)
}

/// Fills in the node's subnet and gateway in the network configuration template.
pub fn netavark_config(template: &str, subnet: &str) -> (res: String)
    ensures
        res@ == netavark_config_spec(template@, subnet@, gateway_spec(subnet@)),
{
    proof {
        reveal_strlit("%%subnet%%");
        reveal_strlit("%%gateway%%");
    }
    let gateway = crate::net::gateway_for_subnet(subnet);
    let t = replace_all(template, "%%subnet%%", subnet);
    replace_all(t.as_str(), "%%gateway%%", gateway.as_str())
}

/// The flag that tells a node about one peer: its name, address and pod subnet.
pub open spec fn peer_flag(n: Node) -> Seq<char> {
    "--peer "@ + n.name@ + ":"@ + n.peer_host@ + ":"@ + n.subnet_cidr@
}

/// The flags for every node of the list but those named `me`, in order.
pub open spec fn peer_flags(nodes: Seq<Node>, me: Seq<char>) -> Seq<Seq<char>>
    decreases nodes.len(),
{
    if nodes.len() == 0 {
        Seq::empty()
    } else {
        let rest = peer_flags(nodes.drop_last(), me);
        if nodes.last().name@ == me {
            rest
        } else {
            rest.push(peer_flag(nodes.last()))
        }
    }
}

/// The command that tells the node named `me` about all its peers in the cluster.
pub open spec fn peers_command_spec(nodes: Seq<Node>, me: Seq<char>) -> Seq<char> {
    "sudo skatelet peers set "@ + joined(peer_flags(nodes, me), " "@)
}

/// The command that tells a node about all its peers in the cluster.
pub fn peers_command(cluster: &Cluster, me: &str) -> (res: String)
    ensures
        res@ == peers_command_spec(cluster.nodes@, me@),
{
    let mut flags: Vec<String> = Vec::new();
    let mut i: usize = 0;
    while i < cluster.nodes.len()
        invariant
            i <= cluster.nodes@.len(),
            views(flags@) == peer_flags(cluster.nodes@.take(i as int), me@),
        decreases cluster.nodes.len() - i,
    {
        let n = &cluster.nodes[i];
        proof {
            assert(cluster.nodes@.take(i + 1).drop_last() =~= cluster.nodes@.take(i as int));
            assert(cluster.nodes@.take(i + 1).last() == *n);
        }
        if !text_eq(n.name.as_str(), me) {
            let mut f = owned("--peer ");
            f.append(n.name.as_str());
            f.append(":");
            f.append(n.peer_host.as_str());
            f.append(":");
            f.append(n.subnet_cidr.as_str());
            let ghost before = views(flags@);
            flags.push(f);
            proof {
                assert(views(flags@) =~= before.push(peer_flag(*n)));
            }
        }
        i = i + 1;
    }
    assert(cluster.nodes@.take(cluster.nodes@.len() as int) =~= cluster.nodes@);
    let joined_flags = join_with(&flags, " ");
    let mut cmd = owned("sudo skatelet peers set ");
    cmd.append(joined_flags.as_str());
    cmd
}

/// The indentation that puts a generated line at its place in the DNS manifest.
pub open spec fn padding() -> Seq<char> {
    Seq::new(15, |i: int| ' ')
}

/// The DNS domain of the pods of a node.
pub open spec fn node_domain(n: Node) -> Seq<char> {
    "pod.n-"@ + n.name@ + ".skate."@
}

/// The line that lists a node's pod domain as the `i`-th upstream of the cluster's pod domain.
pub open spec fn gathersrv_line(n: Node, i: nat) -> Seq<char> {
    padding() + node_domain(n) + " "@ + decimal(i)
}

/// The stanza that forwards a node's pod domain to the node's DNS server.
pub open spec fn forward_stanza(n: Node) -> Seq<char> {
    padding() + "forward "@ + node_domain(n) + " "@ + n.peer_host@ + ":5553 127.0.0.1:6053 {\n"@
        + padding() + "    policy sequential\n"@ + padding() + "    health_check 0.5s\n"@ + padding() + "}"@
}

/// The line that answers a node's pod names under the cluster domain.
pub open spec fn rewrite_line(n: Node) -> Seq<char> {
    padding() + "rewrite name suffix .n-"@ + n.name@ + ".skate. .cluster.skate."@
}

/// The DNS manifest of a cluster: the template with its three lists filled in, one entry per
/// node in the cluster's order, entries separated by line breaks.
pub open spec fn coredns_manifest_spec(template: Seq<char>, nodes: Seq<Node>) -> Seq<char> {
    let rewrites = joined(Seq::new(nodes.len(), |i: int| rewrite_line(nodes[i])), "\n"@);
    let forwards = joined(Seq::new(nodes.len(), |i: int| forward_stanza(nodes[i])), "\n"@);
    let gathers = joined(Seq::new(nodes.len(), |i: int| gathersrv_line(nodes[i], i as nat)), "\n"@);
    replaced(replaced(replaced(template, "%%rewrite_list%%"@, rewrites), "%%forward_list%%"@, forwards), "%%gathersrv_list%%"@, gathers)
}

fn padding_text() -> (res: String)
    ensures
        res@ == padding(),
{
    let mut s = String::new();
    let mut i: usize = 0;
    while i < 15
        invariant
            i <= 15,
            s@ == Seq::new(i as nat, |k: int| ' '),
        decreases 15 - i,
    {
        crate::text::push_char(&mut s, ' ');
        assert(s@ =~= Seq::new((i + 1) as nat, |k: int| ' '));
        i = i + 1;
    }
    s
}

/// Fills in the cluster DNS manifest for a cluster (see `coredns_manifest_spec`).
pub fn template_coredns_manifest(template: &str, cluster: &Cluster) -> (res: String)
    ensures
        res@ == coredns_manifest_spec(template@, cluster.nodes@),
{
    let pad = padding_text();
    let mut gathers: Vec<String> = Vec::new();
    let mut forwards: Vec<String> = Vec::new();
    let mut rewrites: Vec<String> = Vec::new();
    let ghost nodes = cluster.nodes@;
    let mut i: usize = 0;
    while i < cluster.nodes.len()
        invariant
            nodes == cluster.nodes@,
            pad@ == padding(),
            i <= nodes.len(),
            views(gathers@) == Seq::new(i as nat, |k: int| gathersrv_line(nodes[k], k as nat)),
            views(forwards@) == Seq::new(i as nat, |k: int| forward_stanza(nodes[k])),
            views(rewrites@) == Seq::new(i as nat, |k: int| rewrite_line(nodes[k])),
        decreases cluster.nodes.len() - i,
    {
        let n = &cluster.nodes[i];
        let mut domain = owned("pod.n-");
        domain.append(n.name.as_str());
        domain.append(".skate.");

        let mut g = pad.clone();
        g.append(domain.as_str());
        g.append(" ");
        push_decimal(&mut g, i as u64);

        let mut f = pad.clone();
        f.append("forward ");
        f.append(domain.as_str());
        f.append(" ");
        f.append(n.peer_host.as_str());
        f.append(":5553 127.0.0.1:6053 {\n");
        f.append(pad.as_str());
        f.append("    policy sequential\n");
        f.append(pad.as_str());
        f.append("    health_check 0.5s\n");
        f.append(pad.as_str());
        f.append("}");

        let mut r = pad.clone();
        r.append("rewrite name suffix .n-");
        r.append(n.name.as_str());
        r.append(".skate. .cluster.skate.");

        let ghost g0 = views(gathers@);
        let ghost f0 = views(forwards@);
        let ghost r0 = views(rewrites@);
        gathers.push(g);
        forwards.push(f);
        rewrites.push(r);
        proof {
            assert(views(gathers@) =~= g0.push(gathersrv_line(nodes[i as int], i as nat)));
            assert(views(forwards@) =~= f0.push(forward_stanza(nodes[i as int])));
            assert(views(rewrites@) =~= r0.push(rewrite_line(nodes[i as int])));
            assert(views(gathers@) =~= Seq::new((i + 1) as nat, |k: int| gathersrv_line(nodes[k], k as nat)));
            assert(views(forwards@) =~= Seq::new((i + 1) as nat, |k: int| forward_stanza(nodes[k])));
            assert(views(rewrites@) =~= Seq::new((i + 1) as nat, |k: int| rewrite_line(nodes[k])));
        }
        i = i + 1;
    }
    proof {
        reveal_strlit("%%rewrite_list%%");
        reveal_strlit("%%forward_list%%");
        reveal_strlit("%%gathersrv_list%%");
    }
    let rw = join_with(&rewrites, "\n");
    let fw = join_with(&forwards, "\n");
    let gs = join_with(&gathers, "\n");
    let t1 = replace_all(template, "%%rewrite_list%%", rw.as_str());
    let t2 = replace_all(t1.as_str(), "%%forward_list%%", fw.as_str());
    replace_all(t2.as_str(), "%%gathersrv_list%%", gs.as_str())
}

proof fn lemma_first_node_named_props(nodes: Seq<Node>, name: Seq<char>)
    ensures
        first_node_named(nodes, name) matches Some(i) ==> 0 <= i < nodes.len() && nodes[i].name@ == name
            && forall|j: int| 0 <= j < i ==> #[trigger] nodes[j].name@ != name,
        first_node_named(nodes, name) is None ==> forall|j: int| 0 <= j < nodes.len() ==> #[trigger] nodes[j].name@ != name,
    decreases nodes.len(),
{
    if nodes.len() > 0 {
        lemma_first_node_named_props(nodes.drop_first(), name);
        if nodes[0].name@ != name {
            assert forall|j: int| 1 <= j < nodes.len() implies #[trigger] nodes[j].name@ == nodes.drop_first()[j - 1].name@ by {}
        }
    }
}

/// Once a node is recorded in a cluster, looking its name up finds that very node; the
/// cluster gains a node only where it had none of that name.
pub proof fn lemma_upserted_node_found(nodes: Seq<Node>, node: Node)
    ensures
        first_node_named(upserted(nodes, node), node.name@) matches Some(i) && upserted(nodes, node)[i] == node,
        upserted(nodes, node).len() == nodes.len() + (if first_node_named(nodes, node.name@) is Some { 0int } else { 1int }),
{
    lemma_first_node_named_props(nodes, node.name@);
    let u = upserted(nodes, node);
    match first_node_named(nodes, node.name@) {
        Some(i) => {
            assert forall|j: int| 0 <= j < i implies #[trigger] u[j].name@ != node.name@ by {
                assert(u[j] == nodes[j]);
            }
            lemma_first_node_named(u, node.name@, i);
        },
        None => {
            let k = nodes.len() as int;
            assert forall|j: int| 0 <= j < k implies #[trigger] u[j].name@ != node.name@ by {
                assert(u[j] == nodes[j]);
            }
            lemma_first_node_named(u, node.name@, k);
        },
    }
}

/// The node that the arguments of `skate create node` describe (see `CreateNodeArgs::node`).
pub open spec fn node_of(a: CreateNodeArgs) -> Node {
    Node {
        name: a.name,
        host: a.host,
        peer_host: match a.peer_host { Some(p) => p, None => a.host },
        subnet_cidr: a.subnet_cidr,
        port: a.port,
        user: a.user,
        key: a.key,
    }
}

/// Records a new or changed node in the configuration, as `skate create node` does before it
/// connects: the arguments are checked (every broken rule is reported and nothing changes);
/// the active cluster (chosen as `Config::active_cluster` chooses it, with the arguments'
/// context) gets the node (see `upserted`) and takes its place in the configuration. The
/// cluster as recorded is returned.
pub fn record_node(config: &mut Config, args: &CreateNodeArgs) -> (res: Result<Cluster, SkateError>)
    ensures
        ({
            let problems = node_args_problems(args.name@, args.host@, match args.peer_host { Some(p) => Some(p@), None => None }, args.subnet_cidr@);
            let name = old(config).active_cluster_name(args.config.context);
            if problems.len() > 0 {
                (res matches Err(SkateError::Multi(v)) && messages(v@) == problems) && *final(config) == *old(config)
            } else if old(config).clusters@.len() == 0 {
                (res matches Err(e) && e.message() == "no clusters in config"@) && *final(config) == *old(config)
            } else {
                match first_cluster_named(old(config).clusters@, name) {
                    None => (res matches Err(e) && e.message() == "found no cluster by name of "@ + name)
                        && *final(config) == *old(config),
                    Some(i) => res matches Ok(c) && {
                        &&& c.name == old(config).clusters@[i].name
                        &&& c.default_user == old(config).clusters@[i].default_user
                        &&& c.default_key == old(config).clusters@[i].default_key
                        &&& c.nodes@ == upserted(old(config).clusters@[i].nodes@, node_of(*args))
                        &&& final(config).clusters@.len() == old(config).clusters@.len()
                        &&& final(config).clusters@[i].same(c)
                        &&& (forall|j: int| 0 <= j < old(config).clusters@.len() && j != i
                            ==> #[trigger] final(config).clusters@[j] == old(config).clusters@[j])
                        &&& final(config).current_context == old(config).current_context
                    },
                }
            }
        }),
{
    match args.validate() {
        Ok(()) => {},
        Err(e) => return Err(e),
    }
    let mut cluster = match config.active_cluster(crate::config::clone_opt_text(&args.config.context)) {
        Ok(c) => c.clone(),
        Err(e) => return Err(e),
    };
    let ghost name = config.active_cluster_name(args.config.context);
    proof {
        crate::config::lemma_first_cluster_named_props(config.clusters@, name);
    }
    let node = args.node();
    assert(node == node_of(*args));
    upsert_node(&mut cluster, node);
    proof {
        let i = first_cluster_named(config.clusters@, name)->0;
        assert(cluster.name@ == name);
        assert(first_cluster_named(config.clusters@, cluster.name@) == Some(i));
    }
    let r = config.replace_cluster(&cluster);
    match r {
        Ok(()) => Ok(cluster),
        Err(e) => Err(e),
    }
}

/// A node's network configuration is the template with `%%subnet%%` replaced by the node's
/// subnet `a.b.c.rest` and `%%gateway%%` by `a.b.c.1`.
pub proof fn lemma_netavark_config_of_subnet(template: Seq<char>, a: Seq<char>, b: Seq<char>, c: Seq<char>, rest: Seq<char>)
    requires
        forall|i: int| 0 <= i < a.len() ==> a[i] != '.',
        forall|i: int| 0 <= i < b.len() ==> b[i] != '.',
        forall|i: int| 0 <= i < c.len() ==> c[i] != '.',
    ensures
        netavark_config_spec(template, a + "."@ + b + "."@ + c + "."@ + rest, gateway_spec(a + "."@ + b + "."@ + c + "."@ + rest))
            == replaced(replaced(template, "%%subnet%%"@, a + "."@ + b + "."@ + c + "."@ + rest), "%%gateway%%"@, a + "."@ + b + "."@ + c + ".1"@),
{
    crate::net::lemma_gateway_of_subnet(a, b, c, rest);
}

/// Each node is told about every other node of the cluster and not about itself: the flags
/// are those of the nodes whose name is not `me`, one each, in the cluster's order.
pub proof fn lemma_peer_flags_others(nodes: Seq<Node>, me: Seq<char>)
    ensures
        peer_flags(nodes, me) == nodes.filter(|n: Node| n.name@ != me).map_values(|n: Node| peer_flag(n)),
    decreases nodes.len(),
{
    reveal(Seq::filter);
    if nodes.len() > 0 {
        lemma_peer_flags_others(nodes.drop_last(), me);
        let f = nodes.drop_last().filter(|n: Node| n.name@ != me);
        if nodes.last().name@ != me {
            assert(f.push(nodes.last()).map_values(|n: Node| peer_flag(n))
                =~= f.map_values(|n: Node| peer_flag(n)).push(peer_flag(nodes.last())));
        }
    } else {
        assert(nodes.filter(|n: Node| n.name@ != me).map_values(|n: Node| peer_flag(n)) =~= Seq::<Seq<char>>::empty());
    }
}

} // verus!
