//! The cluster configuration: clusters, their nodes, and which one is active.
use vstd::prelude::*;
use crate::errors::SkateError;
use crate::text::{join2, join3, owned, text_eq};

verus! {

/// The configuration file's contents.
#[derive(Clone, Debug)]
pub struct Config {
    pub current_context: Option<String>,
    pub clusters: Vec<Cluster>,
}

/// A cluster: a name, ssh defaults and its nodes.
#[derive(Debug)]
pub struct Cluster {
    pub name: String,
    pub default_user: Option<String>,
    pub default_key: Option<String>,
    pub nodes: Vec<Node>,
}

/// A node of a cluster.
#[derive(Debug)]
pub struct Node {
    pub name: String,
    pub host: String,
    pub peer_host: String,
    pub subnet_cidr: String,
    pub port: Option<u16>,
    pub user: Option<String>,
    pub key: Option<String>,
}

/// A copy of optional text.
pub fn clone_opt_text(o: &Option<String>) -> (res: Option<String>)
    ensures
        res == *o,
{
    match o {
        Some(s) => Some(s.clone()),
        None => None,
    }
}

impl Clone for Node {
    fn clone(&self) -> (res: Node)
        ensures
            res == *self,
    {
        Node {
            name: self.name.clone(),
            host: self.host.clone(),
            peer_host: self.peer_host.clone(),
            subnet_cidr: self.subnet_cidr.clone(),
            port: self.port,
            user: clone_opt_text(&self.user),
            key: clone_opt_text(&self.key),
        }
    }
}

impl Cluster {
    /// Two clusters hold the same name, defaults and nodes.
    pub open spec fn same(self, other: Cluster) -> bool {
        &&& self.name == other.name
        &&& self.default_user == other.default_user
        &&& self.default_key == other.default_key
        &&& self.nodes@ == other.nodes@
    }
}

impl Clone for Cluster {
    fn clone(&self) -> (res: Cluster)
        ensures
            res.same(*self),
    {
        let nodes = self.nodes.clone();
        assert(nodes@ =~= self.nodes@);
        Cluster {
            name: self.name.clone(),
            default_user: clone_opt_text(&self.default_user),
            default_key: clone_opt_text(&self.default_key),
            nodes,
        }
    }
}

impl Default for Node {
    fn default() -> (res: Node)
        ensures
            res.name@ == Seq::<char>::empty(),
            res.host@ == Seq::<char>::empty(),
            res.peer_host@ == Seq::<char>::empty(),
            res.subnet_cidr@ == Seq::<char>::empty(),
            res.port is None,
            res.user is None,
            res.key is None,
    {
        Node {
            name: String::new(),
            host: String::new(),
            peer_host: String::new(),
            subnet_cidr: String::new(),
            port: None,
            user: None,
            key: None,
        }
    }
}

/// The index of the first cluster named `name`, if there is one.
pub open spec fn first_cluster_named(clusters: Seq<Cluster>, name: Seq<char>) -> Option<int> {
    if exists|i: int| 0 <= i < clusters.len() && #[trigger] clusters[i].name@ == name {
        Some(choose|i: int|
            0 <= i < clusters.len() && clusters[i].name@ == name && forall|j: int|
                0 <= j < i ==> #[trigger] clusters[j].name@ != name)
    } else {
        None
    }
}

/// The first index that satisfies the condition is unique.
proof fn lemma_first_cluster_named(clusters: Seq<Cluster>, name: Seq<char>, k: int)
    requires
        0 <= k < clusters.len(),
        clusters[k].name@ == name,
        forall|j: int| 0 <= j < k ==> #[trigger] clusters[j].name@ != name,
    ensures
        first_cluster_named(clusters, name) == Some(k),
{
    let c = choose|i: int|
        0 <= i < clusters.len() && clusters[i].name@ == name && forall|j: int|
            0 <= j < i ==> #[trigger] clusters[j].name@ != name;
    assert(0 <= c < clusters.len() && clusters[c].name@ == name && forall|j: int|
        0 <= j < c ==> #[trigger] clusters[j].name@ != name);
    if c < k {
        assert(clusters[c].name@ != name);
    }
    if k < c {
        assert(clusters[k].name@ != name);
    }
}

pub(crate) fn position_of_cluster(clusters: &Vec<Cluster>, name: &str) -> (res: Option<usize>)
    ensures
        match res {
            Some(i) => first_cluster_named(clusters@, name@) == Some(i as int) && i < clusters@.len(),
            None => first_cluster_named(clusters@, name@) is None,
        },
{
    let mut i: usize = 0;
    while i < clusters.len()
        invariant
            i <= clusters@.len(),
            forall|j: int| 0 <= j < i ==> #[trigger] clusters@[j].name@ != name@,
        decreases clusters.len() - i,
    {
        if text_eq(clusters[i].name.as_str(), name) {
            proof {
                lemma_first_cluster_named(clusters@, name@, i as int);
            }
            return Some(i);
        }
        i = i + 1;
    }
    None
}

impl Config {
    /// The name that selects the active cluster: the current context if it is set, else the
    /// name asked for, else the first cluster's name.
    pub open spec fn active_cluster_name(&self, name: Option<String>) -> Seq<char> {
        match self.current_context {
            Some(c) => c@,
            None => match name {
                Some(n) => n@,
                None => self.clusters@[0].name@,
            },
        }
    }

    /// The active cluster, chosen by `active_cluster_name`.
    pub fn active_cluster(&self, name: Option<String>) -> (res: Result<&Cluster, SkateError>)
        ensures
            self.clusters@.len() == 0 ==> (res matches Err(e) && e.message() == "no clusters in config"@),
            self.clusters@.len() > 0 ==> match first_cluster_named(
                self.clusters@,
                self.active_cluster_name(name),
            ) {
                Some(i) => res matches Ok(c) && *c == self.clusters@[i],
                None => res matches Err(e) && e.message() == "found no cluster by name of "@
                    + self.active_cluster_name(name),
            },
    {
        if self.clusters.len() == 0 {
            proof {
                reveal_strlit("no clusters in config");
            }
            return Err(SkateError::msg("no clusters in config"));
        }
        let cluster_name = match &self.current_context {
            Some(c) => c.clone(),
            None => match name {
                Some(n) => n,
                None => self.clusters[0].name.clone(),
            },
        };
        match position_of_cluster(&self.clusters, cluster_name.as_str()) {
            Some(i) => Ok(&self.clusters[i]),
            None => {
                let m = join2("found no cluster by name of ", cluster_name.as_str());
                Err(SkateError::String(m))
            },
        }
    }

    /// Replaces the first cluster with the same name as `cluster`.
    pub fn replace_cluster(&mut self, cluster: &Cluster) -> (res: Result<(), SkateError>)
        ensures
            match first_cluster_named(old(self).clusters@, cluster.name@) {
                Some(i) => res is Ok && final(self).clusters@.len() == old(self).clusters@.len()
                    && final(self).clusters@[i].same(*cluster)
                    && (forall|j: int| 0 <= j < old(self).clusters@.len() && j != i
                        ==> #[trigger] final(self).clusters@[j] == old(self).clusters@[j])
                    && final(self).current_context == old(self).current_context,
                None => res matches Err(e) && e.message() == "cluster not found"@ && *final(self)
                    == *old(self),
            },
    {
        match position_of_cluster(&self.clusters, cluster.name.as_str()) {
            Some(i) => {
                self.clusters.set(i, cluster.clone());
                Ok(())
            },
            None => {
                proof {
                    reveal_strlit("cluster not found");
                }
                Err(SkateError::msg("cluster not found"))
            },
        }
    }
}

/// Expands a leading `~` to the user's home directory (`shellexpand::tilde`).
///
/// The expansion depends on the environment; what is claimed holds of every outcome: text that
/// is not `~` and does not start with `~/` comes back unchanged, and text that is or does comes
/// back either unchanged (no home directory is known) or as some prefix followed by everything
/// after the `~`.
#[verifier::external_body]
fn expand_tilde(path: &str) -> (res: String)
    ensures
        !(path@.len() > 0 && path@[0] == '~' && (path@.len() == 1 || path@[1] == '/')) ==> res@ == path@,
        path@.len() > 0 && path@[0] == '~' ==> exists|p: Seq<char>| res@ == p + path@.drop_first(),
{
    shellexpand::tilde(path).to_string()
}

/// The directory that holds skate's configuration (`~/.skate`, expanded).
pub fn config_dir() -> (res: String)
    ensures
        exists|p: Seq<char>| res@ == p + "/.skate"@,
{
    let r = expand_tilde("~/.skate");
    proof {
        reveal_strlit("~/.skate");
        reveal_strlit("/.skate");
        assert("~/.skate"@.drop_first() =~= "/.skate"@);
    }
    r
}

/// The cache directory under a given configuration directory.
pub fn cache_dir_in(config_dir: &str) -> (res: String)
    ensures
        res@ == config_dir@ + "/cache"@,
{
    join2(config_dir, "/cache")
}

/// The cache directory (`<config dir>/cache`).
pub fn cache_dir() -> (res: String)
    ensures
        exists|p: Seq<char>| res@ == p + "/.skate"@ + "/cache"@,
{
    let d = config_dir();
    cache_dir_in(d.as_str())
}

/// The path of the configuration file: the one given, or `<config dir>/config.yaml`, with a
/// leading `~` expanded.
pub fn config_path(path: Option<String>) -> (res: String)
    ensures
        path is None ==> exists|q: Seq<char>| res@ == q + "/.skate/config.yaml"@,
        path matches Some(p) ==> (!(p@.len() > 0 && p@[0] == '~') ==> res@ == p@),
        path matches Some(p) ==> (p@.len() > 0 && p@[0] == '~' ==> exists|q: Seq<char>| res@ == q + p@.drop_first()),
{
    match path {
        Some(p) => expand_tilde(p.as_str()),
        None => {
            let d = config_dir();
            let joined = join2(d.as_str(), "/config.yaml");
            let r = expand_tilde(joined.as_str());
            proof {
                reveal_strlit("/config.yaml");
                reveal_strlit("/.skate/config.yaml");
                reveal_strlit("/.skate");
                let pre = choose|pre: Seq<char>| d@ == pre + "/.skate"@;
                let tail = "/.skate/config.yaml"@;
                assert(joined@ =~= pre + tail);
                if joined@.len() > 0 && joined@[0] == '~' {
                    assert(pre.len() > 0);
                    let q = choose|q: Seq<char>| r@ == q + joined@.drop_first();
                    assert(joined@.drop_first() =~= pre.drop_first() + tail);
                    assert(r@ =~= (q + pre.drop_first()) + tail);
                } else {
                    assert(r@ =~= pre + tail);
                }
            }
            r
        },
    }
}

/// Whether a cluster of this name exists.
pub fn has_cluster(config: &Config, name: &str) -> (res: bool)
    ensures
        res == exists|i: int| 0 <= i < config.clusters@.len() && #[trigger] config.clusters@[i].name@ == name@,
{
    let r = position_of_cluster(&config.clusters, name);
    r.is_some()
}

/// Adds a new cluster and makes it the current context; refuses a name that is already taken.
pub fn add_cluster(config: &mut Config, cluster: Cluster) -> (res: Result<(), SkateError>)
    ensures
        (exists|i: int| 0 <= i < old(config).clusters@.len() && #[trigger] old(config).clusters@[i].name@ == cluster.name@)
            ==> res is Err && *final(config) == *old(config),
        !(exists|i: int| 0 <= i < old(config).clusters@.len() && #[trigger] old(config).clusters@[i].name@ == cluster.name@)
            ==> (res is Ok && final(config).clusters@ == old(config).clusters@.push(cluster)
            && (final(config).current_context matches Some(c) && c@ == cluster.name@)),
{
    if has_cluster(config, cluster.name.as_str()) {
        let m = join3("cluster by name of ", cluster.name.as_str(), " already exists");
        return Err(SkateError::String(m));
    }
    let n = cluster.name.clone();
    config.clusters.push(cluster);
    config.current_context = Some(n);
    Ok(())
}

/// Selects the current context; refuses a name that no cluster has.
pub fn use_context(config: &mut Config, context: &str) -> (res: Result<(), SkateError>)
    ensures
        (exists|i: int| 0 <= i < old(config).clusters@.len() && #[trigger] old(config).clusters@[i].name@ == context@)
            ==> (res is Ok && final(config).clusters == old(config).clusters
            && (final(config).current_context matches Some(c) && c@ == context@)),
        !(exists|i: int| 0 <= i < old(config).clusters@.len() && #[trigger] old(config).clusters@[i].name@ == context@)
            ==> (res matches Err(e) && e.message() == "no context exists with the name "@ + context@) && *final(config) == *old(config),
{
    if !has_cluster(config, context) {
        let m = join2("no context exists with the name ", context);
        return Err(SkateError::String(m));
    }
    config.current_context = Some(owned(context));
    Ok(())
}

/// Removes the first cluster of the given name; refuses a name that no cluster has.
pub fn delete_context(config: &mut Config, context: &str) -> (res: Result<(), SkateError>)
    ensures
        match first_cluster_named(old(config).clusters@, context@) {
            Some(i) => res is Ok && final(config).clusters@ == old(config).clusters@.remove(i)
                && final(config).current_context == old(config).current_context,
            None => (res matches Err(e) && e.message() == "no context exists with the name "@ + context@)
                && *final(config) == *old(config),
        },
{
    match position_of_cluster(&config.clusters, context) {
        Some(i) => {
            config.clusters.remove(i);
            Ok(())
        },
        None => {
            let m = join2("no context exists with the name ", context);
            Err(SkateError::String(m))
        },
    }
}

proof fn lemma_least_cluster_named(clusters: Seq<Cluster>, name: Seq<char>, k: int)
    requires
        0 <= k < clusters.len(),
        clusters[k].name@ == name,
    ensures
        exists|i: int| 0 <= i < clusters.len() && clusters[i].name@ == name
            && forall|j: int| 0 <= j < i ==> #[trigger] clusters[j].name@ != name,
    decreases k,
{
    if exists|j: int| 0 <= j < k && #[trigger] clusters[j].name@ == name {
        let j = choose|j: int| 0 <= j < k && #[trigger] clusters[j].name@ == name;
        lemma_least_cluster_named(clusters, name, j);
    } else {
        assert(forall|j: int| 0 <= j < k ==> #[trigger] clusters[j].name@ != name);
    }
}

/// The first cluster of a name is a cluster of that name.
pub proof fn lemma_first_cluster_named_props(clusters: Seq<Cluster>, name: Seq<char>)
    ensures
        first_cluster_named(clusters, name) matches Some(i) ==> 0 <= i < clusters.len() && clusters[i].name@ == name
            && forall|j: int| 0 <= j < i ==> #[trigger] clusters[j].name@ != name,
{
    if exists|i: int| 0 <= i < clusters.len() && #[trigger] clusters[i].name@ == name {
        let k = choose|i: int| 0 <= i < clusters.len() && #[trigger] clusters[i].name@ == name;
        lemma_least_cluster_named(clusters, name, k);
    }
}

/// Once a context is in use (as `use_context` leaves the configuration), it is the active
/// cluster's name whatever name is asked for, and the active cluster is a cluster of that name.
pub proof fn lemma_used_context_is_active(config: Config, context: Seq<char>, name: Option<String>)
    requires
        config.current_context matches Some(c) && c@ == context,
        exists|i: int| 0 <= i < config.clusters@.len() && #[trigger] config.clusters@[i].name@ == context,
    ensures
        config.active_cluster_name(name) == context,
        first_cluster_named(config.clusters@, context) matches Some(i)
            && 0 <= i < config.clusters@.len() && config.clusters@[i].name@ == context,
{
    let k = choose|i: int| 0 <= i < config.clusters@.len() && #[trigger] config.clusters@[i].name@ == context;
    lemma_least_cluster_named(config.clusters@, context, k);
}

} // verus!
