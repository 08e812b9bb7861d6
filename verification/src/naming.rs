//! Names of resources within namespaces, and the labels skate keeps them in.
use vstd::prelude::*;
use crate::manifest::{ObjectMeta, ObjectMetaView};
use crate::text::{join3, owned, split_once_char, split_once_spec, text_eq};

verus! {

/// A resource name within a namespace.
#[derive(Debug)]
pub struct NamespacedName {
    pub name: String,
    pub namespace: String,
}

/// A namespaced name as plain values.
pub struct NamespacedNameView {
    pub name: Seq<char>,
    pub namespace: Seq<char>,
}

impl DeepView for NamespacedName {
    type V = NamespacedNameView;

    open spec fn deep_view(&self) -> NamespacedNameView {
        NamespacedNameView { name: self.name@, namespace: self.namespace@ }
    }
}

impl Clone for NamespacedName {
    fn clone(&self) -> (res: NamespacedName)
        ensures
            res.deep_view() == self.deep_view(),
    {
        NamespacedName { name: self.name.clone(), namespace: self.namespace.clone() }
    }
}

/// The text form of a namespaced name: `name.namespace`.
pub open spec fn ns_name_text(n: NamespacedNameView) -> Seq<char> {
    n.name + "."@ + n.namespace
}

/// The namespaced name a text denotes: what comes before the first `.` is the name and what
/// comes after it the namespace; a text without `.` is a name in no namespace.
pub open spec fn ns_name_of_text(s: Seq<char>) -> NamespacedNameView {
    match split_once_spec(s, '.') {
        Some((a, b)) => NamespacedNameView { name: a, namespace: b },
        None => NamespacedNameView { name: s, namespace: Seq::empty() },
    }
}

/// The label that holds a resource's own name.
pub open spec fn name_label() -> Seq<char> {
    "skate.io/name"@
}

/// The label that holds a resource's namespace.
pub open spec fn namespace_label() -> Seq<char> {
    "skate.io/namespace"@
}

/// The namespaced name of a manifest: its `skate.io/name` and `skate.io/namespace` labels where
/// it has them, else its metadata name and namespace (empty where missing).
pub open spec fn metadata_name_spec(m: ObjectMetaView) -> NamespacedNameView {
    let name = if m.labels is Some && m.labels->0.contains_key(name_label()) {
        m.labels->0[name_label()]
    } else {
        match m.name {
            Some(n) => n,
            None => Seq::empty(),
        }
    };
    let namespace = if m.labels is Some && m.labels->0.contains_key(namespace_label()) {
        m.labels->0[namespace_label()]
    } else {
        match m.namespace {
            Some(n) => n,
            None => Seq::empty(),
        }
    };
    NamespacedNameView { name, namespace }
}

impl NamespacedName {
    /// A namespaced name from its parts.
    pub fn new(name: &str, namespace: &str) -> (res: NamespacedName)
        ensures
            res.name@ == name@,
            res.namespace@ == namespace@,
    {
        NamespacedName { name: owned(name), namespace: owned(namespace) }
    }

    /// The text form `name.namespace`.
    pub fn to_string(&self) -> (res: String)
        ensures
            res@ == ns_name_text(self.deep_view()),
    {
        join3(self.name.as_str(), ".", self.namespace.as_str())
    }

    /// The namespaced name that a text denotes (see `ns_name_of_text`).
    pub fn from_text(s: &str) -> (res: NamespacedName)
        ensures
            res.deep_view() == ns_name_of_text(s@),
    {
        match split_once_char(s, '.') {
            Some((a, b)) => NamespacedName { name: a, namespace: b },
            None => NamespacedName { name: owned(s), namespace: String::new() },
        }
    }

    /// Whether two namespaced names are the same.
    pub fn same_as(&self, other: &NamespacedName) -> (res: bool)
        ensures
            res == (self.deep_view() == other.deep_view()),
    {
        text_eq(self.name.as_str(), other.name.as_str()) && text_eq(
            self.namespace.as_str(),
            other.namespace.as_str(),
        )
    }
}

/// The namespaced name of a manifest's metadata (see `metadata_name_spec`).
pub fn metadata_name(m: &ObjectMeta) -> (res: NamespacedName)
    ensures
        res.deep_view() == metadata_name_spec(m.deep_view()),
{
    let from_label = match &m.labels {
        Some(l) => l.get("skate.io/name"),
        None => None,
    };
    let name = match from_label {
        Some(n) => n,
        None => match &m.name {
            Some(n) => n.clone(),
            None => String::new(),
        },
    };
    let ns_label = match &m.labels {
        Some(l) => l.get("skate.io/namespace"),
        None => None,
    };
    let namespace = match ns_label {
        Some(n) => n,
        None => match &m.namespace {
            Some(n) => n.clone(),
            None => String::new(),
        },
    };
    NamespacedName { name, namespace }
}

/// A namespaced name written as text reads back as the same name, as long as the name part
/// holds no `.` (the first `.` is where the namespace starts).
pub proof fn lemma_ns_name_text_round_trip(n: NamespacedNameView)
    requires
        forall|i: int| 0 <= i < n.name.len() ==> n.name[i] != '.',
    ensures
        ns_name_of_text(ns_name_text(n)) == n,
{
    reveal_strlit(".");
    let s = ns_name_text(n);
    let k = n.name.len() as int;
    assert(s[k] == '.');
    assert forall|j: int| 0 <= j < k implies s[j] != '.' by {
        assert(s[j] == n.name[j]);
    }
    crate::text::lemma_first_index_of(s, '.', k);
    assert(s.take(k) =~= n.name);
    assert(s.skip(k + 1) =~= n.namespace);
}

} // verus!
