//! The Let's Encrypt settings of the node's ingress: the ACME endpoint and account of the
//! cluster issuer, and the domains that certificates may be requested for.
use vstd::prelude::*;
use crate::manifest::{ClusterIssuer, ClusterIssuerView, Ingress, IngressRuleView, IngressView};
use crate::text::{owned, text_eq, views};

verus! {

/// What the ingress template is given about certificates.
#[derive(Debug)]
pub struct LetsEncrypt {
    pub endpoint: String,
    pub email: String,
    pub allow_domains: Vec<String>,
}

/// The hosts named by a list of ingress rules, in order (rules without a host name none).
pub open spec fn rule_hosts(rules: Seq<IngressRuleView>) -> Seq<Seq<char>>
    decreases rules.len(),
{
    if rules.len() == 0 {
        Seq::empty()
    } else {
        let rest = rule_hosts(rules.drop_last());
        match rules.last().host { Some(h) => rest.push(h), None => rest }
    }
}

/// The hosts named by the rules of a list of ingresses, ingress by ingress.
pub open spec fn ingress_hosts(ings: Seq<IngressView>) -> Seq<Seq<char>>
    decreases ings.len(),
{
    if ings.len() == 0 {
        Seq::empty()
    } else {
        ingress_hosts(ings.drop_last()) + match ings.last().spec {
            Some(s) => match s.rules { Some(r) => rule_hosts(r), None => Seq::empty() },
            None => Seq::empty(),
        }
    }
}

/// A list without repeats: each element at its first occurrence, in order.
pub open spec fn first_occurrences(s: Seq<Seq<char>>) -> Seq<Seq<char>>
    decreases s.len(),
{
    if s.len() == 0 {
        Seq::empty()
    } else {
        let rest = first_occurrences(s.drop_last());
        if rest.contains(s.last()) { rest } else { rest.push(s.last()) }
    }
}

/// The ACME endpoint used where the cluster issuer names none: Let's Encrypt's staging
/// directory.
pub open spec fn staging_endpoint() -> Seq<char> {
    "https://acme-staging-v02.api.letsencrypt.org/directory"@
}

/// The ACME server and account email of the cluster issuer (empty where there is no issuer or
/// it has no spec).
pub open spec fn issuer_acme(issuer: Option<ClusterIssuerView>) -> (Seq<char>, Seq<char>) {
    match issuer {
        Some(i) => match i.spec {
            Some(s) => (s.acme.server, s.acme.email),
            None => (Seq::empty(), Seq::empty()),
        },
        None => (Seq::empty(), Seq::empty()),
    }
}

fn push_unique(out: &mut Vec<String>, h: &String)
    ensures
        views(final(out)@) == (if views(old(out)@).contains(h@) { views(old(out)@) } else { views(old(out)@).push(h@) }),
{
    let mut i: usize = 0;
    while i < out.len()
        invariant
            i <= out@.len(),
            forall|j: int| 0 <= j < i ==> #[trigger] out@[j]@ != h@,
        decreases out.len() - i,
    {
        if text_eq(out[i].as_str(), h.as_str()) {
            assert(views(out@)[i as int] == h@);
            return;
        }
        i = i + 1;
    }
    assert(!views(out@).contains(h@)) by {
        if views(out@).contains(h@) {
            let j = choose|j: int| 0 <= j < views(out@).len() && views(out@)[j] == h@;
            assert(out@[j]@ == h@);
        }
    }
    let ghost before = views(out@);
    out.push(h.clone());
    assert(views(out@) =~= before.push(h@));
}

/// The settings for the ingress template: the issuer's ACME server (the staging directory
/// where it names none) and email, and the hosts of all ingress rules without repeats, in
/// order of first appearance.
pub fn lets_encrypt_settings(ingresses: &Vec<Ingress>, issuer: Option<&ClusterIssuer>) -> (res: LetsEncrypt)
    ensures
        res.endpoint@ == (if issuer_acme(match issuer { Some(i) => Some(i.deep_view()), None => None }).0.len() == 0 {
            staging_endpoint()
        } else {
            issuer_acme(match issuer { Some(i) => Some(i.deep_view()), None => None }).0
        }),
        res.email@ == issuer_acme(match issuer { Some(i) => Some(i.deep_view()), None => None }).1,
        views(res.allow_domains@) == first_occurrences(ingress_hosts(ingresses.deep_view())),
{
    let ghost ings = ingresses.deep_view();
    let mut domains: Vec<String> = Vec::new();
    let ghost mut all: Seq<Seq<char>> = Seq::empty();
    let mut i: usize = 0;
    while i < ingresses.len()
        invariant
            i <= ingresses@.len(),
            ings == ingresses.deep_view(),
            all == ingress_hosts(ings.take(i as int)),
            views(domains@) == first_occurrences(all),
        decreases ingresses.len() - i,
    {
        let ing = &ingresses[i];
        proof {
            assert(ings.take(i + 1).drop_last() =~= ings.take(i as int));
            assert(ings.take(i + 1).last() == ing.deep_view());
        }
        match &ing.spec {
            Some(s) => match &s.rules {
                Some(rules) => {
                    let ghost rs = rules.deep_view();
                    let ghost base = all;
                    let mut j: usize = 0;
                    while j < rules.len()
                        invariant
                            j <= rules@.len(),
                            rs == rules.deep_view(),
                            all == base + rule_hosts(rs.take(j as int)),
                            views(domains@) == first_occurrences(all),
                        decreases rules.len() - j,
                    {
                        proof {
                            assert(rs.take(j + 1).drop_last() =~= rs.take(j as int));
                            assert(rs.take(j + 1).last() == rules@[j as int].deep_view());
                        }
                        match &rules[j].host {
                            Some(h) => {
                                push_unique(&mut domains, h);
                                proof {
                                    let old_all = all;
                                    all = all.push(h@);
                                    assert(all.drop_last() =~= old_all);
                                    assert(base + rule_hosts(rs.take(j + 1)) =~= (base + rule_hosts(rs.take(j as int))).push(h@));
                                }
                            },
                            None => {},
                        }
                        j = j + 1;
                    }
                    assert(rs.take(rs.len() as int) =~= rs);
                },
                None => {
                    assert(all =~= all + Seq::<Seq<char>>::empty());
                },
            },
            None => {
                assert(all =~= all + Seq::<Seq<char>>::empty());
            },
        }
        i = i + 1;
    }
    assert(ings.take(ings.len() as int) =~= ings);
    let (server, email) = match issuer {
        Some(iss) => match &iss.spec {
            Some(s) => (s.acme.server.clone(), s.acme.email.clone()),
            None => (String::new(), String::new()),
        },
        None => (String::new(), String::new()),
    };
    let endpoint = if server.as_str().unicode_len() == 0 {
        owned("https://acme-staging-v02.api.letsencrypt.org/directory")
    } else {
        server
    };
    LetsEncrypt { endpoint, email, allow_domains: domains }
}

} // verus!
