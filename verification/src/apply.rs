//! `skate apply`: which manifests to read and how they are prepared before scheduling.
use vstd::prelude::*;
use crate::cli::ConfigFileArgs;
use crate::errors::SkateError;
use crate::fixup::{fixup_accepts, fixup_defined, fixup_refusal, fixup_spec};
use crate::provision::messages;
use crate::manifest::{SupportedResources, SupportedResourcesView};
use crate::text::text_eq;

verus! {

/// What `skate apply` is given.
#[derive(Debug)]
pub struct ApplyArgs {
    /// The files that hold the manifests; a single `-` reads standard input.
    pub filename: Vec<String>,
    /// Time given to resources to stop; ignored when negative.
    pub grace_period: i32,
    pub config: ConfigFileArgs,
    /// Report what would change without changing the cluster.
    pub dry_run: bool,
}

/// Whether the manifests come from standard input: exactly one file name, and it is `-`.
pub open spec fn reads_stdin_spec(files: Seq<String>) -> bool {
    files.len() == 1 && files[0]@ == "-"@
}

impl ApplyArgs {
    /// Whether the manifests come from standard input (see `reads_stdin_spec`).
    pub fn reads_stdin(&self) -> (res: bool)
        ensures
            res == reads_stdin_spec(self.filename@),
    {
        self.filename.len() == 1 && text_eq(self.filename[0].as_str(), "-")
    }
}

/// The messages with which preparation refuses manifests of a list, one for each refused
/// manifest, in the order of the list.
pub open spec fn refusals(rs: Seq<SupportedResourcesView>) -> Seq<Seq<char>>
    decreases rs.len(),
{
    if rs.len() == 0 {
        Seq::empty()
    } else if fixup_accepts(rs.last()) {
        refusals(rs.drop_last())
    } else {
        refusals(rs.drop_last()).push(fixup_refusal(rs.last()))
    }
}

proof fn lemma_refusals_empty(rs: Seq<SupportedResourcesView>)
    ensures
        refusals(rs).len() == 0 <==> forall|i: int| 0 <= i < rs.len() ==> fixup_accepts(#[trigger] rs[i]),
    decreases rs.len(),
{
    if rs.len() > 0 {
        lemma_refusals_empty(rs.drop_last());
        assert(rs.drop_last().len() == rs.len() - 1);
        if refusals(rs).len() == 0 {
            assert forall|i: int| 0 <= i < rs.len() implies fixup_accepts(#[trigger] rs[i]) by {
                if i < rs.len() - 1 {
                    assert(rs.drop_last()[i] == rs[i]);
                }
            }
        } else {
            if fixup_accepts(rs.last()) {
                let j = choose|j: int| 0 <= j < rs.drop_last().len() && !fixup_accepts(#[trigger] rs.drop_last()[j]);
                assert(rs.drop_last()[j] == rs[j]);
            }
        }
    }
}

/// Prepares every manifest for scheduling. All of them prepared, in order, when preparation
/// accepts all; otherwise the errors, one for each manifest refused, in order, each with the
/// message that preparation gave it (see `refusals`).
pub fn fixup_all(resources: Vec<SupportedResources>) -> (res: Result<Vec<SupportedResources>, Vec<SkateError>>)
    requires
        forall|i: int| 0 <= i < resources@.len() ==> fixup_defined(#[trigger] resources@[i].deep_view()),
    ensures
        (forall|i: int| 0 <= i < resources@.len() ==> fixup_accepts(#[trigger] resources@[i].deep_view()))
            ==> (res matches Ok(v) && v.deep_view() == resources.deep_view().map_values(|r: SupportedResourcesView| fixup_spec(r))),
        !(forall|i: int| 0 <= i < resources@.len() ==> fixup_accepts(#[trigger] resources@[i].deep_view()))
            ==> (res matches Err(es) && messages(es@) == refusals(resources.deep_view()) && es@.len() > 0),
{
    let ghost rs = resources.deep_view();
    let ghost orig = resources@;
    assert(forall|i: int| 0 <= i < orig.len() ==> rs[i] == #[trigger] orig[i].deep_view());
    let mut ok: Vec<SupportedResources> = Vec::new();
    let mut errs: Vec<SkateError> = Vec::new();
    let mut rest = resources;
    // walk the list from its end, so that each manifest can be moved out
    let mut rev: Vec<SupportedResources> = Vec::new();
    while rest.len() > 0
        invariant
            rest.deep_view() + rev.deep_view().reverse() == rs,
        decreases rest.len(),
    {
        let ghost before_rest = rest.deep_view();
        let ghost before_rev = rev.deep_view();
        let r = rest.pop().unwrap();
        proof {
            assert(rest.deep_view() =~= before_rest.drop_last());
        }
        rev.push(r);
        proof {
            assert(rev.deep_view() =~= before_rev.push(before_rest.last()));
            assert(rev.deep_view().reverse() =~= seq![before_rest.last()] + before_rev.reverse());
            assert(rest.deep_view() + rev.deep_view().reverse() =~= before_rest + before_rev.reverse());
        }
    }
    assert(rest.deep_view() =~= Seq::<SupportedResourcesView>::empty());
    assert(rev.deep_view().reverse() =~= rs);
    while rev.len() > 0
        invariant
            rs.take((ok@.len() + errs@.len()) as int) + rev.deep_view().reverse() == rs,
            forall|i: int| 0 <= i < rs.len() ==> fixup_defined(#[trigger] rs[i]),
            messages(errs@) == refusals(rs.take((ok@.len() + errs@.len()) as int)),
            errs@.len() == 0 ==> ok.deep_view() == rs.take(ok@.len() as int).map_values(|r: SupportedResourcesView| fixup_spec(r)),
            ok@.len() + errs@.len() <= rs.len(),
        decreases rev.len(),
    {
        let ghost done = (ok@.len() + errs@.len()) as int;
        let ghost before_rev = rev.deep_view();
        let ghost before_ok = ok.deep_view();
        let ghost before_errs = errs@;
        let r = rev.pop().unwrap();
        proof {
            assert(rev.deep_view() =~= before_rev.drop_last());
            assert(before_rev.reverse()[0] == before_rev.last());
            assert((rs.take(done) + before_rev.reverse())[done] == rs[done]);
            assert(r.deep_view() == rs[done]);
            assert(rs.take(done + 1) =~= rs.take(done).push(rs[done]));
            assert(before_rev.reverse() =~= seq![before_rev.last()] + before_rev.drop_last().reverse());
            assert(rs.take(done + 1) + rev.deep_view().reverse() =~= rs.take(done) + before_rev.reverse());
            assert(rs.take(done + 1).drop_last() =~= rs.take(done));
            assert(fixup_defined(rs[done]));
        }
        match r.fixup() {
            Ok(f) => {
                ok.push(f);
                proof {
                    if before_errs.len() == 0 {
                        assert(ok.deep_view() =~= before_ok.push(fixup_spec(rs[done])));
                        assert(rs.take(done + 1).map_values(|r: SupportedResourcesView| fixup_spec(r))
                            =~= rs.take(done).map_values(|r: SupportedResourcesView| fixup_spec(r)).push(fixup_spec(rs[done])));
                    }
                }
            },
            Err(e) => {
                errs.push(e);
                proof {
                    assert(messages(errs@) =~= messages(before_errs).push(fixup_refusal(rs[done])));
                }
            },
        }
    }
    proof {
        assert(rs.take(rs.len() as int) =~= rs);
        lemma_refusals_empty(rs);
        if !(forall|i: int| 0 <= i < orig.len() ==> fixup_accepts(#[trigger] orig[i].deep_view())) {
            let j = choose|j: int| 0 <= j < orig.len() && !fixup_accepts(#[trigger] orig[j].deep_view());
            assert(!fixup_accepts(rs[j]));
        }
        if errs@.len() == 0 {
            assert(ok@.len() == rs.len());
        }
    }
    if errs.len() > 0 {
        Err(errs)
    } else {
        Ok(ok)
    }
}

} // verus!
