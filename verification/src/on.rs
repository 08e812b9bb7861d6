//! `skate on`: which version of the node agent each node runs.
use vstd::prelude::*;
use crate::cli::ConfigFileArgs;
use crate::text::{split_words, unicode_words, views};

verus! {

/// What `skate on` is given.
#[derive(Debug)]
pub struct OnArgs {
    pub hosts: ConfigFileArgs,
    /// Where the release binaries are found.
    pub binary_url_prefix: String,
}

/// The version shown for a node: the last whitespace-separated word of what the node agent
/// reports (`skatelet 0.1.0` shows `0.1.0`), empty when it reports nothing.
pub open spec fn shown_version(reported: Option<Seq<char>>) -> Seq<char> {
    let words = unicode_words(match reported { Some(r) => r, None => Seq::empty() });
    if words.len() == 0 { Seq::empty() } else { words.last() }
}

/// The version shown for a node (see `shown_version`).
pub fn version_word(reported: &Option<String>) -> (res: String)
    ensures
        res@ == shown_version(match reported { Some(r) => Some(r@), None => None }),
{
    let words = match reported {
        Some(r) => split_words(r.as_str(), false),
        None => split_words("", false),
    };
    proof {
        if reported is None {
            reveal_strlit("");
        }
    }
    if words.len() == 0 {
        String::new()
    } else {
        let w = words[words.len() - 1].clone();
        assert(views(words@).last() == w@);
        w
    }
}

} // verus!
