//! Releases of skate: which archive holds the node agent for a platform, and their versions.
use vstd::prelude::*;
use crate::errors::SkateError;
use crate::platform::Platform;
use crate::text::{owned, text_eq};
use crate::versions::{parse_version, semver_parse};

verus! {

/// A downloadable file of a release.
#[derive(Debug)]
pub struct Asset {
    pub url: Option<String>,
    pub name: Option<String>,
    pub label: Option<String>,
    pub content_type: Option<String>,
    pub state: Option<String>,
    pub browser_download_url: Option<String>,
}

/// A release as the release listing describes it.
#[derive(Debug)]
pub struct Release {
    pub name: Option<String>,
    pub tag_name: Option<String>,
    pub prerelease: Option<bool>,
    pub created_at: Option<String>,
    pub published_at: Option<String>,
    pub assets: Option<Vec<Asset>>,
}

/// The architecture and libc names used in archive names for a machine architecture.
pub open spec fn download_arch(arch: Seq<char>) -> (Seq<char>, Seq<char>) {
    if arch == "amd64"@ {
        ("x86_64"@, "gnu"@)
    } else if arch == "armv6l"@ {
        ("arm"@, "gnueabi"@)
    } else if arch == "armv7l"@ {
        ("arm7"@, "gnueabi"@)
    } else if arch == "arm64"@ {
        ("aarch64"@, "gnu"@)
    } else {
        (arch, "gnu"@)
    }
}

/// The archive name of the node agent for a machine architecture.
pub open spec fn skatelet_archive_name(arch: Seq<char>) -> Seq<char> {
    "skatelet-"@ + download_arch(arch).0 + "-unknown-linux-"@ + download_arch(arch).1 + ".tar.gz"@
}

/// Whether an asset is the node agent archive for an architecture with a download link.
pub open spec fn is_skatelet_asset(a: Asset, arch: Seq<char>) -> bool {
    &&& a.name matches Some(n) && n@ == skatelet_archive_name(arch)
    &&& a.browser_download_url matches Some(u) && u@.len() > 0
}

fn archive_name(arch: &str) -> (res: String)
    ensures
        res@ == skatelet_archive_name(arch@),
{
    let (dl_arch, dl_gnu) = if text_eq(arch, "amd64") {
        (owned("x86_64"), owned("gnu"))
    } else if text_eq(arch, "armv6l") {
        (owned("arm"), owned("gnueabi"))
    } else if text_eq(arch, "armv7l") {
        (owned("arm7"), owned("gnueabi"))
    } else if text_eq(arch, "arm64") {
        (owned("aarch64"), owned("gnu"))
    } else {
        (owned(arch), owned("gnu"))
    };
    let mut s = owned("skatelet-");
    s.append(dl_arch.as_str());
    s.append("-unknown-linux-");
    s.append(dl_gnu.as_str());
    s.append(".tar.gz");
    s
}

/// The tag with its leading `v` taken off, or nothing when it has none.
pub open spec fn version_text_of_tag(tag: Seq<char>) -> Seq<char> {
    if tag.len() > 0 && tag[0] == 'v' {
        tag.drop_first()
    } else {
        Seq::empty()
    }
}

/// The first node agent archive for an architecture among some assets, as its download link.
pub open spec fn first_skatelet_link(assets: Seq<Asset>, arch: Seq<char>, u: Seq<char>) -> bool {
    exists|i: int| 0 <= i < assets.len()
        && is_skatelet_asset(#[trigger] assets[i], arch)
        && (forall|j: int| 0 <= j < i ==> !is_skatelet_asset(#[trigger] assets[j], arch))
        && (assets[i].browser_download_url matches Some(v) && v@ == u)
}

fn find_skatelet_asset(assets: &Vec<Asset>, arch: &str) -> (res: Option<String>)
    ensures
        match res {
            Some(u) => first_skatelet_link(assets@, arch@, u@),
            None => forall|i: int| 0 <= i < assets@.len() ==> !is_skatelet_asset(#[trigger] assets@[i], arch@),
        },
{
    let filename = archive_name(arch);
    let mut i: usize = 0;
    while i < assets.len()
        invariant
            i <= assets@.len(),
            filename@ == skatelet_archive_name(arch@),
            forall|j: int| 0 <= j < i ==> !is_skatelet_asset(#[trigger] assets@[j], arch@),
        decreases assets.len() - i,
    {
        let a = &assets[i];
        let matches = match &a.name {
            Some(n) => text_eq(n.as_str(), filename.as_str()),
            None => false,
        };
        if matches {
            match &a.browser_download_url {
                Some(u) => {
                    if u.as_str().unicode_len() > 0 {
                        let r = u.clone();
                        assert(is_skatelet_asset(assets@[i as int], arch@));
                        return Some(r);
                    }
                },
                None => {},
            }
        }
        i = i + 1;
    }
    None
}

impl Release {
    /// The download link of the first asset that is the node agent archive for the platform.
    pub fn find_skatelet_archive(&self, platform: &Platform) -> (res: Option<String>)
        ensures
            self.assets is None ==> res is None,
            self.assets matches Some(assets) ==> match res {
                Some(u) => first_skatelet_link(assets@, platform.arch@, u@),
                None => forall|i: int| 0 <= i < assets@.len() ==> !is_skatelet_asset(
                    #[trigger] assets@[i],
                    platform.arch@,
                ),
            },
    {
        match &self.assets {
            None => None,
            Some(assets) => find_skatelet_asset(assets, platform.arch.as_str()),
        }
    }

    /// The release's version: its tag without the leading `v`, parsed as a semantic version.
    pub fn version(&self) -> (res: Result<semver::Version, SkateError>)
        ensures
            match self.tag_name {
                None => res is Err,
                Some(t) => match semver_parse(version_text_of_tag(t@)) {
                    Some(v) => res == Ok::<semver::Version, SkateError>(v),
                    None => res is Err,
                },
            },
    {
        match &self.tag_name {
            None => Err(SkateError::msg("missing tag_name field in response")),
            Some(t) => {
                let text = t.as_str();
                let n = text.unicode_len();
                let stripped = if n > 0 && text.get_char(0) == 'v' {
                    owned(text.substring_char(1, n))
                } else {
                    String::new()
                };
                proof {
                    if n > 0 && t@[0] == 'v' {
                        assert(stripped@ =~= t@.drop_first());
                    }
                }
                match parse_version(stripped.as_str()) {
                    Some(v) => Ok(v),
                    None => Err(SkateError::msg("invalid version")),
                }
            },
        }
    }
}

} // verus!
