//! Resolution of releases against the remote API: which address to ask,
//! which tag of the Wine family's paginated tag list is latest, and the
//! downloading of a release's archive and checksum.
//!
//! All remote traffic goes through an injected collaborator; this module
//! decides what to fetch and what the answers mean.
use vstd::prelude::*;

use crate::response::{
    first_checksum_idx, first_tar_idx, DownloadedAssets, DownloadedChecksum, DownloadedTar,
    GeRelease,
};
use crate::tag::{semver_of, Tag, TagKind, WineTagKind};
use crate::text::{contains_seq, opt_lex_cmp};

verus! {

/// The failure of a remote operation.
#[derive(Debug)]
pub enum GithubError {
    Request(String),
    Deserialize(String),
    NoTags,
    ReleaseHasNoAssets { tag: String, kind: TagKind },
    StatusNotOk(u16),
}

impl GithubError {
    /// The message a terminal user reads.
    pub fn to_string(&self) -> (r: String) {
        match self {
            GithubError::Request(m) => {
                let mut s = "Failed to fetch resource from GitHub API: ".to_owned();
                s.append(m.as_str());
                s
            },
            GithubError::Deserialize(m) => {
                let mut s = "Could not convert GitHub JSON response into a struct: ".to_owned();
                s.append(m.as_str());
                s
            },
            GithubError::NoTags => "No tags could be found".to_owned(),
            GithubError::ReleaseHasNoAssets { tag, kind } => {
                let mut s = "For ".to_owned();
                s.append(tag.as_str());
                s.append(" ");
                s.append(kind.str().as_str());
                s.append(" the release has no assets");
                s
            },
            GithubError::StatusNotOk(_) => "HTTP response status was not OK (200)".to_owned(),
        }
    }
}

/// What to download: a tag, or the latest release of a kind, with or
/// without checksum verification.
#[derive(Debug)]
pub struct DownloadRequest {
    pub tag: Option<String>,
    pub kind: TagKind,
    pub skip_checksum: bool,
}

impl DownloadRequest {
    /// A request for the given tag of the given kind.
    pub fn new(tag: Option<String>, kind: TagKind, skip_checksum: bool) -> (r: DownloadRequest)
        ensures
            r.tag == tag,
            r.kind == kind,
            r.skip_checksum == skip_checksum,
    {
        DownloadRequest { tag, kind, skip_checksum }
    }
}

/// The transport this module fetches through.  Implementations talk to
/// the remote API, or stand in for it; nothing is assumed of what they
/// answer.
pub trait GithubDownload {
    /// One release object from the given address.
    fn fetch_release_json(&self, url: &str) -> Result<GeRelease, GithubError>;

    /// The names on one page of a tag list.
    fn fetch_tag_names(&self, url: &str) -> Result<Vec<String>, GithubError>;

    /// A binary asset.
    fn fetch_binary(&self, url: &str) -> Result<Vec<u8>, GithubError>;

    /// A text asset.
    fn fetch_text(&self, url: &str) -> Result<String, GithubError>;
}

/// Fetching and downloading of releases.
pub trait GeDownload {
    /// The release of the given tag, or the latest of the kind.
    fn fetch_release(&self, tag: Option<String>, kind: TagKind) -> Result<GeRelease, GithubError>;

    /// The assets of a requested release.
    fn download_release(&self, request: DownloadRequest) -> (r: Result<
        DownloadedAssets,
        GithubError,
    >)
        ensures
            r matches Ok(a) ==> (a.checksum is Some <==> !request.skip_checksum),
    ;
}

/// Whether a tag name belongs to the given Wine sub-variant: the `LoL`
/// builds carry the marker in their names, the standard builds do not.
pub open spec fn wine_kind_keeps(name: Seq<char>, wk: WineTagKind) -> bool {
    match wk {
        WineTagKind::LolWineGe => contains_seq(name, seq!['L', 'o', 'L']),
        WineTagKind::WineGe => !contains_seq(name, seq!['L', 'o', 'L']),
    }
}

/// The name that the latest-tag selection has picked after looking at the
/// names before `i`: kept names with a derivable version, the greatest
/// derived version winning and the last name winning ties.
pub open spec fn select_from(
    names: Seq<Seq<char>>,
    wk: WineTagKind,
    i: int,
    best: Option<Seq<char>>,
) -> Option<Seq<char>>
    decreases names.len() - i,
{
    if i < 0 || i >= names.len() {
        best
    } else {
        let keep = wine_kind_keeps(names[i], wk) && semver_of(names[i]) is Some && (match best {
            Some(b) => opt_lex_cmp(semver_of(b), semver_of(names[i]))
                != core::cmp::Ordering::Greater,
            None => true,
        });
        select_from(names, wk, i + 1, if keep {
            Some(names[i])
        } else {
            best
        })
    }
}

/// The name of the latest tag among the given names for a Wine
/// sub-variant.
pub open spec fn selected_latest(names: Seq<Seq<char>>, wk: WineTagKind) -> Option<Seq<char>> {
    select_from(names, wk, 0, None)
}

/// The views of a vector of tag names.
pub open spec fn names_view(ns: Seq<String>) -> Seq<Seq<char>> {
    Seq::new(ns.len(), |i: int| ns[i]@)
}

/// Picks the latest tag of the Wine sub-variant from one page of tag
/// names: names of the other sub-variant and names with no derivable
/// version are discarded, and the greatest derived version wins, the
/// later name winning ties.
pub fn select_latest_tag(names: &Vec<String>, wine_kind: &WineTagKind) -> (r: Option<Tag>)
    ensures
        match r {
            Some(t) => ({
                let s = selected_latest(names_view(names@), *wine_kind);
                s is Some && t.spec_value() == s->0 && t.wf()
            }),
            None => selected_latest(names_view(names@), *wine_kind) is None,
        },
{
    let ghost nv = names_view(names@);
    let mut lol_pat: Vec<char> = Vec::new();
    lol_pat.push('L');
    lol_pat.push('o');
    lol_pat.push('L');
    proof {
        assert(lol_pat@ =~= seq!['L', 'o', 'L']);
    }
    let mut best: Option<Tag> = None;
    let mut i: usize = 0;
    while i < names.len()
        invariant
            i <= names@.len(),
            nv == names_view(names@),
            lol_pat@ == seq!['L', 'o', 'L'],
            match best {
                Some(b) => b.wf() && selected_latest(nv, *wine_kind) == select_from(
                    nv,
                    *wine_kind,
                    i as int,
                    Some(b.spec_value()),
                ),
                None => selected_latest(nv, *wine_kind) == select_from(
                    nv,
                    *wine_kind,
                    i as int,
                    None,
                ),
            },
        decreases names@.len() - i,
    {
        let name_chars = crate::text::chars_vec(names[i].as_str());
        proof {
            assert(nv[i as int] == names@[i as int]@);
        }
        let has_lol = crate::text::contains_chars(&name_chars, &lol_pat);
        let kept_kind: bool = match wine_kind {
            WineTagKind::LolWineGe => has_lol,
            WineTagKind::WineGe => !has_lol,
        };
        if kept_kind {
            let candidate = Tag::new(names[i].as_str());
            if candidate.semver().is_some() {
                let take: bool = match &best {
                    Some(b) => {
                        let o = Tag::compare_semver(b, &candidate);
                        !matches!(o, core::cmp::Ordering::Greater)
                    },
                    None => true,
                };
                if take {
                    best = Some(candidate);
                }
            }
        }
        i = i + 1;
    }
    best
}

/// Resolves and downloads releases through an injected transport.
pub struct GeDownloader<D: GithubDownload> {
    github_downloader: D,
}

/// The address asked for the latest Proton release.
pub open spec fn proton_latest_url() -> Seq<char> {
    "https://api.github.com/repos/GloriousEggroll/proton-ge-custom/releases/latest"@
}

/// The address asked for one Proton release, up to its tag.
pub open spec fn proton_tag_url_base() -> Seq<char> {
    "https://api.github.com/repos/GloriousEggroll/proton-ge-custom/releases/tags/"@
}

/// The address asked for one Wine release, up to its tag.
pub open spec fn wine_tag_url_base() -> Seq<char> {
    "https://api.github.com/repos/GloriousEggroll/wine-ge-custom/releases/tags/"@
}

/// The address asked for one page of the Wine tag list, without the page
/// number.
pub open spec fn wine_tags_url_base() -> Seq<char> {
    "https://api.github.com/repos/GloriousEggroll/wine-ge-custom/tags?page="@
}

impl<D: GithubDownload> GeDownloader<D> {
    /// A resolver fetching through the given transport.
    pub fn new(github_downloader: D) -> (r: GeDownloader<D>) {
        GeDownloader { github_downloader }
    }

    /// The address of one page of the Wine tag list.
    fn create_wine_ge_tags_url(&self, page: usize) -> (r: String)
        ensures
            r@ == wine_tags_url_base() + crate::label::dec_digits(page as int),
    {
        let mut url =
            "https://api.github.com/repos/GloriousEggroll/wine-ge-custom/tags?page=".to_owned();
        let digits = crate::label::render_usize(page);
        url.append(digits.as_str());
        url
    }

    /// Walks the Wine tag list page by page and returns the latest tag of
    /// the sub-variant; an empty page before any candidate is found means
    /// there are no tags.  What comes back has a derivable version.
    pub fn find_latest_wine_ge_release_tag(&self, kind: &WineTagKind) -> (r: Result<
        Tag,
        GithubError,
    >)
        ensures
            r matches Ok(t) ==> t.wf() && t.spec_semver() is Some,
    {
        let mut page: usize = 1;
        loop
            invariant
                page >= 1,
            decreases usize::MAX - page,
        {
            let url = self.create_wine_ge_tags_url(page);
            let names = match self.github_downloader.fetch_tag_names(url.as_str()) {
                Ok(ns) => ns,
                Err(e) => {
                    return Err(e);
                },
            };
            if names.len() == 0 {
                return Err(GithubError::NoTags);
            }
            match select_latest_tag(&names, kind) {
                Some(t) => {
                    proof {
                        lemma_selected_has_semver(names_view(names@), *kind, 0, None);
                    }
                    return Ok(t);
                },
                None => {},
            }
            if page == usize::MAX {
                return Err(GithubError::NoTags);
            }
            page = page + 1;
        }
    }

    /// The address that resolves the request: a tagged release's address,
    /// Proton's latest-release address, or the address of the latest Wine
    /// tag found by the paginated scan.
    fn create_url(&self, tag: Option<&String>, kind: &TagKind) -> (r: Result<String, GithubError>)
        ensures
            r matches Ok(u) ==> match (tag, kind) {
                (Some(t), TagKind::Proton) => u@ == proton_tag_url_base() + t@,
                (None, TagKind::Proton) => u@ == proton_latest_url(),
                (Some(t), TagKind::Wine { .. }) => u@ == wine_tag_url_base() + t@,
                (None, TagKind::Wine { .. }) => exists|s: Seq<char>|
                    u@ == wine_tag_url_base() + s && semver_of(s) is Some,
            },
    {
        match kind {
            TagKind::Proton => {
                match tag {
                    Some(t) => {
                        let mut url =
                            "https://api.github.com/repos/GloriousEggroll/proton-ge-custom/releases/tags/".to_owned();
                        url.append(t.as_str());
                        Ok(url)
                    },
                    None => Ok(
                        "https://api.github.com/repos/GloriousEggroll/proton-ge-custom/releases/latest".to_owned(),
                    ),
                }
            },
            TagKind::Wine { kind: wine_kind } => {
                match tag {
                    Some(t) => {
                        let mut url =
                            "https://api.github.com/repos/GloriousEggroll/wine-ge-custom/releases/tags/".to_owned();
                        url.append(t.as_str());
                        Ok(url)
                    },
                    None => {
                        match self.find_latest_wine_ge_release_tag(wine_kind) {
                            Ok(t) => {
                                let mut url =
                                    "https://api.github.com/repos/GloriousEggroll/wine-ge-custom/releases/tags/".to_owned();
                                url.append(t.value().as_str());
                                proof {
                                    assert(url@ == wine_tag_url_base() + t.spec_value()
                                        && semver_of(t.spec_value()) is Some);
                                }
                                Ok(url)
                            },
                            Err(e) => Err(e),
                        }
                    },
                }
            },
        }
    }
}

/// Decides whether a fetched release can serve a request: the archive
/// asset, and the checksum asset unless verification is skipped, both
/// classified by content type.  A release with no assets, or one missing
/// a required asset type, is exactly the explicit no-assets error, which
/// carries the release's tag and the request's kind.
pub fn required_assets<'a>(release: &'a GeRelease, kind: TagKind, skip_checksum: bool) -> (r:
    Result<(&'a crate::response::GeAsset, Option<&'a crate::response::GeAsset>), GithubError>)
    ensures
        ({
            let av = release.assets@;
            let ft = first_tar_idx(av, 0);
            let fc = first_checksum_idx(av, 0);
            match r {
                Ok(pair) => {
                    &&& av.len() > 0
                    &&& ft is Some
                    &&& *pair.0 == av[ft->0]
                    &&& match pair.1 {
                        Some(c) => !skip_checksum && fc is Some && *c == av[fc->0],
                        None => skip_checksum,
                    }
                },
                Err(e) => {
                    &&& (av.len() == 0 || ft is None || (!skip_checksum && fc is None))
                    &&& e matches GithubError::ReleaseHasNoAssets { tag, kind: k2 } && tag@
                        == release.tag_name@ && k2 == kind
                },
            }
        }),
{
    if release.assets.len() == 0 {
        return Err(GithubError::ReleaseHasNoAssets { tag: release.tag_name.clone(), kind });
    }
    let tar = match release.find_tar_asset() {
        Some(a) => a,
        None => {
            return Err(GithubError::ReleaseHasNoAssets { tag: release.tag_name.clone(), kind });
        },
    };
    let checksum: Option<&crate::response::GeAsset> = if skip_checksum {
        None
    } else {
        match release.find_checksum_asset() {
            Some(a) => Some(a),
            None => {
                return Err(
                    GithubError::ReleaseHasNoAssets { tag: release.tag_name.clone(), kind },
                );
            },
        }
    };
    Ok((tar, checksum))
}

/// Builds the downloaded assets of a release: the release's tag, the
/// archive bytes under the archive asset's name, and the checksum text,
/// when one was fetched, under the checksum asset's name.
pub fn assemble_assets(release: GeRelease, tar_bytes: Vec<u8>, checksum_text: Option<String>)
    -> (r: DownloadedAssets)
    requires
        first_tar_idx(release.assets@, 0) is Some,
        checksum_text is Some ==> first_checksum_idx(release.assets@, 0) is Some,
    ensures
        ({
            let av = release.assets@;
            let ft = first_tar_idx(av, 0);
            let fc = first_checksum_idx(av, 0);
            &&& r.tag@ == release.tag_name@
            &&& r.compressed_tar.compressed_content@ == tar_bytes@
            &&& r.compressed_tar.file_name@ == av[ft->0].name@
            &&& match (checksum_text, r.checksum) {
                (Some(t), Some(c)) => c.checksum@ == t@ && c.file_name@ == av[fc->0].name@,
                (None, None) => true,
                _ => false,
            }
        }),
{
    let tar_name = release.tar_asset().name.clone();
    let checksum: Option<DownloadedChecksum> = match checksum_text {
        Some(t) => {
            let checksum_name = release.checksum_asset().name.clone();
            Some(DownloadedChecksum::new(t, checksum_name))
        },
        None => None,
    };
    let tar = DownloadedTar::new(tar_bytes, tar_name);
    DownloadedAssets::new(release.tag_name, tar, checksum)
}

/// A selection that picked a name picked one with a derivable version.
proof fn lemma_selected_has_semver(
    names: Seq<Seq<char>>,
    wk: WineTagKind,
    i: int,
    best: Option<Seq<char>>,
)
    requires
        match best {
            Some(b) => semver_of(b) is Some,
            None => true,
        },
    ensures
        match select_from(names, wk, i, best) {
            Some(s) => semver_of(s) is Some,
            None => true,
        },
    decreases names.len() - i,
{
    if 0 <= i < names.len() {
        let keep = wine_kind_keeps(names[i], wk) && semver_of(names[i]) is Some && (match best {
            Some(b) => opt_lex_cmp(semver_of(b), semver_of(names[i]))
                != core::cmp::Ordering::Greater,
            None => true,
        });
        if keep {
            lemma_selected_has_semver(names, wk, i + 1, Some(names[i]));
        } else {
            lemma_selected_has_semver(names, wk, i + 1, best);
        }
    }
}

impl<D: GithubDownload> GeDownload for GeDownloader<D> {
    /// Asks the transport for the release the tag and kind resolve to.
    fn fetch_release(&self, tag: Option<String>, kind: TagKind) -> Result<GeRelease, GithubError> {
        let url = match self.create_url(tag.as_ref(), &kind) {
            Ok(u) => u,
            Err(e) => {
                return Err(e);
            },
        };
        self.github_downloader.fetch_release_json(url.as_str())
    }

    /// Downloads a release's archive, and its checksum text unless the
    /// request skips verification.  Which assets serve the request, and
    /// that a release with no usable assets is an explicit error, is
    /// decided by `required_assets`; the result is put together by
    /// `assemble_assets`, carrying the release's tag and the fetched
    /// bytes.
    fn download_release(&self, request: DownloadRequest) -> (r: Result<
        DownloadedAssets,
        GithubError,
    >) {
        let DownloadRequest { tag, kind, skip_checksum } = request;
        let release = match self.fetch_release(tag, kind) {
            Ok(r) => r,
            Err(e) => {
                return Err(e);
            },
        };
        let (tar_url, checksum_url) = match required_assets(&release, kind, skip_checksum) {
            Ok((tar, checksum)) => {
                let tar_url = tar.browser_download_url.clone();
                let checksum_url: Option<String> = match checksum {
                    Some(c) => Some(c.browser_download_url.clone()),
                    None => None,
                };
                (tar_url, checksum_url)
            },
            Err(e) => {
                return Err(e);
            },
        };
        let checksum_text: Option<String> = match checksum_url {
            Some(url) => {
                match self.github_downloader.fetch_text(url.as_str()) {
                    Ok(t) => Some(t),
                    Err(e) => {
                        return Err(e);
                    },
                }
            },
            None => None,
        };
        let bytes = match self.github_downloader.fetch_binary(tar_url.as_str()) {
            Ok(b) => b,
            Err(e) => {
                return Err(e);
            },
        };
        Ok(assemble_assets(release, bytes, checksum_text))
    }
}

} // verus!
