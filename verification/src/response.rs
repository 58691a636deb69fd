//! The shapes that the remote release API answers with, reduced to plain
//! values: releases, their assets, and downloaded contents.
use vstd::prelude::*;

verus! {

/// A downloaded compressed tar archive.
#[derive(Debug)]
pub struct DownloadedTar {
    pub compressed_content: Vec<u8>,
    pub file_name: String,
}

impl DownloadedTar {
    /// A downloaded archive of the given content and file name.
    pub fn new(compressed_content: Vec<u8>, file_name: String) -> (r: DownloadedTar)
        ensures
            r.compressed_content@ == compressed_content@,
            r.file_name@ == file_name@,
    {
        DownloadedTar { compressed_content, file_name }
    }
}

/// A downloaded checksum text.
#[derive(Debug)]
pub struct DownloadedChecksum {
    pub checksum: String,
    pub file_name: String,
}

impl DownloadedChecksum {
    /// A downloaded checksum of the given text and file name.
    pub fn new(checksum: String, file_name: String) -> (r: DownloadedChecksum)
        ensures
            r.checksum@ == checksum@,
            r.file_name@ == file_name@,
    {
        DownloadedChecksum { checksum, file_name }
    }
}

/// Everything downloaded for one release: its tag, the archive, and the
/// checksum unless verification was skipped.
#[derive(Debug)]
pub struct DownloadedAssets {
    pub tag: String,
    pub compressed_tar: DownloadedTar,
    pub checksum: Option<DownloadedChecksum>,
}

impl DownloadedAssets {
    /// The downloaded assets of a release.
    pub fn new(tag: String, compressed_tar: DownloadedTar, checksum: Option<DownloadedChecksum>)
        -> (r: DownloadedAssets)
        ensures
            r.tag@ == tag@,
            r.compressed_tar == compressed_tar,
            r.checksum == checksum,
    {
        DownloadedAssets { tag, compressed_tar, checksum }
    }
}

/// One asset of a release: its name, content type and download address.
#[derive(Debug)]
pub struct GeAsset {
    pub name: String,
    pub content_type: String,
    pub browser_download_url: String,
}

impl GeAsset {
    /// An asset of the given name, content type and address.
    pub fn new(name: &str, content_type: &str, browser_download_url: &str) -> (r: GeAsset)
        ensures
            r.name@ == name@,
            r.content_type@ == content_type@,
            r.browser_download_url@ == browser_download_url@,
    {
        GeAsset {
            name: name.to_owned(),
            content_type: content_type.to_owned(),
            browser_download_url: browser_download_url.to_owned(),
        }
    }
}

impl Clone for GeAsset {
    /// An identical copy of the asset.
    fn clone(&self) -> (r: Self)
        ensures
            r == *self,
    {
        GeAsset {
            name: self.name.clone(),
            content_type: self.content_type.clone(),
            browser_download_url: self.browser_download_url.clone(),
        }
    }
}

/// A checksum asset answers with the octet-stream content type.
pub open spec fn is_checksum_asset(a: GeAsset) -> bool {
    a.content_type@ == "application/octet-stream"@
}

/// An archive asset answers with the gzip or xz content type; the file
/// extension plays no part.
pub open spec fn is_tar_asset(a: GeAsset) -> bool {
    a.content_type@ == "application/gzip"@ || a.content_type@ == "application/x-xz"@
}

/// The first index at or past `i` of an asset the predicate-selecting
/// scan for checksums accepts.
pub open spec fn first_checksum_idx(assets: Seq<GeAsset>, i: int) -> Option<int>
    decreases assets.len() - i,
{
    if i < 0 || i >= assets.len() {
        None
    } else if is_checksum_asset(assets[i]) {
        Some(i)
    } else {
        first_checksum_idx(assets, i + 1)
    }
}

/// The first index at or past `i` of an archive asset.
pub open spec fn first_tar_idx(assets: Seq<GeAsset>, i: int) -> Option<int>
    decreases assets.len() - i,
{
    if i < 0 || i >= assets.len() {
        None
    } else if is_tar_asset(assets[i]) {
        Some(i)
    } else {
        first_tar_idx(assets, i + 1)
    }
}

/// One release of the remote API: its tag and its assets.
#[derive(Debug)]
pub struct GeRelease {
    pub tag_name: String,
    pub assets: Vec<GeAsset>,
}

impl GeRelease {
    /// A release of the given tag and assets.
    pub fn new(tag_name: String, assets: Vec<GeAsset>) -> (r: GeRelease)
        ensures
            r.tag_name@ == tag_name@,
            r.assets@ == assets@,
    {
        GeRelease { tag_name, assets }
    }

    /// The first checksum asset, classified by content type, if any.
    pub fn find_checksum_asset(&self) -> (r: Option<&GeAsset>)
        ensures
            match r {
                Some(a) => ({
                    let fc = first_checksum_idx(self.assets@, 0);
                    fc is Some && *a == self.assets@[fc->0]
                }),
                None => first_checksum_idx(self.assets@, 0) is None,
            },
    {
        let mut i: usize = 0;
        while i < self.assets.len()
            invariant
                i <= self.assets@.len(),
                first_checksum_idx(self.assets@, 0) == first_checksum_idx(
                    self.assets@,
                    i as int,
                ),
            decreases self.assets@.len() - i,
        {
            if crate::text::str_eq(self.assets[i].content_type.as_str(), "application/octet-stream") {
                return Some(&self.assets[i]);
            }
            i = i + 1;
        }
        None
    }

    /// The first archive asset, classified by content type, if any.
    pub fn find_tar_asset(&self) -> (r: Option<&GeAsset>)
        ensures
            match r {
                Some(a) => ({
                    let ft = first_tar_idx(self.assets@, 0);
                    ft is Some && *a == self.assets@[ft->0]
                }),
                None => first_tar_idx(self.assets@, 0) is None,
            },
    {
        let mut i: usize = 0;
        while i < self.assets.len()
            invariant
                i <= self.assets@.len(),
                first_tar_idx(self.assets@, 0) == first_tar_idx(self.assets@, i as int),
            decreases self.assets@.len() - i,
        {
            if crate::text::str_eq(self.assets[i].content_type.as_str(), "application/gzip")
                || crate::text::str_eq(self.assets[i].content_type.as_str(), "application/x-xz") {
                return Some(&self.assets[i]);
            }
            i = i + 1;
        }
        None
    }

    /// The release's checksum asset; the release must have one.
    pub fn checksum_asset(&self) -> (r: &GeAsset)
        requires
            first_checksum_idx(self.assets@, 0) is Some,
        ensures
            *r == self.assets@[first_checksum_idx(self.assets@, 0)->0],
    {
        match self.find_checksum_asset() {
            Some(a) => a,
            None => &self.assets[0],
        }
    }

    /// The release's archive asset; the release must have one.
    pub fn tar_asset(&self) -> (r: &GeAsset)
        requires
            first_tar_idx(self.assets@, 0) is Some,
        ensures
            *r == self.assets@[first_tar_idx(self.assets@, 0)->0],
    {
        match self.find_tar_asset() {
            Some(a) => a,
            None => &self.assets[0],
        }
    }
}

/// One tag of the remote tag list.
#[derive(Debug)]
pub struct CompatibilityToolTag {
    pub name: String,
}

} // verus!
