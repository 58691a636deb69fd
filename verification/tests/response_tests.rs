use ge_man::response::{GeAsset, GeRelease};

#[test]
fn get_checksum_asset() {
    let tag = String::from("6.20-GE-1");
    let assets = vec![
        GeAsset::new("Proton-6.20-GE-1.tar.gz", "application/gzip", "gzip"),
        GeAsset::new("Proton-6.20-GE-1.sha512sum", "application/octet-stream", "octet"),
    ];
    let release = GeRelease::new(tag, assets);
    let checksum_asset = release.checksum_asset();
    assert_eq!(checksum_asset.name, "Proton-6.20-GE-1.sha512sum");
    assert_eq!(checksum_asset.content_type, "application/octet-stream");
    assert_eq!(checksum_asset.browser_download_url, "octet");
}

#[test]
fn get_archive_asset() {
    let tag = String::from("6.20-GE-1");
    let assets = vec![
        GeAsset::new("Proton-6.20-GE-1.tar.gz", "application/gzip", "gzip"),
        GeAsset::new("Proton-6.20-GE-1.sha512sum", "application/octet-stream", "octet"),
    ];
    let release = GeRelease::new(tag, assets);
    let gzip_asset = release.tar_asset();
    assert_eq!(gzip_asset.name, "Proton-6.20-GE-1.tar.gz");
    assert_eq!(gzip_asset.content_type, "application/gzip");
    assert_eq!(gzip_asset.browser_download_url, "gzip");
}

#[test]
fn xz_content_type_is_an_archive_asset() {
    let assets = vec![
        GeAsset::new("wine-lutris-ge.sha512sum", "application/octet-stream", "octet"),
        GeAsset::new("wine-lutris-ge.tar.xz", "application/x-xz", "xz"),
    ];
    let release = GeRelease::new(String::from("6.20-GE-1"), assets);
    assert_eq!(release.tar_asset().name, "wine-lutris-ge.tar.xz");
}

#[test]
fn release_without_required_assets_has_none_to_find() {
    let release = GeRelease::new(String::from("6.20-GE-1"), Vec::new());
    assert!(release.find_checksum_asset().is_none());
    assert!(release.find_tar_asset().is_none());
}
