use ge_man::download::{select_latest_tag, DownloadRequest};
use ge_man::tag::{TagKind, WineTagKind};
use ge_man::version::Versioned;

#[test]
fn latest_wine_tag_skips_lol_builds() {
    let names: Vec<String> = vec![
        "6.20-GE-1".to_string(),
        "6.16-GE-3-LoL".to_string(),
        "6.19-GE-2".to_string(),
    ];
    let tag = select_latest_tag(&names, &WineTagKind::WineGe).unwrap();
    assert_eq!(tag.value().as_str(), "6.20-GE-1");
}

#[test]
fn latest_lol_tag_takes_only_lol_builds() {
    let names: Vec<String> = vec![
        "6.20-GE-1".to_string(),
        "6.16-GE-3-LoL".to_string(),
        "6.16-GE-2-LoL".to_string(),
    ];
    let tag = select_latest_tag(&names, &WineTagKind::LolWineGe).unwrap();
    assert_eq!(tag.value().as_str(), "6.16-GE-3-LoL");
}

#[test]
fn no_candidate_means_no_tag() {
    let names: Vec<String> = vec!["6.16-GE-3-LoL".to_string()];
    assert!(select_latest_tag(&names, &WineTagKind::WineGe).is_none());
}

#[test]
fn download_request_carries_its_parts() {
    let request = DownloadRequest::new(Some("6.20-GE-1".to_string()), TagKind::Proton, true);
    assert_eq!(request.tag, Some("6.20-GE-1".to_string()));
    assert_eq!(request.kind, TagKind::Proton);
    assert!(request.skip_checksum);
}
