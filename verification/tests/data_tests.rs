use ge_man::data::{ManagedVersion, ManagedVersions};
use ge_man::tag::{Tag, TagKind};
use ge_man::version::{Version, Versioned};

fn fixture_versions() -> Vec<ManagedVersion> {
    vec![
        ManagedVersion::from(Version::proton(None, "6.20-GE-1")),
        ManagedVersion::from(Version::proton(None, "6.19-GE-2")),
        ManagedVersion::from(Version::wine(None, "6.20-GE-1")),
        ManagedVersion::from(Version::wine(None, "6.19-GE-2")),
        ManagedVersion::from(Version::lol(None, "6.16-GE-3-LoL")),
        ManagedVersion::from(Version::lol(None, "6.16-2-GE-Lol")),
    ]
}

#[test]
fn latest_by_kind() {
    let managed_versions = ManagedVersions::new(fixture_versions());
    let latest_proton = managed_versions.find_latest_by_kind(&TagKind::Proton).unwrap();
    let latest_wine = managed_versions.find_latest_by_kind(&TagKind::wine()).unwrap();
    let latest_lol = managed_versions.find_latest_by_kind(&TagKind::lol()).unwrap();
    assert_eq!(
        latest_proton,
        ManagedVersion::new("6.20-GE-1", "6.20-GE-1", TagKind::Proton, "")
    );
    assert_eq!(
        latest_wine,
        ManagedVersion::new("6.20-GE-1", "6.20-GE-1", TagKind::wine(), "")
    );
    assert_eq!(
        latest_lol,
        ManagedVersion::new("6.16-GE-3-LoL", "6.16-GE-3-LoL", TagKind::lol(), "")
    );
}

#[test]
fn latest_versions() {
    let managed_versions = ManagedVersions::new(fixture_versions());
    let result = managed_versions.latest_versions();
    assert_eq!(
        result,
        vec![
            ManagedVersion::new("6.20-GE-1", "6.20-GE-1", TagKind::Proton, ""),
            ManagedVersion::new("6.20-GE-1", "6.20-GE-1", TagKind::wine(), ""),
            ManagedVersion::new("6.16-GE-3-LoL", "6.16-GE-3-LoL", TagKind::lol(), ""),
        ]
    );
}

#[test]
fn add() {
    let mut managed_versions = ManagedVersions::default();
    let version = ManagedVersion::from(Version::proton(None, "6.20-GE-1"));
    managed_versions.add(version);
    assert!(managed_versions.find_version(&Version::proton(None, "6.20-GE-1")).is_some());
}

#[test]
fn data_remove_existing_version() {
    let version = ManagedVersion::from(Version::proton(None, "6.20-GE-1"));
    let mut managed_versions = ManagedVersions::new(vec![version]);
    managed_versions.remove(&Version::proton(None, "6.20-GE-1")).unwrap();
    assert!(!managed_versions.find_version(&Version::proton(None, "6.20-GE-1")).is_some());
    assert!(managed_versions.vec_mut().is_empty());
}

#[test]
fn remove_version_that_does_not_exist() {
    let mut managed_versions = ManagedVersions::default();
    let option = managed_versions.remove(&Version::proton(None, "6.20-GE-1"));
    assert_eq!(option, None);
}

#[test]
fn has_version() {
    let version = ManagedVersion::from(Version::proton(None, "6.19-GE-1"));
    let managed_versions = ManagedVersions::new(vec![version]);
    assert!(!managed_versions.find_version(&Version::proton(None, "6.20-GE-1")).is_some());
    assert!(managed_versions.find_version(&Version::proton(None, "6.19-GE-1")).is_some());
}

#[test]
fn duplicate_add_synthesizes_counter_labels() {
    let mut managed_versions = ManagedVersions::default();
    let first = managed_versions.add(ManagedVersion::new("6.20-GE-1", "6.20-GE-1", TagKind::Proton, "a"));
    assert_eq!(first.label().unwrap().str(), "6.20-GE-1");
    let second = managed_versions.add(ManagedVersion::new("6.20-GE-1", "6.20-GE-1", TagKind::Proton, "b"));
    assert_eq!(second.label().unwrap().str(), "6.20-GE-1_1");
    let third = managed_versions.add(ManagedVersion::new("6.20-GE-1", "6.20-GE-1_1", TagKind::Proton, "c"));
    assert_eq!(third.label().unwrap().str(), "6.20-GE-1_2");
    assert_eq!(managed_versions.len(), 3);
    assert_eq!(managed_versions.vec_ref()[0].directory_name(), "a");
}

#[test]
fn end_to_end_latest_and_versions_before() {
    let managed_versions = ManagedVersions::new(vec![
        ManagedVersion::new("6.19-GE-1", "6.19-GE-1", TagKind::Proton, "Proton-6.19-GE-1"),
        ManagedVersion::new("6.20-GE-1", "6.20-GE-1", TagKind::Proton, "Proton-6.20-GE-1"),
        ManagedVersion::new("6.21-GE-2", "6.21-GE-2", TagKind::Proton, "Proton-6.21-GE-2"),
    ]);
    let latest = managed_versions.find_latest_by_kind(&TagKind::Proton).unwrap();
    assert_eq!(latest.tag().value().as_str(), "6.21-GE-2");
    let before = managed_versions
        .versions_before(&Version::proton(None, "6.21-GE-2"))
        .unwrap();
    assert_eq!(before.len(), 2);
    assert_eq!(before.vec_ref()[0].tag().value().as_str(), "6.19-GE-1");
    assert_eq!(before.vec_ref()[1].tag().value().as_str(), "6.20-GE-1");
}

#[test]
fn versions_in_range_is_inclusive_and_rejects_bad_ranges() {
    let managed_versions = ManagedVersions::new(vec![
        ManagedVersion::new("6.19-GE-1", "6.19-GE-1", TagKind::Proton, ""),
        ManagedVersion::new("6.20-GE-1", "6.20-GE-1", TagKind::Proton, ""),
        ManagedVersion::new("6.21-GE-2", "6.21-GE-2", TagKind::Proton, ""),
    ]);
    let in_range = managed_versions
        .versions_in_range(&Version::proton(None, "6.19-GE-1"), &Version::proton(None, "6.20-GE-1"))
        .unwrap();
    assert_eq!(in_range.len(), 2);
    let reversed = managed_versions
        .versions_in_range(&Version::proton(None, "6.20-GE-1"), &Version::proton(None, "6.19-GE-1"));
    assert!(reversed.is_err());
}

#[test]
fn latest_falls_back_to_raw_tag_when_no_version_derives() {
    let managed_versions = ManagedVersions::new(vec![
        ManagedVersion::new("6.20-GE-1", "6.20-GE-1", TagKind::Proton, ""),
        ManagedVersion::new("rc-GE", "rc-GE", TagKind::Proton, ""),
    ]);
    assert_eq!(Tag::new("rc-GE").semver(), None);
    let latest = managed_versions.find_latest_by_kind(&TagKind::Proton).unwrap();
    assert_eq!(latest.tag().value().as_str(), "rc-GE");
}
