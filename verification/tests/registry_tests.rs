use ge_man::data::{ManagedVersion, ManagedVersions};
use ge_man::registry::RegistryError;
use ge_man::tag::TagKind;
use ge_man::version::Version;
use ge_man::version::Versioned;

#[test]
fn registry_round_trip_preserves_every_entry() {
    let versions = ManagedVersions::new(vec![
        ManagedVersion::new("6.20-GE-1", "6.20-GE-1", TagKind::Proton, "Proton-6.20-GE-1"),
        ManagedVersion::new("6.16-GE-3-LoL", "my \"label\"", TagKind::lol(), "Wine-6.16-GE-3-LoL"),
        ManagedVersion::new("6.19-GE-2", "back\\slash", TagKind::wine(), "Wine-6.19-GE-2"),
    ]);
    let json = versions.to_registry_json();
    let read = ManagedVersions::from_file_content(Some(json.as_str())).unwrap();
    assert_eq!(read, versions);
    assert_eq!(read.len(), 3);
    for i in 0..3 {
        let a = &read.vec_ref()[i];
        let b = &versions.vec_ref()[i];
        assert_eq!(a.tag().value(), b.tag().value());
        assert_eq!(a.tag().semver(), b.tag().semver());
        assert_eq!(a.directory_name(), b.directory_name());
        assert_eq!(a.label().map(|l| l.str().clone()), b.label().map(|l| l.str().clone()));
    }
    assert_eq!(read.to_registry_json(), json);
}

#[test]
fn absent_file_reads_as_empty_registry() {
    let read = ManagedVersions::from_file_content(None).unwrap();
    assert_eq!(read.len(), 0);
}

#[test]
fn malformed_content_is_a_read_error() {
    let result = ManagedVersions::from_file_content(Some("{"));
    assert!(matches!(result, Err(RegistryError::Malformed)));
    let result2 = ManagedVersions::from_file_content(Some("{\"versions\":[}"));
    assert!(result2.is_err());
}

#[test]
fn empty_registry_renders_and_reads_back() {
    let versions = ManagedVersions::default();
    let json = versions.to_registry_json();
    assert_eq!(json, "{\"versions\":[]}");
    let read = ManagedVersions::from_file_content(Some(json.as_str())).unwrap();
    assert_eq!(read.len(), 0);
}

#[test]
fn entry_without_label_keeps_its_absent_label() {
    let versions = ManagedVersions::new(vec![ManagedVersion::from(Version::proton(None, "6.20-GE-1"))]);
    let json = versions.to_registry_json();
    let read = ManagedVersions::from_file_content(Some(json.as_str())).unwrap();
    assert!(read.vec_ref()[0].label().is_none());
    assert_eq!(read.vec_ref()[0].directory_name(), "");
}
