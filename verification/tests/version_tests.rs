use ge_man::label::Label;
use ge_man::tag::{Tag, TagKind};
use ge_man::version::{Version, Versioned};

#[test]
fn new() {
    let tag = "6.20-GE-1";
    let version = Version::new(Some(Label::new(tag).unwrap()), tag, TagKind::Proton);
    assert_eq!(version.tag(), &Tag::new(tag));
    assert_eq!(version.kind(), &TagKind::Proton);
}

#[test]
fn proton() {
    let tag = "6.20-GE-1";
    let label = Label::new(tag).unwrap();
    let version = Version::proton(Some(label), tag);
    assert_eq!(version.tag(), &Tag::new(tag));
    assert_eq!(version.kind(), &TagKind::Proton);
}

#[test]
fn version_wine() {
    let tag = "6.20-GE-1";
    let label = Label::new(tag).unwrap();
    let version = Version::wine(Some(label), tag);
    assert_eq!(version.tag(), &Tag::new(tag));
    assert_eq!(version.kind(), &TagKind::wine());
}

#[test]
fn version_lol() {
    let tag = "6.16-GE-3-LoL";
    let label = Label::new(tag).unwrap();
    let version = Version::lol(Some(label), tag);
    assert_eq!(version.tag(), &Tag::new(tag));
    assert_eq!(version.kind(), &TagKind::lol());
}
