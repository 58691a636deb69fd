use ge_man::tag::{Tag, TagKind, WineTagKind};

#[test]
fn tag_wine() {
    let kind = TagKind::wine();
    assert_eq!(
        kind,
        TagKind::Wine {
            kind: WineTagKind::WineGe
        }
    )
}

#[test]
fn tag_lol() {
    let kind = TagKind::lol();
    assert_eq!(
        kind,
        TagKind::Wine {
            kind: WineTagKind::LolWineGe
        }
    );
}

#[test]
fn values() {
    let values = TagKind::values();
    assert_eq!(
        values,
        vec![
            TagKind::Proton,
            TagKind::Wine {
                kind: WineTagKind::WineGe
            },
            TagKind::Wine {
                kind: WineTagKind::LolWineGe
            },
        ]
    );
}

#[test]
fn get_semver_format() {
    let cases = vec![
        ("6.20-GE-1", Some("6.20.1")),
        ("6.20-GE-0", Some("6.20.0")),
        ("6.20-GE", Some("6.20.0")),
        ("6.16-GE-3-LoL", Some("6.16.3-LoL")),
        ("6.16-2-GE-LoL", Some("6.16.2-LoL")),
        ("6.16-GE-LoL", Some("6.16.0-LoL")),
        ("6.16-GE-0-LoL", Some("6.16.0-LoL")),
        ("6.16-0-GE-LoL", Some("6.16.0-LoL")),
        ("7.0rc3-GE-1", Some("7.0.1-rc3")),
        ("7.0rc3-GE-0", Some("7.0.0-rc3")),
        ("7.0rc3-GE", Some("7.0.0-rc3")),
        ("7.0-GE", Some("7.0.0")),
        ("7.0-GE-1", Some("7.0.1")),
        ("GE-Proton7-8", Some("7.8.0")),
        ("GE-Proton7-4", Some("7.4.0")),
        ("5.11-GE-1-MF", Some("5.11.1-MF")),
        ("proton-3.16-5", Some("3.16.5")),
        ("5.0-rc5-GE-1", Some("5.0.1-rc5")),
    ];
    for (raw, expected) in cases {
        let tag = Tag::new(raw);
        assert_eq!(tag.semver().map(|s| s.as_str()), expected, "tag {}", raw);
    }
}

#[test]
fn unparsable_release_candidate_tag_has_no_semver() {
    let tag = Tag::new("rc-GE");
    assert_eq!(tag.semver(), None);
}

#[test]
fn compare_semver_is_plain_string_order() {
    let nine = Tag::new("9.0-GE");
    let ten = Tag::new("10.0-GE");
    assert_eq!(nine.semver().unwrap(), "9.0.0");
    assert_eq!(ten.semver().unwrap(), "10.0.0");
    assert_eq!(Tag::compare_semver(&ten, &nine), std::cmp::Ordering::Less);
    assert_eq!(Tag::compare_semver(&nine, &nine), std::cmp::Ordering::Equal);
    assert_eq!(
        Tag::compare_semver(&Tag::new("6.20-GE-1"), &Tag::new("6.19-GE-2")),
        std::cmp::Ordering::Greater
    );
}

#[test]
fn kind_names_round_trip_through_from_str() {
    assert!(matches!(TagKind::from_str("Proton"), Ok(TagKind::Proton)));
    assert!(matches!(
        TagKind::from_str("Wine"),
        Ok(TagKind::Wine { kind: WineTagKind::WineGe })
    ));
    assert!(matches!(
        TagKind::from_str("LoL_Wine"),
        Ok(TagKind::Wine { kind: WineTagKind::LolWineGe })
    ));
    assert!(TagKind::from_str("bogus").is_err());
}

#[test]
fn empty_tag_still_derives_a_version() {
    let tag = Tag::new("");
    assert_eq!(tag.semver().unwrap(), "0.0.0");
}

#[test]
fn leading_release_candidate_run_is_recognized() {
    let tag = Tag::new("rc2-5");
    assert_eq!(tag.semver().unwrap(), "5.0.0-rc2");
}
