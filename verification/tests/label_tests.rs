use ge_man::label::Label;

#[test]
fn create_latest_version_label_should_return_label_with_highest_copy_counter_on_end() {
    let labels = vec![
        Label::new("GE-Proton7-22_1").unwrap(),
        Label::new("GE-Proton7-22_2").unwrap(),
        Label::new("GE-Proton7-22_3").unwrap(),
    ];
    let tag = "GE-Proton7-22";
    assert_eq!(
        Label::create_latest_version_label(tag, labels).unwrap(),
        Label::new("GE-Proton7-22_4").unwrap()
    )
}

#[test]
fn first_duplicate_gets_counter_one() {
    let labels = vec![Label::new("GE-Proton7-22").unwrap()];
    let tag = "GE-Proton7-22";
    assert_eq!(
        Label::create_latest_version_label(tag, labels).unwrap(),
        Label::new("GE-Proton7-22_1").unwrap()
    )
}

#[test]
fn over_long_label_is_rejected() {
    let long = "x".repeat(101);
    assert!(Label::new(long.as_str()).is_err());
    assert!(Label::new("short").is_ok());
}
