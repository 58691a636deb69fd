use ge_man::args::{AddArgs, CheckArgs, CopyUserSettingsArgs, ForgetArgs, ListArgs, MigrationArgs};
use ge_man::cli::{setup_clap, ErrorKind};
use ge_man::command_input::{AddCommandInput, CheckCommandInput, GivenVersion, TagArg};
use ge_man::data::ManagedVersions;
use ge_man::tag::{Tag, TagKind};

#[test]
fn args_add_only_one_tag_arg_allowed() {
    let args = vec!["gehelper", "add", "-p", "6.20-GE-1", "-w", "6.20-GE-1"];
    let result = setup_clap().try_get_matches_from(args);
    assert!(result.is_err());
    let err = result.unwrap_err();
    assert_eq!(err.kind(), ErrorKind::ArgumentConflict);
}
#[test]
fn args_add_with_checksum_skip() {
    let args = vec!["gehelper", "add", "-p", "--skip-checksum"];
    let matches = setup_clap().try_get_matches_from(args).unwrap();
    let parsed = AddArgs::from(matches);
    assert!(parsed.tag_arg.tag.is_none());
    assert_eq!(parsed.tag_arg.kind, TagKind::Proton);
    assert_eq!(parsed.skip_checksum, true);
    assert_eq!(parsed.update_config, false);
}
#[test]
fn add_with_update_config() {
    let args = vec!["gehelper", "add", "-p", "--update-config"];
    let matches = setup_clap().try_get_matches_from(args).unwrap();
    let parsed = AddArgs::from(matches);
    assert!(parsed.tag_arg.tag.is_none());
    assert_eq!(parsed.tag_arg.kind, TagKind::Proton);
    assert_eq!(parsed.skip_checksum, false);
    assert_eq!(parsed.update_config, true);
}
#[test]
fn args_add_should_require_one_tag_arg() {
    let args = vec!["gehelper", "add"];
    let result = setup_clap().try_get_matches_from(args);
    assert!(result.is_err());
    let err = result.unwrap_err();
    assert_eq!(err.kind(), ErrorKind::MissingRequiredArgument);
}
#[test]
fn args_remove_only_one_tag_arg_allowed() {
    let args = vec!["gehelper", "rm", "-p", "6.20-GE-1", "-w", "6.20-GE-1"];
    let result = setup_clap().try_get_matches_from(args);
    assert!(result.is_err());
    let err = result.unwrap_err();
    assert_eq!(err.kind(), ErrorKind::ArgumentConflict);
}
#[test]
fn args_remove_should_require_a_tag_argument() {
    let args = vec!["gehelper", "rm"];
    let result = setup_clap().try_get_matches_from(args);
    assert!(result.is_err());
    let err = result.unwrap_err();
    assert_eq!(err.kind(), ErrorKind::MissingRequiredArgument);
}
#[test]
fn args_check_without_args_should_not_throw_error() {
    let args = vec!["gehelper", "check"];
    let matches = setup_clap().try_get_matches_from(args).unwrap();
    let parsed = CheckArgs::from(matches);
    assert_eq!(parsed.kind, CheckArgs::default().kind);
}
#[test]
fn args_check_only_one_tag_arg_allowed() {
    let args = vec!["gehelper", "check", "-p", "-w"];
    let result = setup_clap().try_get_matches_from(args);
    assert!(result.is_err());
    let err = result.unwrap_err();
    assert_eq!(err.kind(), ErrorKind::ArgumentConflict);
}
#[test]
fn args_migrate_tag_arg_is_required() {
    let args = vec!["gehelper", "migrate", "-s", "/tmp"];
    let result = setup_clap().try_get_matches_from(args);
    assert!(result.is_err());
    let err = result.unwrap_err();
    assert_eq!(err.kind(), ErrorKind::MissingRequiredArgument);
}
#[test]
fn args_migrate_with_all_required_args() {
    let args = vec!["gehelper", "migrate", "-p", "6.20-GE-1", "-s", "/tmp"];
    let matches = setup_clap().try_get_matches_from(args).unwrap();
    let parsed = MigrationArgs::from(matches);
    assert_eq!(parsed.tag_arg.tag, Some(Tag::from("6.20-GE-1")));
    assert_eq!(parsed.tag_arg.kind, TagKind::Proton);
    assert_eq!(parsed.source_path, "/tmp");
}
#[test]
fn args_migrate_only_one_tag_arg_allowed() {
    let args = vec!["gehelper", "migrate", "-s", "/tmp", "-p", "6.20-GE-1", "-w", "6.20-GE-1"];
    let result = setup_clap().try_get_matches_from(args);
    assert!(result.is_err());
    let err = result.unwrap_err();
    assert_eq!(err.kind(), ErrorKind::ArgumentConflict);
}
#[test]
fn args_apply_missing_required_tag_arg() {
    let args = vec!["gehelper", "apply"];
    let result = setup_clap().try_get_matches_from(args);
    assert!(result.is_err());
    let err = result.unwrap_err();
    assert_eq!(err.kind(), ErrorKind::MissingRequiredArgument);
}
#[test]
fn args_copy_user_settings_with_all_required_args() {
    let args = vec!["gehelper", "user-settings", "copy", "-s", "6.20-GE-1", "-d", "6.21-GE-1"];
    let matches = setup_clap().try_get_matches_from(args).unwrap();
    let parsed = CopyUserSettingsArgs::from(matches);
    let mut expected = CopyUserSettingsArgs::default();
    expected.src_tag = Tag::from("6.20-GE-1");
    expected.dst_tag = Tag::from("6.21-GE-1");
    assert_eq!(parsed.src_tag, expected.src_tag);
    assert_eq!(parsed.dst_tag, expected.dst_tag);
}
#[test]
fn args_copy_user_settings_should_fail_without_destination() {
    let args = vec!["gehelper", "user-settings", "copy", "-s", "6.20-GE-1"];
    let result = setup_clap().try_get_matches_from(args);
    assert!(result.is_err());
    let err = result.unwrap_err();
    assert_eq!(err.kind(), ErrorKind::MissingRequiredArgument);
}
#[test]
fn args_copy_user_settings_should_fail_without_source() {
    let args = vec!["gehelper", "user-settings", "copy", "-d", "6.21-GE-1"];
    let result = setup_clap().try_get_matches_from(args);
    assert!(result.is_err());
    let err = result.unwrap_err();
    assert_eq!(err.kind(), ErrorKind::MissingRequiredArgument);
}
#[test]
fn args_forget_without_kind() {
    let args = vec!["gehelper", "forget"];
    let result = setup_clap().try_get_matches_from(args);
    assert!(result.is_err());
    let err = result.unwrap_err();
    assert_eq!(err.kind(), ErrorKind::MissingRequiredArgument);
}
#[test]
fn args_forget_with_all_required_args() {
    let args = vec!["gehelper", "forget", "-p", "6.20-GE-1"];
    let matches = setup_clap().try_get_matches_from(args).unwrap();
    let parsed = ForgetArgs::from(matches);
    assert_eq!(parsed.tag_arg.tag, Some(Tag::from("6.20-GE-1")));
    assert_eq!(parsed.tag_arg.kind, TagKind::Proton);
}
#[test]
fn list_with_no_args() {
    let args = vec!["gehelper", "list"];
    let matches = setup_clap().try_get_matches_from(args).unwrap();
    let parsed = ListArgs::from(matches);
    assert_eq!(parsed.kind, None);
    assert_eq!(parsed.newest, false);
}
#[test]
fn list_with_latest() {
    let args = vec!["gehelper", "list", "-n"];
    let matches = setup_clap().try_get_matches_from(args).unwrap();
    let parsed = ListArgs::from(matches);
    assert_eq!(parsed.kind, None);
    assert_eq!(parsed.newest, true);
}
#[test]
fn add_only_one_tag_arg_allowed() {
    let args = vec!["geman", "add", "-p", "6.20-GE-1", "-w", "6.20-GE-1"];
    let result = setup_clap().try_get_matches_from(args);
    assert!(result.is_err());
    let err = result.unwrap_err();
    assert_eq!(err.kind(), ErrorKind::ArgumentConflict);
}
#[test]
fn add_with_checksum_skip() {
    let args = vec!["geman", "add", "-p", "--skip-checksum"];
    let matches = setup_clap().try_get_matches_from(args).unwrap();
    let input = AddCommandInput::create_from(&matches, ManagedVersions::default());
    assert_eq!(input.version, GivenVersion::Latest { kind: TagKind::Proton });
    assert_eq!(input.skip_checksum, true);
    assert_eq!(input.managed_versions, ManagedVersions::default());
}
#[test]
fn args_add_with_apply() {
    let args = vec!["geman", "add", "-p", "--apply"];
    let matches = setup_clap().try_get_matches_from(args).unwrap();
    let input = AddCommandInput::create_from(&matches, ManagedVersions::default());
    assert_eq!(input.version, GivenVersion::Latest { kind: TagKind::Proton });
    assert_eq!(input.skip_checksum, false);
    assert!(AddCommandInput::apply_present(&matches));
}
#[test]
fn add_should_require_one_tag_arg() {
    let args = vec!["geman", "add"];
    let result = setup_clap().try_get_matches_from(args);
    assert!(result.is_err());
    let err = result.unwrap_err();
    assert_eq!(err.kind(), ErrorKind::MissingRequiredArgument);
}
#[test]
fn remove_only_one_tag_arg_allowed() {
    let args = vec!["geman", "rm", "-p", "6.20-GE-1", "-w", "6.20-GE-1"];
    let result = setup_clap().try_get_matches_from(args);
    assert!(result.is_err());
    let err = result.unwrap_err();
    assert_eq!(err.kind(), ErrorKind::ArgumentConflict);
}
#[test]
fn remove_should_require_a_tag_argument() {
    let args = vec!["geman", "rm"];
    let result = setup_clap().try_get_matches_from(args);
    assert!(result.is_err());
    let err = result.unwrap_err();
    assert_eq!(err.kind(), ErrorKind::MissingRequiredArgument);
}
#[test]
fn check_without_args_should_not_throw_error() {
    let args = vec!["geman", "check"];
    let matches = setup_clap().try_get_matches_from(args).unwrap();
    let input = CheckCommandInput::from(matches);
    assert_eq!(input.kind, CheckCommandInput::default().kind);
}
#[test]
fn check_only_one_tag_arg_allowed() {
    let args = vec!["geman", "check", "-p", "-w"];
    let result = setup_clap().try_get_matches_from(args);
    assert!(result.is_err());
    let err = result.unwrap_err();
    assert_eq!(err.kind(), ErrorKind::ArgumentConflict);
}
#[test]
fn migrate_tag_arg_is_required() {
    let args = vec!["geman", "migrate", "-s", "/tmp"];
    let result = setup_clap().try_get_matches_from(args);
    assert!(result.is_err());
    let err = result.unwrap_err();
    assert_eq!(err.kind(), ErrorKind::MissingRequiredArgument);
}
#[test]
fn migrate_with_all_required_args() {
    let args = vec!["geman", "migrate", "-p", "6.20-GE-1", "-s", "/tmp"];
    let matches = setup_clap().try_get_matches_from(args).unwrap();
    let parsed = MigrationArgs::from(matches);
    assert_eq!(parsed.tag_arg.tag, Some(Tag::from("6.20-GE-1")));
    assert_eq!(parsed.source_path, "/tmp");
}
#[test]
fn migrate_only_one_tag_arg_allowed() {
    let args = vec!["geman", "migrate", "-s", "/tmp", "-p", "6.20-GE-1", "-w", "6.20-GE-1"];
    let result = setup_clap().try_get_matches_from(args);
    assert!(result.is_err());
    let err = result.unwrap_err();
    assert_eq!(err.kind(), ErrorKind::ArgumentConflict);
}
#[test]
fn apply_missing_required_tag_arg() {
    let args = vec!["geman", "apply"];
    let result = setup_clap().try_get_matches_from(args);
    assert!(result.is_err());
    let err = result.unwrap_err();
    assert_eq!(err.kind(), ErrorKind::MissingRequiredArgument);
}
#[test]
fn copy_user_settings_with_all_required_args() {
    let args = vec!["geman", "user-settings", "copy", "-s", "6.20-GE-1", "-d", "6.21-GE-1"];
    let matches = setup_clap().try_get_matches_from(args).unwrap();
    let parsed = CopyUserSettingsArgs::from(matches);
    assert_eq!(parsed.src_tag, Tag::from("6.20-GE-1"));
    assert_eq!(parsed.dst_tag, Tag::from("6.21-GE-1"));
}
#[test]
fn copy_user_settings_should_fail_without_destination() {
    let args = vec!["geman", "user-settings", "copy", "-s", "6.20-GE-1"];
    let result = setup_clap().try_get_matches_from(args);
    assert!(result.is_err());
    let err = result.unwrap_err();
    assert_eq!(err.kind(), ErrorKind::MissingRequiredArgument);
}
#[test]
fn copy_user_settings_should_fail_without_source() {
    let args = vec!["geman", "user-settings", "copy", "-d", "6.21-GE-1"];
    let result = setup_clap().try_get_matches_from(args);
    assert!(result.is_err());
    let err = result.unwrap_err();
    assert_eq!(err.kind(), ErrorKind::MissingRequiredArgument);
}
#[test]
fn forget_without_kind() {
    let args = vec!["geman", "forget"];
    let result = setup_clap().try_get_matches_from(args);
    assert!(result.is_err());
    let err = result.unwrap_err();
    assert_eq!(err.kind(), ErrorKind::MissingRequiredArgument);
}
#[test]
fn forget_with_all_required_args() {
    let args = vec!["geman", "forget", "-p", "6.20-GE-1"];
    let matches = setup_clap().try_get_matches_from(args).unwrap();
    let sub = matches.subcommand_matches("forget").unwrap();
    let tag_arg = TagArg::try_from(sub).unwrap();
    assert_eq!(tag_arg.tag, Some(Tag::from("6.20-GE-1")));
    assert_eq!(tag_arg.kind, TagKind::Proton);
}
