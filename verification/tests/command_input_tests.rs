use ge_man::cli::{setup_clap, ErrorKind};
use ge_man::command_input::{
    AddCommandInput, CheckCommandInput, CleanCommandInput, CopyUserSettingsCommandInput,
    GivenVersion, ListCommandInput, ListLookup, RemoveCommandInput, TagArg,
};
use ge_man::compat_tool_app::ApplicationConfig;
use ge_man::data::{ManagedVersion, ManagedVersions};
use ge_man::filesystem::in_use_compat_tool_dir_name;
use ge_man::tag::{Tag, TagKind};
use ge_man::version::{Version, Versioned};

fn steam_config_lines() -> Vec<String> {
    let text = "\"InstallConfigStore\"\n{\n\t\"Software\"\n\t{\n\t\t\"Valve\"\n\t\t{\n\t\t\t\"Steam\"\n\t\t\t{\n\t\t\t\t\"CompatToolMapping\"\n\t\t\t\t{\n\t\t\t\t\t\"0\"\n\t\t\t\t\t{\n\t\t\t\t\t\t\"name\"\t\t\"Proton-6.21-GE-2\"\n\t\t\t\t\t\t\"config\"\t\t\"\"\n\t\t\t\t\t}\n\t\t\t\t}\n\t\t\t}\n\t\t}\n\t}\n}";
    text.split('\n').map(|l| l.to_string()).collect()
}

fn lutris_config_lines() -> Vec<String> {
    let text = "system:\n  env:\n    DXVK_HUD: '0'\n  disable_runtime: true\ndxvk:\n  v: 1.9.2\nwine:\n  dxvk: true\n  version: lutris-ge-6.21-1-x86_64";
    text.split('\n').map(|l| l.to_string()).collect()
}

#[test]
fn command_input_add_only_one_tag_arg_allowed() {
    let args = vec!["geman", "add", "-p", "6.20-GE-1", "-w", "6.20-GE-1"];
    let result = setup_clap().try_get_matches_from(args);
    assert!(result.is_err());
    let err = result.unwrap_err();
    assert_eq!(err.kind(), ErrorKind::ArgumentConflict);
}
#[test]
fn command_input_add_with_checksum_skip() {
    let args = vec!["geman", "add", "-p", "--skip-checksum"];
    let matches = setup_clap().try_get_matches_from(args).unwrap();
    let input = AddCommandInput::create_from(&matches, ManagedVersions::default());
    assert_eq!(input.version, GivenVersion::Latest { kind: TagKind::Proton });
    assert_eq!(input.skip_checksum, true);
    assert_eq!(input.managed_versions, ManagedVersions::default());
}
#[test]
fn command_input_add_with_apply() {
    let args = vec!["geman", "add", "-p", "--apply"];
    let matches = setup_clap().try_get_matches_from(args).unwrap();
    let input = AddCommandInput::create_from(&matches, ManagedVersions::default());
    assert_eq!(input.version, GivenVersion::Latest { kind: TagKind::Proton });
    assert_eq!(input.skip_checksum, false);
    assert!(AddCommandInput::apply_present(&matches));
}
#[test]
fn command_input_add_should_require_one_tag_arg() {
    let args = vec!["geman", "add"];
    let result = setup_clap().try_get_matches_from(args);
    assert!(result.is_err());
    let err = result.unwrap_err();
    assert_eq!(err.kind(), ErrorKind::MissingRequiredArgument);
}
#[test]
fn command_input_remove_only_one_tag_arg_allowed() {
    let args = vec!["geman", "rm", "-p", "6.20-GE-1", "-w", "6.20-GE-1"];
    let result = setup_clap().try_get_matches_from(args);
    assert!(result.is_err());
    let err = result.unwrap_err();
    assert_eq!(err.kind(), ErrorKind::ArgumentConflict);
}
#[test]
fn command_input_remove_should_require_a_tag_argument() {
    let args = vec!["geman", "rm"];
    let result = setup_clap().try_get_matches_from(args);
    assert!(result.is_err());
    let err = result.unwrap_err();
    assert_eq!(err.kind(), ErrorKind::MissingRequiredArgument);
}
#[test]
fn command_input_check_without_args_should_not_throw_error() {
    let args = vec!["geman", "check"];
    let matches = setup_clap().try_get_matches_from(args).unwrap();
    let input = CheckCommandInput::from(matches);
    assert_eq!(input.kind, CheckCommandInput::default().kind);
}
#[test]
fn command_input_check_only_one_tag_arg_allowed() {
    let args = vec!["geman", "check", "-p", "-w"];
    let result = setup_clap().try_get_matches_from(args);
    assert!(result.is_err());
    let err = result.unwrap_err();
    assert_eq!(err.kind(), ErrorKind::ArgumentConflict);
}
#[test]
fn command_input_migrate_tag_arg_is_required() {
    let args = vec!["geman", "migrate", "-s", "/tmp"];
    let result = setup_clap().try_get_matches_from(args);
    assert!(result.is_err());
    let err = result.unwrap_err();
    assert_eq!(err.kind(), ErrorKind::MissingRequiredArgument);
}
#[test]
fn command_input_migrate_only_one_tag_arg_allowed() {
    let args = vec!["geman", "migrate", "-s", "/tmp", "-p", "6.20-GE-1", "-w", "6.20-GE-1"];
    let result = setup_clap().try_get_matches_from(args);
    assert!(result.is_err());
    let err = result.unwrap_err();
    assert_eq!(err.kind(), ErrorKind::ArgumentConflict);
}
#[test]
fn command_input_apply_missing_required_tag_arg() {
    let args = vec!["geman", "apply"];
    let result = setup_clap().try_get_matches_from(args);
    assert!(result.is_err());
    let err = result.unwrap_err();
    assert_eq!(err.kind(), ErrorKind::MissingRequiredArgument);
}
#[test]
fn command_input_copy_user_settings_with_all_required_args() {
    let command = vec!["geman", "user-settings", "copy", "-s", "6.20-GE-1", "-d", "6.21-GE-1"];
    let matches = setup_clap().try_get_matches_from(command).unwrap();
    let managed_versions = ManagedVersions::new(vec![
        ManagedVersion::new("6.20-GE-1", "6.20-GE-1", TagKind::Proton, ""),
        ManagedVersion::new("6.21-GE-1", "6.21-GE-1", TagKind::Proton, ""),
    ]);
    let input = CopyUserSettingsCommandInput::create_from(&matches, &managed_versions).unwrap();
    let src_version = ManagedVersion::new("6.20-GE-1", "6.20-GE-1", TagKind::Proton, "");
    let dst_version = ManagedVersion::new("6.21-GE-1", "6.21-GE-1", TagKind::Proton, "");
    let expected = CopyUserSettingsCommandInput::new(src_version, dst_version);
    assert_eq!(input.src_version, expected.src_version);
    assert_eq!(input.dst_version, expected.dst_version);
}
#[test]
fn copy_user_settings_where_stored_source_tag_does_not_exist() {
    let command = vec!["geman", "user-settings", "copy", "-s", "6.20-GE-1", "-d", "6.21-GE-1"];
    let matches = setup_clap().try_get_matches_from(command).unwrap();
    let managed_versions =
        ManagedVersions::new(vec![ManagedVersion::new("6.21-GE-1", "6.21-GE-1", TagKind::Proton, "")]);
    let result = CopyUserSettingsCommandInput::create_from(&matches, &managed_versions);
    assert!(result.is_err());
    let err = result.unwrap_err();
    assert_eq!(err.to_string(), "Given source Proton version does not exist");
}
#[test]
fn copy_user_settings_where_stored_destination_tag_does_not_exist() {
    let command = vec!["geman", "user-settings", "copy", "-s", "6.20-GE-1", "-d", "6.21-GE-1"];
    let matches = setup_clap().try_get_matches_from(command).unwrap();
    let managed_versions =
        ManagedVersions::new(vec![ManagedVersion::new("6.20-GE-1", "6.20-GE-1", TagKind::Proton, "")]);
    let result = CopyUserSettingsCommandInput::create_from(&matches, &managed_versions);
    assert!(result.is_err());
    let err = result.unwrap_err();
    assert_eq!(err.to_string(), "Given destination Proton version does not exist");
}
#[test]
fn command_input_copy_user_settings_should_fail_without_destination() {
    let args = vec!["geman", "user-settings", "copy", "-s", "6.20-GE-1"];
    let result = setup_clap().try_get_matches_from(args);
    assert!(result.is_err());
    let err = result.unwrap_err();
    assert_eq!(err.kind(), ErrorKind::MissingRequiredArgument);
}
#[test]
fn command_input_copy_user_settings_should_fail_without_source() {
    let args = vec!["geman", "user-settings", "copy", "-d", "6.21-GE-1"];
    let result = setup_clap().try_get_matches_from(args);
    assert!(result.is_err());
    let err = result.unwrap_err();
    assert_eq!(err.kind(), ErrorKind::MissingRequiredArgument);
}
#[test]
fn command_input_list_create_lutris_input() {
    let command = vec!["geman", "list", "-w"];
    let matches = setup_clap().try_get_matches_from(command).unwrap();
    let managed_versions = ManagedVersions::new(vec![ManagedVersion::new(
        "6.21-GE-1",
        "6.21-GE-1",
        TagKind::wine(),
        "6.21-GE-1",
    )]);
    let in_use = in_use_compat_tool_dir_name(lutris_config_lines(), TagKind::wine()).unwrap();
    let lookups = vec![ListLookup {
        kind: TagKind::wine(),
        in_use_directory_name: Some(in_use),
        app_compat_tool_dir: "/tmp/test".to_string(),
    }];
    let inputs = ListCommandInput::create_from(&matches, managed_versions.clone(), &lookups);
    assert_eq!(inputs.len(), 1);
    let input = &inputs[0];
    assert_eq!(input.managed_versions, managed_versions);
    assert_eq!(input.tag_kind, TagKind::wine());
    assert_eq!(input.newest, false);
    assert_eq!(input.application_name, "Lutris");
    assert_eq!(
        input.in_use_directory_name,
        Some(String::from("lutris-ge-6.21-1-x86_64"))
    );
}
#[test]
fn args_list_create_lutris_input() {
    let command = vec!["geman", "list", "-w"];
    let matches = setup_clap().try_get_matches_from(command).unwrap();
    let managed_versions = ManagedVersions::new(vec![ManagedVersion::new(
        "6.21-GE-1",
        "6.21-GE-1",
        TagKind::wine(),
        "6.21-GE-1",
    )]);
    let in_use = in_use_compat_tool_dir_name(lutris_config_lines(), TagKind::wine()).unwrap();
    let lookups = vec![ListLookup {
        kind: TagKind::wine(),
        in_use_directory_name: Some(in_use),
        app_compat_tool_dir: "/tmp/test".to_string(),
    }];
    let inputs = ListCommandInput::create_from(&matches, managed_versions.clone(), &lookups);
    assert_eq!(inputs.len(), 1);
    let input = &inputs[0];
    assert_eq!(input.managed_versions, managed_versions);
    assert_eq!(input.tag_kind, TagKind::wine());
    assert_eq!(input.newest, false);
    assert_eq!(input.application_name, "Lutris");
    assert_eq!(
        input.in_use_directory_name,
        Some(String::from("lutris-ge-6.21-1-x86_64"))
    );
}
#[test]
fn command_input_list_create_steam_input() {
    let command = vec!["geman", "list", "-p"];
    let matches = setup_clap().try_get_matches_from(command).unwrap();
    let managed_versions = ManagedVersions::new(vec![ManagedVersion::new(
        "6.21-GE-1",
        "6.21-GE-1",
        TagKind::Proton,
        "6.21-GE-1",
    )]);
    let in_use = in_use_compat_tool_dir_name(steam_config_lines(), TagKind::Proton).unwrap();
    let lookups = vec![ListLookup {
        kind: TagKind::Proton,
        in_use_directory_name: Some(in_use),
        app_compat_tool_dir: "/tmp/test".to_string(),
    }];
    let inputs = ListCommandInput::create_from(&matches, managed_versions.clone(), &lookups);
    assert_eq!(inputs.len(), 1);
    let input = &inputs[0];
    assert_eq!(input.managed_versions, managed_versions);
    assert_eq!(input.tag_kind, TagKind::Proton);
    assert_eq!(input.newest, false);
    assert_eq!(input.application_name, "Steam");
    assert_eq!(input.in_use_directory_name, Some(String::from("Proton-6.21-GE-2")));
}
#[test]
fn args_list_create_steam_input() {}
#[test]
fn clean_input_should_resolve_version_to_remove_before() {
    let command = vec!["geman", "clean", "-p", "-b", "6.21-GE-2"];
    let matches = setup_clap().try_get_matches_from(command).unwrap();
    let managed_versions = ManagedVersions::new(vec![
        ManagedVersion::new("6.20-GE-1", "6.20-GE-1", TagKind::Proton, ""),
        ManagedVersion::new("6.21-GE-1", "6.21-GE-1", TagKind::Proton, ""),
        ManagedVersion::new("6.21-GE-2", "6.21-GE-2", TagKind::Proton, ""),
    ]);
    let app_config = ApplicationConfig::create_copy(TagKind::Proton, steam_config_lines()).unwrap();
    let input = CleanCommandInput::create_from(&matches, managed_versions.clone(), app_config).unwrap();
    assert_eq!(input.remove_before_version, Some(Version::new(None, "6.21-GE-2", TagKind::Proton)));
    assert_eq!(input.start_version, None);
    assert_eq!(input.end_version, None);
    assert_eq!(input.managed_versions, managed_versions);
    assert_eq!(
        input.app_config,
        ApplicationConfig::new(TagKind::Proton, "Proton-6.21-GE-2".to_string())
    );
    assert_eq!(input.forget, false);
}
#[test]
fn clean_input_should_resolve_start_and_end_version() {
    let command = vec!["geman", "clean", "-p", "-s", "6.20-GE-1", "-e", "6.21-GE-2"];
    let matches = setup_clap().try_get_matches_from(command).unwrap();
    let managed_versions = ManagedVersions::new(vec![
        ManagedVersion::new("6.20-GE-1", "6.20-GE-1", TagKind::Proton, ""),
        ManagedVersion::new("6.21-GE-1", "6.21-GE-1", TagKind::Proton, ""),
        ManagedVersion::new("6.21-GE-2", "6.21-GE-2", TagKind::Proton, ""),
    ]);
    let app_config = ApplicationConfig::create_copy(TagKind::Proton, steam_config_lines()).unwrap();
    let input = CleanCommandInput::create_from(&matches, managed_versions.clone(), app_config).unwrap();
    assert_eq!(input.remove_before_version, None);
    assert_eq!(input.start_version, Some(Version::new(None, "6.20-GE-1", TagKind::Proton)));
    assert_eq!(input.end_version, Some(Version::new(None, "6.21-GE-2", TagKind::Proton)));
    assert_eq!(input.managed_versions, managed_versions);
    assert_eq!(
        input.app_config,
        ApplicationConfig::new(TagKind::Proton, "Proton-6.21-GE-2".to_string())
    );
    assert_eq!(input.forget, false);
}
#[test]
fn clean_with_forget_flag() {
    let command = vec!["geman", "clean", "-p", "-s", "6.20-GE-1", "-e", "6.21-GE-2", "-f"];
    let matches = setup_clap().try_get_matches_from(command).unwrap();
    let managed_versions = ManagedVersions::new(vec![
        ManagedVersion::new("6.20-GE-1", "6.20-GE-1", TagKind::Proton, ""),
        ManagedVersion::new("6.21-GE-1", "6.21-GE-1", TagKind::Proton, ""),
        ManagedVersion::new("6.21-GE-2", "6.21-GE-2", TagKind::Proton, ""),
    ]);
    let app_config = ApplicationConfig::create_copy(TagKind::Proton, steam_config_lines()).unwrap();
    let input = CleanCommandInput::create_from(&matches, managed_versions.clone(), app_config).unwrap();
    assert_eq!(input.remove_before_version, None);
    assert_eq!(input.start_version, Some(Version::new(None, "6.20-GE-1", TagKind::Proton)));
    assert_eq!(input.end_version, Some(Version::new(None, "6.21-GE-2", TagKind::Proton)));
    assert_eq!(input.managed_versions, managed_versions);
    assert_eq!(
        input.app_config,
        ApplicationConfig::new(TagKind::Proton, "Proton-6.21-GE-2".to_string())
    );
    assert_eq!(input.forget, true);
}
