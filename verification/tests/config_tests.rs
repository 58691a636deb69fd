use ge_man::config::{LutrisConfig, LutrisConfigError, SteamConfig, SteamConfigError};

fn vdf_lines() -> Vec<String> {
    let text = "\"InstallConfigStore\"\n{\n\t\"Software\"\n\t{\n\t\t\"Valve\"\n\t\t{\n\t\t\t\"Steam\"\n\t\t\t{\n\t\t\t\t\"CompatToolMapping\"\n\t\t\t\t{\n\t\t\t\t\t\"0\"\n\t\t\t\t\t{\n\t\t\t\t\t\t\"name\"\t\t\"Proton-6.21-GE-2\"\n\t\t\t\t\t\t\"config\"\t\t\"\"\n\t\t\t\t\t}\n\t\t\t\t}\n\t\t\t}\n\t\t}\n\t}\n}";
    text.split('\n').map(|l| l.to_string()).collect()
}

fn wine_yml_lines() -> Vec<String> {
    let text = "system:\n  env:\n    DXVK_HUD: '0'\n  disable_runtime: true\ndxvk:\n  v: 1.9.2\nwine:\n  dxvk: true\n  version: lutris-ge-6.21-1-x86_64";
    text.split('\n').map(|l| l.to_string()).collect()
}

#[test]
fn create_lutris_config_from_file_with_no_version_property() {
    let lines: Vec<String> = vec!["system:".to_string(), "  disable_runtime: true".to_string()];
    let result = LutrisConfig::create_copy(lines);
    assert!(result.is_err());
    let err = result.err().unwrap();
    assert!(matches!(err, LutrisConfigError::NoVersionAttribute));
}

#[test]
fn read_wine_version_from_lutris_config() {
    let lutris_config = LutrisConfig::create_copy(wine_yml_lines()).unwrap();
    let version = lutris_config.wine_version();
    assert_eq!(version, "lutris-ge-6.21-1-x86_64");
}

#[test]
fn read_proton_version_from_steam_config() {
    let steam_config = SteamConfig::create_copy(vdf_lines()).unwrap();
    let version = steam_config.proton_version();
    assert_eq!(version, "Proton-6.21-GE-2");
}

#[test]
fn create_steam_config_copy_from_file_with_no_compat_tool_attribute() {
    let lines: Vec<String> = vec![
        "\"InstallConfigStore\"".to_string(),
        "{".to_string(),
        "}".to_string(),
    ];
    let result = SteamConfig::create_copy(lines);
    assert!(result.is_err());
    let err = result.err().unwrap();
    assert!(matches!(err, SteamConfigError::NoDefaultCompatToolAttribute));
}

#[test]
fn create_steam_config_copy_from_file_with_no_default_proton_version() {
    let lines: Vec<String> = vec![
        "\"CompatToolMapping\"".to_string(),
        "{".to_string(),
        "}".to_string(),
    ];
    let result = SteamConfig::create_copy(lines);
    assert!(result.is_err());
    let err = result.err().unwrap();
    assert!(matches!(err, SteamConfigError::NoDefaultCompatToolAttribute));
}

#[test]
fn create_steam_config_copy_with_modified_default_proton_version() {
    let proton_dir_name = "Proton-6.20-GE-1";
    let mut steam_config = SteamConfig::create_copy(vdf_lines()).unwrap();
    steam_config.set_proton_version(proton_dir_name);
    let patched = steam_config.into_lines();
    let original = vdf_lines();
    assert_eq!(patched.len(), original.len());
    for (idx, line) in original.iter().enumerate() {
        if idx == 12 {
            assert_eq!(patched[idx], "\t\t\t\t\t\t\"name\"\t\t\"Proton-6.20-GE-1\"");
            assert_eq!(line, "\t\t\t\t\t\t\"name\"\t\t\"Proton-6.21-GE-2\"");
        } else {
            assert_eq!(&patched[idx], line);
        }
    }
}

#[test]
fn create_lutris_config_copy_with_modified_default_wine_runner_version() {
    let lutris_runner_dir = "lutris-ge-6.20-1-x86_64";
    let mut lutris_config = LutrisConfig::create_copy(wine_yml_lines()).unwrap();
    lutris_config.set_wine_version(lutris_runner_dir);
    let patched = lutris_config.into_lines();
    let original = wine_yml_lines();
    assert_eq!(patched.len(), original.len());
    for (idx, line) in original.iter().enumerate() {
        if idx == 8 {
            assert_eq!(patched[idx], "  version: lutris-ge-6.20-1-x86_64");
            assert_eq!(line, "  version: lutris-ge-6.21-1-x86_64");
        } else {
            assert_eq!(&patched[idx], line);
        }
    }
}
