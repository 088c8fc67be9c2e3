use rmcp_client::env_vars::EnvMap;
use rmcp_client::env_vars::PlatformFamily;
use rmcp_client::env_vars::create_env_for_mcp_server_internal;
use rmcp_client::env_vars::default_env_vars;

fn reader_of(pairs: &[(&str, &str)]) -> EnvMap {
    let mut m = EnvMap::new();
    for (k, v) in pairs {
        m.insert((*k).to_string(), (*v).to_string());
    }
    m
}

#[test]
fn create_env_honors_overrides() {
    let value = "custom".to_string();
    let mut overrides = EnvMap::new();
    overrides.insert("TZ".to_string(), value.clone());
    let env = create_env_for_mcp_server_internal(
        PlatformFamily::Posix,
        Some(overrides),
        &Vec::new(),
        &reader_of(&[]),
    );
    assert_eq!(env.get(&"TZ".to_string()), Some(&value));
}

#[test]
fn create_env_includes_additional_whitelisted_variables() {
    let custom_var = "EXTRA_RMCP_ENV";
    let value = "from-env";
    let fake_env = reader_of(&[(custom_var, value)]);

    let env = create_env_for_mcp_server_internal(
        PlatformFamily::Posix,
        None,
        &vec![custom_var.to_string()],
        &fake_env,
    );
    assert_eq!(env.get(&custom_var.to_string()), Some(&value.to_string()));
}

#[test]
fn create_env_resolves_posix_allowlist() {
    let env = create_env_for_mcp_server_internal(
        PlatformFamily::Posix,
        None,
        &Vec::new(),
        &reader_of(&[("TZ", "UTC")]),
    );
    assert_eq!(env.entries.len(), 1);
    assert_eq!(env.get(&"TZ".to_string()), Some(&"UTC".to_string()));
}

#[test]
fn create_env_omits_unset_variables() {
    let env = create_env_for_mcp_server_internal(
        PlatformFamily::Posix,
        None,
        &Vec::new(),
        &reader_of(&[("NOT_ALLOWLISTED", "x")]),
    );
    assert!(env.entries.is_empty());
    assert_eq!(env.get(&"NOT_ALLOWLISTED".to_string()), None);
}

#[test]
fn create_env_override_beats_reader_value() {
    let mut overrides = EnvMap::new();
    overrides.insert("PATH".to_string(), "/forced".to_string());
    let env = create_env_for_mcp_server_internal(
        PlatformFamily::Posix,
        Some(overrides),
        &Vec::new(),
        &reader_of(&[("PATH", "/usr/bin")]),
    );
    assert_eq!(env.get(&"PATH".to_string()), Some(&"/forced".to_string()));
}

#[test]
fn create_env_override_outside_allowlist_is_kept() {
    let mut overrides = EnvMap::new();
    overrides.insert("NOT_LISTED".to_string(), "kept".to_string());
    let env = create_env_for_mcp_server_internal(
        PlatformFamily::Posix,
        Some(overrides),
        &Vec::new(),
        &reader_of(&[]),
    );
    assert_eq!(env.get(&"NOT_LISTED".to_string()), Some(&"kept".to_string()));
}

#[test]
fn default_allowlists_match_platforms() {
    let posix = default_env_vars(PlatformFamily::Posix);
    assert_eq!(
        posix,
        vec![
            "HOME",
            "LOGNAME",
            "PATH",
            "SHELL",
            "USER",
            "__CF_USER_TEXT_ENCODING",
            "LANG",
            "LC_ALL",
            "TERM",
            "TMPDIR",
            "TZ",
        ]
    );
    let windows = default_env_vars(PlatformFamily::Windows);
    assert_eq!(
        windows,
        vec!["PATH", "PATHEXT", "USERNAME", "USERDOMAIN", "USERPROFILE", "TEMP", "TMP"]
    );
}
