use rmcp_client::env_vars::PlatformFamily;
use rmcp_client::home::AionixHomeDecision;
use rmcp_client::home::resolve_aionix_home;
use rmcp_client::home::restore_aionix_home_override;
use rmcp_client::home::set_aionix_home_override;

#[test]
fn override_wins_and_needs_no_canonicalization() {
    let d = resolve_aionix_home(
        PlatformFamily::Posix,
        Some("/forced".to_string()),
        Some("/configured".to_string()),
        Some("/home/u".to_string()),
    );
    match d {
        AionixHomeDecision::Ready { path } => assert_eq!(path, "/forced"),
        _ => panic!("expected the override path"),
    }
}

#[test]
fn configured_path_must_be_canonicalized() {
    let d = resolve_aionix_home(
        PlatformFamily::Posix,
        None,
        Some("/configured".to_string()),
        Some("/home/u".to_string()),
    );
    match d {
        AionixHomeDecision::Canonicalize { configured } => assert_eq!(configured, "/configured"),
        _ => panic!("expected a canonicalization request"),
    }
}

#[test]
fn empty_configured_value_falls_back_to_home() {
    let d = resolve_aionix_home(
        PlatformFamily::Posix,
        None,
        Some(String::new()),
        Some("/home/u".to_string()),
    );
    match d {
        AionixHomeDecision::Ready { path } => assert_eq!(path, "/home/u/.aionix"),
        _ => panic!("expected the default dot-directory"),
    }
}

#[test]
fn windows_home_fallback_uses_backslash() {
    let d = resolve_aionix_home(
        PlatformFamily::Windows,
        None,
        None,
        Some("C:\\Users\\u".to_string()),
    );
    match d {
        AionixHomeDecision::Ready { path } => assert_eq!(path, "C:\\Users\\u\\.aionix"),
        _ => panic!("expected the default dot-directory"),
    }
}

#[test]
fn missing_home_directory_is_reported() {
    let d = resolve_aionix_home(PlatformFamily::Posix, None, None, None);
    assert!(matches!(d, AionixHomeDecision::HomeNotFound));
}

#[test]
fn override_slot_round_trips() {
    let mut slot: Option<String> = Some("/old".to_string());
    let guard = set_aionix_home_override(&mut slot, "/new".to_string());
    assert_eq!(slot, Some("/new".to_string()));
    restore_aionix_home_override(guard, &mut slot);
    assert_eq!(slot, Some("/old".to_string()));
}
