use rmcp_client::env_vars::EnvMap;
use rmcp_client::headers::build_default_headers;

fn reader_of(pairs: &[(&str, &str)]) -> EnvMap {
    let mut m = EnvMap::new();
    for (k, v) in pairs {
        m.insert((*k).to_string(), (*v).to_string());
    }
    m
}

fn pairs(entries: &[(&str, &str)]) -> Vec<(String, String)> {
    entries.iter().map(|(k, v)| ((*k).to_string(), (*v).to_string())).collect()
}

#[test]
fn static_and_indirected_headers_assemble() {
    let (headers, warnings) = build_default_headers(
        Some(pairs(&[("X-Api-Key", "abc")])),
        Some(pairs(&[("Authorization", "AUTH_TOK")])),
        &reader_of(&[("AUTH_TOK", "Bearer xyz")]),
    );
    assert_eq!(headers.len(), 2);
    assert_eq!(headers.get("X-Api-Key").unwrap(), "abc");
    assert_eq!(headers.get("Authorization").unwrap(), "Bearer xyz");
    assert!(warnings.is_empty());
}

#[test]
fn malformed_static_name_is_dropped() {
    let (headers, warnings) = build_default_headers(
        Some(pairs(&[("Bad Name\n", "v")])),
        None,
        &reader_of(&[]),
    );
    assert!(headers.is_empty());
    assert_eq!(warnings, vec!["Bad Name\n".to_string()]);
}

#[test]
fn malformed_static_value_is_dropped() {
    let (headers, warnings) = build_default_headers(
        Some(pairs(&[("X-Ok", "good"), ("X-Bad", "bad\nvalue")])),
        None,
        &reader_of(&[]),
    );
    assert_eq!(headers.len(), 1);
    assert_eq!(headers.get("X-Ok").unwrap(), "good");
    assert_eq!(warnings, vec!["X-Bad".to_string()]);
}

#[test]
fn unset_source_variable_is_skipped_silently() {
    let (headers, warnings) = build_default_headers(
        None,
        Some(pairs(&[("Authorization", "MISSING_VAR")])),
        &reader_of(&[]),
    );
    assert!(headers.is_empty());
    assert!(warnings.is_empty());
}

#[test]
fn blank_source_variable_is_skipped_silently() {
    let (headers, warnings) = build_default_headers(
        None,
        Some(pairs(&[("Authorization", "BLANK_VAR")])),
        &reader_of(&[("BLANK_VAR", " \t \u{3000} ")]),
    );
    assert!(headers.is_empty());
    assert!(warnings.is_empty());
}

#[test]
fn indirected_header_overrides_static_header() {
    let (headers, warnings) = build_default_headers(
        Some(pairs(&[("Authorization", "from-config")])),
        Some(pairs(&[("Authorization", "AUTH_TOK")])),
        &reader_of(&[("AUTH_TOK", "from-env")]),
    );
    assert_eq!(headers.len(), 1);
    assert_eq!(headers.get("Authorization").unwrap(), "from-env");
    assert!(warnings.is_empty());
}

#[test]
fn later_duplicate_wins_within_one_list() {
    let (headers, warnings) = build_default_headers(
        Some(pairs(&[("X-Api-Key", "first"), ("x-api-key", "second")])),
        None,
        &reader_of(&[]),
    );
    assert_eq!(headers.len(), 1);
    assert_eq!(headers.get("X-Api-Key").unwrap(), "second");
    assert!(warnings.is_empty());
}

#[test]
fn malformed_indirected_value_warns() {
    let (headers, warnings) = build_default_headers(
        None,
        Some(pairs(&[("Authorization", "CTRL_VAR")])),
        &reader_of(&[("CTRL_VAR", "a\u{7f}b")]),
    );
    assert!(headers.is_empty());
    assert_eq!(warnings, vec!["Authorization".to_string()]);
}

#[test]
fn apply_default_headers_accepts_both_empty_and_filled_collections() {
    let (empty, _) = build_default_headers(None, None, &reader_of(&[]));
    let builder = rmcp_client::headers::apply_default_headers(reqwest::Client::builder(), &empty);
    builder.build().unwrap();

    let (filled, _) =
        build_default_headers(Some(pairs(&[("X-Api-Key", "abc")])), None, &reader_of(&[]));
    let builder = rmcp_client::headers::apply_default_headers(reqwest::Client::builder(), &filled);
    builder.build().unwrap();
}
