//! Behavior of the verified interception core, driven as the surrounding
//! shim would drive it: plain values in, plain values out.

use one_shot_token::CaptureOutcome;
use one_shot_token::ExposureStatus;
use one_shot_token::InitSource;
use one_shot_token::LookupDecision;
use one_shot_token::TokenState;
use one_shot_token::check_task_environ_exposure;
use one_shot_token::classify_lookup;
use one_shot_token::default_sensitive_tokens;
use one_shot_token::format_token_value;
use one_shot_token::init_token_list;
use one_shot_token::is_debug_enabled;
use one_shot_token::is_sensitive_token;
use one_shot_token::parse_token_list;
use one_shot_token::record_first_access;
use one_shot_token::remove_name_from_table;

#[test]
fn test_default_tokens_defined() {
    let defaults = default_sensitive_tokens();
    assert!(!defaults.is_empty());
    assert!(defaults.iter().any(|t| t == "GITHUB_TOKEN"));
    assert!(defaults.iter().any(|t| t == "OPENAI_API_KEY"));
}

#[test]
fn test_token_state_new() {
    let state = TokenState::new();
    assert!(state.tokens.is_empty());
    assert!(state.cache.is_empty());
    assert!(!state.initialized);
}

#[test]
fn test_format_token_value() {
    assert_eq!(format_token_value(""), "(empty)");
    assert_eq!(format_token_value("ab"), "ab...");
    assert_eq!(format_token_value("abcd"), "abcd...");
    assert_eq!(format_token_value("abcde"), "abcd...");
    assert_eq!(format_token_value("ghp_1234567890"), "ghp_...");
}

#[test]
fn parse_trims_and_drops_empty_tokens() {
    let tokens = parse_token_list("FOO, BAR ,,BAZ");
    assert_eq!(tokens, vec!["FOO".to_string(), "BAR".to_string(), "BAZ".to_string()]);
    let tokens = parse_token_list("\tA\n,  B \r,\n\t ");
    assert_eq!(tokens, vec!["A".to_string(), "B".to_string()]);
}

#[test]
fn parse_deduplicates_names() {
    let tokens = parse_token_list("FOO,FOO , FOO,BAR");
    assert_eq!(tokens, vec!["FOO".to_string(), "BAR".to_string()]);
}

#[test]
fn parse_bounds_at_first_hundred() {
    let mut config = String::new();
    for i in 0..150 {
        if i > 0 {
            config.push(',');
        }
        config.push_str(&format!("NAME_{}", i));
    }
    let tokens = parse_token_list(&config);
    assert_eq!(tokens.len(), 100);
    assert_eq!(tokens[0], "NAME_0");
    assert_eq!(tokens[99], "NAME_99");
    assert!(!tokens.iter().any(|t| t == "NAME_100"));
}

#[test]
fn empty_or_blank_config_falls_back_to_defaults() {
    let mut state = TokenState::new();
    let source = init_token_list(&mut state, Some(""), None);
    assert_eq!(source, Some(InitSource::FallbackEmptyParse));
    assert_eq!(state.tokens, default_sensitive_tokens());

    let mut state = TokenState::new();
    let source = init_token_list(&mut state, Some(" , , "), Some("1"));
    assert_eq!(source, Some(InitSource::FallbackEmptyParse));
    assert_eq!(state.tokens, default_sensitive_tokens());
    assert!(state.debug_enabled);
}

#[test]
fn absent_config_uses_defaults() {
    let mut state = TokenState::new();
    let source = init_token_list(&mut state, None, None);
    assert_eq!(source, Some(InitSource::BuiltinDefaults));
    assert_eq!(state.tokens, default_sensitive_tokens());
    assert!(!state.debug_enabled);
    assert!(is_sensitive_token(&state, "GITHUB_TOKEN"));
    assert!(!is_sensitive_token(&state, "PATH"));
}

#[test]
fn custom_config_replaces_defaults() {
    let mut state = TokenState::new();
    let source = init_token_list(&mut state, Some("FOO,BAR"), None);
    assert_eq!(source, Some(InitSource::CustomList));
    assert!(is_sensitive_token(&state, "FOO"));
    assert!(is_sensitive_token(&state, "BAR"));
    assert!(!is_sensitive_token(&state, "GITHUB_TOKEN"));
}

#[test]
fn init_runs_only_once() {
    let mut state = TokenState::new();
    let first = init_token_list(&mut state, Some("FOO"), Some("1"));
    assert_eq!(first, Some(InitSource::CustomList));
    let again = init_token_list(&mut state, Some("BAR,BAZ"), None);
    assert_eq!(again, None);
    assert!(is_sensitive_token(&state, "FOO"));
    assert!(!is_sensitive_token(&state, "BAR"));
    assert!(state.debug_enabled);
}

#[test]
fn debug_flag_literals() {
    assert!(is_debug_enabled(Some("1")));
    assert!(is_debug_enabled(Some("true")));
    assert!(is_debug_enabled(Some("TRUE")));
    assert!(is_debug_enabled(Some("True")));
    assert!(!is_debug_enabled(Some("0")));
    assert!(!is_debug_enabled(Some("yes")));
    assert!(!is_debug_enabled(Some("true ")));
    assert!(!is_debug_enabled(Some("")));
    assert!(!is_debug_enabled(None));
}

#[test]
fn exposure_scan_statuses() {
    let table = vec!["PATH=/usr/bin".to_string(), "GITHUB_TOKEN=ghp_x".to_string()];
    assert_eq!(
        check_task_environ_exposure(Some(&table), "GITHUB_TOKEN"),
        ExposureStatus::StillExposed
    );
    assert_eq!(check_task_environ_exposure(Some(&table), "GH_TOKEN"), ExposureStatus::Cleared);
    assert_eq!(check_task_environ_exposure(Some(&vec![]), "GITHUB_TOKEN"), ExposureStatus::Cleared);
    assert_eq!(check_task_environ_exposure(None, "GITHUB_TOKEN"), ExposureStatus::TableUnavailable);
}

#[test]
fn exposure_scan_matches_whole_name_only() {
    let table = vec!["GITHUB_TOKEN2=x".to_string(), "GITHUB=y".to_string()];
    assert_eq!(check_task_environ_exposure(Some(&table), "GITHUB_TOKEN"), ExposureStatus::Cleared);
    assert_eq!(
        check_task_environ_exposure(Some(&table), "GITHUB_TOKEN2"),
        ExposureStatus::StillExposed
    );
}

#[test]
fn removal_clears_exactly_the_named_entries() {
    let mut table = vec![
        "GITHUB_TOKEN=a".to_string(),
        "PATH=/usr/bin".to_string(),
        "GITHUB_TOKEN=b".to_string(),
        "HOME=/root".to_string(),
    ];
    remove_name_from_table(&mut table, "GITHUB_TOKEN");
    assert_eq!(table, vec!["PATH=/usr/bin".to_string(), "HOME=/root".to_string()]);
    assert_eq!(check_task_environ_exposure(Some(&table), "GITHUB_TOKEN"), ExposureStatus::Cleared);
}

#[test]
fn absent_protected_name_is_recorded_once() {
    let mut state = TokenState::new();
    init_token_list(&mut state, None, None);
    assert!(matches!(classify_lookup(&state, "GH_TOKEN"), LookupDecision::FirstAccess));
    let outcome = record_first_access(&mut state, "GH_TOKEN", None);
    assert!(matches!(outcome, CaptureOutcome::Absent));
    match classify_lookup(&state, "GH_TOKEN") {
        LookupDecision::Replay(v) => assert_eq!(v, None),
        _ => panic!("expected a replayed absence"),
    }
    assert_eq!(state.cache.len(), 1);
}

#[test]
fn end_to_end_capture_and_replay() {
    // The raw environment table, as the shim would hand it over.
    let mut table = vec!["GITHUB_TOKEN=ghp_abc123".to_string(), "PATH=/usr/bin".to_string()];
    let mut state = TokenState::new();
    init_token_list(&mut state, None, None);

    // An unrelated name passes through untouched, any number of times.
    assert!(matches!(classify_lookup(&state, "PATH"), LookupDecision::PassThrough));
    assert!(matches!(classify_lookup(&state, "PATH"), LookupDecision::PassThrough));

    // First lookup of the protected name: capture, then remove from the table.
    assert!(matches!(classify_lookup(&state, "GITHUB_TOKEN"), LookupDecision::FirstAccess));
    let outcome = record_first_access(&mut state, "GITHUB_TOKEN", Some("ghp_abc123".to_string()));
    match outcome {
        CaptureOutcome::Captured(v) => {
            assert_eq!(v, "ghp_abc123");
            remove_name_from_table(&mut table, "GITHUB_TOKEN");
        }
        CaptureOutcome::Absent => panic!("the value was set"),
    }
    assert_eq!(
        check_task_environ_exposure(Some(&table), "GITHUB_TOKEN"),
        ExposureStatus::Cleared
    );
    assert!(!table.iter().any(|e| e.starts_with("GITHUB_TOKEN=")));

    // Second lookup replays the same value without touching the table.
    match classify_lookup(&state, "GITHUB_TOKEN") {
        LookupDecision::Replay(v) => assert_eq!(v, Some("ghp_abc123".to_string())),
        _ => panic!("expected a replay"),
    }
    assert_eq!(state.cache.len(), 1);

    // The unrelated name still passes through afterwards.
    assert!(matches!(classify_lookup(&state, "PATH"), LookupDecision::PassThrough));
    assert_eq!(table[0], "PATH=/usr/bin");
}
