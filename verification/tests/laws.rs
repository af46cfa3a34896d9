use rustitles::commands::subtitle_policy_args;
use rustitles::helpers::Utils;
use rustitles::redact::redact_sensitive;
use rustitles::scan_history::{merge_record, record_allows_skip, ScanRecord};
use rustitles::settings::Settings;
use rustitles::versions::is_outdated;

#[test]
fn text_without_keys_is_not_redacted() {
    for text in ["plain output", "user=bob pass=1", "é∂ tok en"] {
        assert_eq!(redact_sensitive(text), text);
    }
    assert_eq!(redact_sensitive("PASSWORD: hunter2, next"), "PASSWORD: ***, next");
    assert_eq!(redact_sensitive("api_key='a\\'b' x"), "api_key='***' x");
}

#[test]
fn truncation_never_exceeds_the_limit() {
    for (text, max) in [("abcdef", 4), ("字幕文件名称", 2), ("ab", 5), ("abcdef", 6)] {
        assert!(Utils::truncate_string(text, max).chars().count() <= max);
    }
}

#[test]
fn outdated_is_never_mutual() {
    for (a, b) in [("1.2", "1.10"), ("2.4.0", "2.4"), ("v3", "3.0.0"), ("x", "1")] {
        assert!(!(is_outdated(a, b) && is_outdated(b, a)));
    }
}

#[test]
fn outdated_is_transitive() {
    assert!(is_outdated("1.2", "1.10") && is_outdated("1.10", "v2.0"));
    assert!(is_outdated("1.2", "v2.0"));
    assert!(is_outdated("2.4", "2.4.0") && is_outdated("2.4.0", "2.4.1"));
    assert!(is_outdated("2.4", "2.4.1"));
    assert!(!is_outdated("2.4.1", "2.4.1"));
}

#[test]
fn normalizing_twice_changes_nothing_more() {
    let once = Settings {
        providers: vec!["podnapisi".to_string(), "bogus".to_string()],
        refiners: vec!["tmdb".to_string(), "nope".to_string()],
        concurrent_downloads: 1000,
        minimum_score: 200,
        ..Settings::default()
    }
    .normalize();
    let twice = once.clone_settings().normalize();
    assert_eq!(once.providers, twice.providers);
    assert_eq!(once.refiners, twice.refiners);
    assert_eq!(once.concurrent_downloads, twice.concurrent_downloads);
    assert_eq!(once.minimum_score, twice.minimum_score);
}

#[test]
fn each_policy_decides_its_own_options() {
    for exclude in [false, true] {
        let args = subtitle_policy_args(false, false, exclude);
        assert_eq!(args.iter().any(|a| a == "--no-hearing-impaired"), exclude);
        assert!(!args.iter().any(|a| a == "--force-embedded-subtitles"));
    }
}

#[test]
fn a_recorded_success_allows_a_skip() {
    let merged = merge_record(None, 100, 50, 3, 9, &["en".to_string(), "fr".to_string()], &["fr".to_string()]);
    assert!(record_allows_skip(&merged, &["en".to_string()], true));
    assert!(record_allows_skip(&merged, &["en".to_string(), "fr".to_string()], false));
    assert!(!record_allows_skip(&merged, &["fr".to_string()], true));
    assert!(!record_allows_skip(&merged, &[], false));
}

#[test]
fn a_changed_identity_forgets_old_languages() {
    let old = ScanRecord {
        size: 1,
        mtime_secs: 2,
        mtime_nanos: Some(3),
        file_id: Some(4),
        langs: vec!["de".to_string()],
        contains_hearing_impaired: false,
        hearing_impaired_langs: Vec::new(),
    };
    let merged = merge_record(Some(&old), 1, 2, 3, 5, &["en".to_string(), "en".to_string()], &[]);
    assert_eq!(merged.langs, vec!["en"]);
    assert_eq!(merged.file_id, Some(5));
}
