use rustitles::helpers::DEFAULT_CONCURRENT_DOWNLOADS;
use rustitles::settings::{
    concurrent_downloads_from_text, max_pages_from_text, minimum_score_from_text, toggle_choice,
    Settings,
};

#[test]
fn normalize_discards_invalid_matching_settings() {
    let settings = Settings {
        providers: vec!["opensubtitlescom".to_string(), "unknown".to_string()],
        refiners: vec!["metadata".to_string(), "unknown".to_string()],
        concurrent_downloads: 0,
        minimum_score: 101,
        ..Settings::default()
    };
    let normalized = settings.normalize();

    assert_eq!(normalized.providers, vec!["opensubtitlescom"]);
    assert_eq!(normalized.refiners, vec!["metadata"]);
    assert_eq!(
        normalized.concurrent_downloads,
        DEFAULT_CONCURRENT_DOWNLOADS
    );
    assert_eq!(normalized.minimum_score, 0);
}

#[test]
fn defaults_enable_requested_controls() {
    let settings = Settings::default();

    assert_eq!(settings.selected_languages, vec!["en"]);
    assert!(settings.skip_scanned_media);
    assert!(settings.force_download);
    assert!(settings.overwrite_existing);
    assert!(settings.ignore_local_extras);
    assert_eq!(settings.providers.len(), 7);
    assert_eq!(settings.refiners, vec!["hash", "metadata", "tmdb", "tvdb"]);
    assert!(!settings.exclude_hearing_impaired);
    assert!(settings.matching_options_open);
    assert_eq!(settings.opensubtitles_max_pages, Some(3));
}

#[test]
fn choices_are_set_and_cleared() {
    let mut list = vec!["en".to_string(), "fr".to_string(), "en".to_string()];
    toggle_choice(&mut list, "de", true);
    assert_eq!(list, vec!["en", "fr", "en", "de"]);
    toggle_choice(&mut list, "de", true);
    assert_eq!(list, vec!["en", "fr", "en", "de"]);
    toggle_choice(&mut list, "en", false);
    assert_eq!(list, vec!["fr", "de"]);
}

#[test]
fn typed_numbers_are_checked() {
    assert_eq!(minimum_score_from_text("100"), Some(100));
    assert_eq!(minimum_score_from_text("+7"), Some(7));
    assert_eq!(minimum_score_from_text("101"), None);
    assert_eq!(minimum_score_from_text(" 5"), None);
    assert_eq!(max_pages_from_text("  "), Some(None));
    assert_eq!(max_pages_from_text(" 20 "), Some(Some(20)));
    assert_eq!(max_pages_from_text("0"), None);
    assert_eq!(max_pages_from_text("x"), None);
    assert_eq!(concurrent_downloads_from_text("100"), Some(100));
    assert_eq!(concurrent_downloads_from_text("0"), None);
    assert_eq!(concurrent_downloads_from_text("99999999999"), None);
}
