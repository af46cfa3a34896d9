use rustitles::subtitles::SubtitleUtils;

#[test]
fn discovery_includes_all_matching_formats() {
    let paths = ["Movie.en.ass", "Movie.en.srt", "Movie.srt", "Movie.ass"].map(String::from);
    let mut found = SubtitleUtils::find_all_subtitle_files_in_listing(
        "Movie.mkv",
        &["en".into()],
        &paths,
    );
    found.sort();
    let mut expected = paths.to_vec();
    expected.sort();
    assert_eq!(found, expected);
}

#[test]
fn recognizes_upstream_type_suffix() {
    assert!(SubtitleUtils::is_hearing_impaired_path(
        "Movie.mkv",
        "Movie.[hi].en.srt"
    ));
    assert!(SubtitleUtils::matches_language(
        "Movie.mkv",
        "Movie.[hi].en.srt",
        "en"
    ));
    assert!(!SubtitleUtils::is_hearing_impaired_path(
        "Caption.2024.mkv",
        "Caption.2024.en.srt"
    ));
    assert!(!SubtitleUtils::is_hearing_impaired_path(
        "Movie.mkv",
        "Movie.hi.srt"
    ));
}

#[test]
fn embedded_languages_use_iso_aliases_without_guessing_regions() {
    let requested = ["es", "ja", "de", "en", "en-us", "xx"].map(str::to_string);
    assert_eq!(
        SubtitleUtils::parse_embedded_languages("0,spa\n1,jpn\n2,ger\n3,eng", &requested),
        vec!["es", "ja", "de", "en"]
    );
}

#[test]
fn identifies_caption_markers_without_matching_regular_words() {
    assert!(SubtitleUtils::is_hearing_impaired_path(
        "Movie.mkv",
        "Movie.en.sdh.srt"
    ));
    assert!(SubtitleUtils::is_hearing_impaired_path(
        "Movie.mkv",
        "Movie.en.cc.srt"
    ));
    assert!(SubtitleUtils::is_hearing_impaired_path(
        "Movie.mkv",
        "Movie.en.[CC].srt"
    ));
    assert!(!SubtitleUtils::is_hearing_impaired_path(
        "Movie.mkv",
        "Movie.hi.srt"
    ));
    assert!(!SubtitleUtils::is_hearing_impaired_path(
        "Movie.mkv",
        "Movie.en.srt"
    ));
    assert!(!SubtitleUtils::is_hearing_impaired_path(
        "The.History.mkv",
        "The.History.srt"
    ));
}

#[test]
fn a_double_dot_sidecar_has_an_empty_suffix() {
    assert_eq!(
        SubtitleUtils::sidecar_suffix("/m/Movie.mkv", "/m/Movie..srt"),
        Some(String::new())
    );
    assert!(SubtitleUtils::matches_language("/m/Movie.mkv", "/m/Movie.en.srt", "en"));
}
