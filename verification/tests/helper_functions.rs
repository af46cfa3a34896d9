use rustitles::helpers::{Utils, Validation};

#[test]
fn truncate_string_respects_character_boundaries() {
    assert_eq!(Utils::truncate_string("字幕文件名称", 5), "字幕...");
    assert_eq!(Utils::truncate_string("abcdef", 3), "abc");
    assert_eq!(Utils::truncate_string("abcdef", 0), "");
}

#[test]
fn is_video_file_accepts_mkv_and_rejects_m4a() {
    assert!(Utils::is_video_file("show.mkv"));
    assert!(Utils::is_video_file("SHOW.MKV"));
    assert!(!Utils::is_video_file("track.m4a"));
    assert!(!Utils::is_video_file("audiobook.m4b"));
    assert!(!Utils::is_video_file("ringtone.m4r"));
}

#[test]
fn plex_extras_folder_match_is_case_insensitive() {
    assert!(Utils::is_plex_extras_folder("Behind The Scenes"));
    assert!(Utils::is_plex_extras_folder("behind the scenes"));
    assert!(Utils::is_plex_extras_folder("FEATURETTES"));
    assert!(!Utils::is_plex_extras_folder("Season 01"));
}

#[test]
fn folder_check_needs_a_non_empty_existing_directory() {
    assert!(Validation::folder_check("/media", true, true));
    assert!(!Validation::folder_check("/media", true, false));
    assert!(!Validation::folder_check("/media", false, false));
    assert!(!Validation::folder_check("", true, true));
    assert!(!Validation::is_valid_folder(""));
}
