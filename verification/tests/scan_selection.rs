use rustitles::data::JobStatus;
use rustitles::scan_history::{FileIdentity, ScanHistory};
use rustitles::subtitles::SubtitleUtils;

fn strings(items: &[&str]) -> Vec<String> {
    items.iter().map(|s| s.to_string()).collect()
}

fn identity(size: u64) -> FileIdentity {
    FileIdentity { size, mtime_secs: 50, mtime_nanos: 0, file_id: 1 }
}

#[test]
fn missing_subtitle_uses_language_generic_and_sdh_rules() {
    let langs = strings(&["en"]);
    assert!(SubtitleUtils::video_missing_subtitle_in_listing("/m/Movie.mkv", &langs, false, &[]));
    assert!(!SubtitleUtils::video_missing_subtitle_in_listing("/m/Movie.mkv", &langs, false, &strings(&["/m/Movie.en.srt"])));
    assert!(!SubtitleUtils::video_missing_subtitle_in_listing("/m/Movie.mkv", &langs, false, &strings(&["/m/Movie.srt"])));
    let sdh = strings(&["/m/Movie.en.sdh.srt"]);
    assert!(!SubtitleUtils::video_missing_subtitle_in_listing("/m/Movie.mkv", &langs, false, &sdh));
    assert!(SubtitleUtils::video_missing_subtitle_in_listing("/m/Movie.mkv", &langs, true, &sdh));
}

#[test]
fn scan_keeps_the_videos_that_need_subtitles() {
    let videos = vec![
        ("/a/One.mkv".to_string(), 0),
        ("/a/Two.mkv".to_string(), 0),
        ("/b/Three.mkv".to_string(), 1),
        ("/c/Four.mkv".to_string(), 7),
    ];
    let listings = vec![strings(&["/a/One.en.srt"]), strings(&["/b/Three.fr.srt"])];
    let langs = strings(&["en"]);
    assert_eq!(
        SubtitleUtils::videos_needing_subtitles(&videos, &listings, &langs, false, false),
        strings(&["/a/Two.mkv", "/b/Three.mkv", "/c/Four.mkv"])
    );
    assert_eq!(
        SubtitleUtils::videos_needing_subtitles(&videos, &listings, &langs, false, true),
        strings(&["/a/One.mkv", "/a/Two.mkv", "/b/Three.mkv", "/c/Four.mkv"])
    );
}

#[test]
fn recorded_downloads_are_skipped_on_the_next_scan() {
    let mut history = ScanHistory::default();
    let changed = strings(&["/a/One.en.srt"]);
    let langs = strings(&["en"]);
    history.record_download("/a/One.mkv", Some(identity(100)), &JobStatus::Failed("x".to_string()), &changed, &langs);
    assert!(history.is_empty());
    history.record_download("/a/One.mkv", Some(identity(100)), &JobStatus::Success, &[], &langs);
    assert!(history.is_empty());
    history.record_download("/a/One.mkv", None, &JobStatus::Success, &changed, &langs);
    assert!(history.is_empty());
    history.record_download("/a/One.mkv", Some(identity(100)), &JobStatus::Success, &changed, &langs);
    assert_eq!(history.len(), 1);
    assert!(history.is_dirty());
    assert_eq!(history.get_record("/a/One.mkv").unwrap().langs, vec!["en"]);

    let candidates = vec![
        ("/a/One.mkv".to_string(), Some(identity(100))),
        ("/a/Two.mkv".to_string(), Some(identity(100))),
        ("/a/One.mkv".to_string(), Some(identity(101))),
    ];
    let (kept, skipped) = history.unskipped(&candidates, &langs, false);
    assert_eq!(kept, strings(&["/a/Two.mkv", "/a/One.mkv"]));
    assert_eq!(skipped, 1);
    assert!(history.should_skip("/a/One.mkv", Some(identity(100)), &langs, true));
    assert!(!history.should_skip("/a/One.mkv", None, &langs, false));
    history.mark_saved();
    assert!(!history.is_dirty());
}

#[test]
fn unrecognised_sidecars_record_the_requested_languages() {
    let mut history = ScanHistory::default();
    let changed = strings(&["/a/One.srt"]);
    let langs = strings(&["de", "fr"]);
    history.record_download("/a/One.mkv", Some(identity(5)), &JobStatus::Success, &changed, &langs);
    assert_eq!(history.get_record("/a/One.mkv").unwrap().langs, vec!["de", "fr"]);
}

#[test]
fn subtitle_files_are_known_by_extension() {
    assert!(SubtitleUtils::is_subtitle_file("/m/Movie.en.SRT"));
    assert!(SubtitleUtils::is_subtitle_file("/m/Movie.vtt"));
    assert!(!SubtitleUtils::is_subtitle_file("/m/Movie.mkv"));
    assert!(!SubtitleUtils::is_subtitle_file("/m/srt"));
}

#[test]
fn backups_are_numbered_after_the_first() {
    assert_eq!(SubtitleUtils::backup_file_name("Movie.en.srt", 0), "Movie.en.srt.bak");
    assert_eq!(SubtitleUtils::backup_file_name("Movie.en.srt", 1), "Movie.en.srt.bak.1");
    assert_eq!(SubtitleUtils::backup_file_name("Movie.en.srt", 12), "Movie.en.srt.bak.12");
}

#[test]
fn unix_identity_packs_device_and_inode() {
    let id = FileIdentity::from_unix_metadata(10, 20, 30, 1, 2);
    assert_eq!(id.file_id, (1u128 << 64) + 2);
    assert_eq!((id.size, id.mtime_secs, id.mtime_nanos), (10, 20, 30));
}
