use rustitles::scan_history::{merge_record, record_allows_skip, ScanHistory, ScanRecord};

#[test]
fn skip_requires_identity_and_language_subset() {
    let mut history = ScanHistory::default();
    history.insert_record(
        "C:\\media\\Movie.mkv".to_string(),
        ScanRecord {
            size: 100,
            mtime_secs: 50,
            mtime_nanos: Some(0),
            file_id: Some(1),
            langs: vec!["en".to_string()],
            contains_hearing_impaired: false,
            hearing_impaired_langs: Vec::new(),
        },
    );
    assert!(ScanHistory::covers_languages(
        &["en".to_string()],
        &["en".to_string()]
    ));
    assert!(!ScanHistory::covers_languages(
        &["en".to_string()],
        &["en".to_string(), "fr".to_string()]
    ));
    assert!(ScanHistory::covers_languages(
        &["en".to_string(), "fr".to_string()],
        &["fr".to_string()]
    ));

    let record = history.get_record("C:\\media\\Movie.mkv").unwrap();
    assert_eq!(record.size, 100);
    assert_ne!(record.size, 101);
    assert_ne!(record.mtime_secs, 51);
}

#[test]
fn covered_langs_reads_sidecars() {
    let video = "C:/media/Movie.mkv";
    let subs = vec![
        "C:/media/Movie.en.srt".to_string(),
        "C:/media/Movie.fr.sdh.srt".to_string(),
    ];
    let langs = ScanHistory::covered_langs(
        video,
        &subs,
        &["en".to_string(), "de".to_string(), "fr".to_string()],
    );
    assert_eq!(langs, vec!["en".to_string(), "fr".to_string()]);
    let hearing_impaired = ScanHistory::hearing_impaired_langs(
        video,
        &subs,
        &["en".to_string(), "de".to_string(), "fr".to_string()],
    );
    assert_eq!(hearing_impaired, vec!["fr".to_string()]);
}

#[test]
fn failed_jobs_do_not_write_records() {
    let history = ScanHistory::default();
    assert!(history.is_empty());
}

#[test]
fn changed_file_identity_discards_old_languages() {
    let old = ScanRecord {
        size: 100,
        mtime_secs: 50,
        mtime_nanos: Some(0),
        file_id: Some(1),
        langs: vec!["en".to_string(), "fr".to_string()],
        contains_hearing_impaired: false,
        hearing_impaired_langs: Vec::new(),
    };

    let merged = merge_record(Some(&old), 101, 51, 0, 2, &["en".to_string()], &[]);

    assert_eq!(merged.langs, vec!["en"]);
}

#[test]
fn hearing_impaired_history_is_not_skipped_when_excluded() {
    let record = ScanRecord {
        size: 100,
        mtime_secs: 50,
        mtime_nanos: Some(0),
        file_id: Some(1),
        langs: vec!["en".to_string(), "fr".to_string()],
        contains_hearing_impaired: true,
        hearing_impaired_langs: Vec::new(),
    };

    assert!(!record_allows_skip(&record, &["en".to_string()], true));
    assert!(record_allows_skip(&record, &["en".to_string()], false));
}

#[test]
fn hearing_impaired_history_updates_per_language() {
    let old = ScanRecord {
        size: 100,
        mtime_secs: 50,
        mtime_nanos: Some(0),
        file_id: Some(1),
        langs: vec!["en".to_string(), "fr".to_string()],
        contains_hearing_impaired: true,
        hearing_impaired_langs: vec!["en".to_string(), "fr".to_string()],
    };

    let merged = merge_record(Some(&old), 100, 50, 0, 1, &["en".to_string()], &[]);

    assert_eq!(merged.hearing_impaired_langs, vec!["fr"]);
    assert!(record_allows_skip(&merged, &["en".to_string()], true));
    assert!(!record_allows_skip(&merged, &["fr".to_string()], true));
}

#[test]
fn legacy_hearing_impaired_flag_clears_after_full_refresh() {
    let old = ScanRecord {
        size: 100,
        mtime_secs: 50,
        mtime_nanos: Some(0),
        file_id: Some(1),
        langs: vec!["en".to_string()],
        contains_hearing_impaired: true,
        hearing_impaired_langs: Vec::new(),
    };

    let merged = merge_record(Some(&old), 100, 50, 0, 1, &["en".to_string()], &[]);

    assert!(!merged.contains_hearing_impaired);
    assert!(record_allows_skip(&merged, &["en".to_string()], true));
}

#[test]
fn legacy_hearing_impaired_flag_migrates_by_refreshed_language() {
    let old = ScanRecord {
        size: 100,
        mtime_secs: 50,
        mtime_nanos: Some(0),
        file_id: Some(1),
        langs: vec!["en".to_string(), "fr".to_string()],
        contains_hearing_impaired: true,
        hearing_impaired_langs: Vec::new(),
    };

    let merged = merge_record(Some(&old), 100, 50, 0, 1, &["en".to_string()], &[]);

    assert_eq!(merged.hearing_impaired_langs, vec!["fr"]);
    assert!(record_allows_skip(&merged, &["en".to_string()], true));
    assert!(!record_allows_skip(&merged, &["fr".to_string()], true));
}

#[test]
fn legacy_identity_preserves_history_during_refresh() {
    let old = ScanRecord {
        size: 100,
        mtime_secs: 50,
        mtime_nanos: None,
        file_id: None,
        langs: vec!["en".to_string(), "fr".to_string()],
        contains_hearing_impaired: true,
        hearing_impaired_langs: Vec::new(),
    };

    let merged = merge_record(Some(&old), 100, 50, 11, 2, &["en".to_string()], &[]);

    assert_eq!(merged.langs, vec!["en", "fr"]);
    assert_eq!(merged.hearing_impaired_langs, vec!["fr"]);
    assert_eq!(merged.mtime_nanos, Some(11));
    assert_eq!(merged.file_id, Some(2));
}

#[test]
fn precise_identity_requires_subsecond_timestamp() {
    let record = ScanRecord {
        size: 100,
        mtime_secs: 50,
        mtime_nanos: Some(10),
        file_id: Some(1),
        langs: vec!["en".to_string(), "fr".to_string()],
        contains_hearing_impaired: false,
        hearing_impaired_langs: Vec::new(),
    };

    assert!(record_allows_skip(&record, &["en".to_string()], false));
    let replaced = merge_record(Some(&record), 100, 50, 11, 1, &["en".to_string()], &[]);
    assert_eq!(replaced.langs, vec!["en"]);
    assert_eq!(record.mtime_nanos, Some(10));
    assert_ne!(record.mtime_nanos, replaced.mtime_nanos);
    let replaced_file = merge_record(Some(&record), 100, 50, 10, 2, &["en".to_string()], &[]);
    assert_eq!(replaced_file.langs, vec!["en"]);
    assert_ne!(record.file_id, replaced_file.file_id);
}
