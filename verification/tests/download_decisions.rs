use rustitles::data::{DownloadJob, JobStatus};
use rustitles::downloads::{
    append_status, cancel_unfinished, changed_subtitles, combined_output, decimal_string,
    download_start_error, download_verdict, embedded_status, fail_panicked_job, hearing_impaired_subtitles,
    is_network_path, pending_job_indexes, queue_jobs, stream_status, subliminal_download_args, without,
    DownloadVerdict, MAX_STATUS_BUFFER_BYTES,
};

fn strings(items: &[&str]) -> Vec<String> {
    items.iter().map(|s| s.to_string()).collect()
}

#[test]
fn decimal_string_writes_plain_digits() {
    assert_eq!(decimal_string(0), "0");
    assert_eq!(decimal_string(7), "7");
    assert_eq!(decimal_string(10), "10");
    assert_eq!(decimal_string(255), "255");
    assert_eq!(decimal_string(u64::MAX), "18446744073709551615");
}

#[test]
fn download_arguments_follow_the_settings() {
    let args = subliminal_download_args(
        "/tmp/job/subliminal.toml",
        "/tmp/job",
        Some(3),
        true,
        false,
        true,
        &strings(&["opensubtitlescom", "podnapisi"]),
        &strings(&["hash", "metadata"]),
        25,
        &strings(&["en", "fr"]),
        "/media/Movie.mkv",
        false,
    );
    assert_eq!(
        args,
        strings(&[
            "--config",
            "/tmp/job/subliminal.toml",
            "--cache-dir",
            "/tmp/job",
            "--provider.opensubtitlescom.max_result_pages",
            "3",
            "download",
            "--force-embedded-subtitles",
            "--no-hearing-impaired",
            "--language-type-suffix",
            "--provider",
            "opensubtitlescom",
            "--provider",
            "podnapisi",
            "--refiner",
            "hash",
            "--refiner",
            "metadata",
            "--min-score",
            "25",
            "-l",
            "en",
            "-l",
            "fr",
            "/media/Movie.mkv",
        ])
    );
}

#[test]
fn network_videos_skip_the_metadata_refiner() {
    assert!(is_network_path("\\\\server\\share\\Movie.mkv", false));
    assert!(!is_network_path("/media/Movie.mkv", false));
    assert!(is_network_path("/Volumes/nas/Movie.mkv", true));
    assert!(!is_network_path("/Volumes/nas/Movie.mkv", false));
    assert!(!is_network_path("/VolumesX/Movie.mkv", true));
    let args = subliminal_download_args(
        "c",
        "d",
        None,
        false,
        false,
        false,
        &[],
        &strings(&["hash", "metadata"]),
        0,
        &strings(&["en"]),
        "\\\\server\\share\\Movie.mkv",
        false,
    );
    assert_eq!(
        args,
        strings(&[
            "--config",
            "c",
            "--cache-dir",
            "d",
            "download",
            "--refiner",
            "hash",
            "-l",
            "en",
            "\\\\server\\share\\Movie.mkv",
        ])
    );
}

#[test]
fn download_start_is_refused_with_a_reason() {
    assert_eq!(
        download_start_error(true, &strings(&["en"]), true).as_deref(),
        Some("Select at least one language and ensure no downloads are in progress.")
    );
    assert_eq!(
        download_start_error(false, &[], true).as_deref(),
        Some("Select at least one language and ensure no downloads are in progress.")
    );
    assert_eq!(
        download_start_error(false, &strings(&["en"]), false).as_deref(),
        Some("A runnable Subliminal 2.4.0 or newer is required. Upgrade Subliminal before downloading.")
    );
    assert_eq!(download_start_error(false, &strings(&["en"]), true), None);
}

#[test]
fn queued_jobs_are_pending() {
    let jobs = queue_jobs(strings(&["a.mkv", "b.mkv"]));
    assert_eq!(jobs.len(), 2);
    assert_eq!(jobs[1].video_path, "b.mkv");
    assert_eq!(jobs[0].status, JobStatus::Pending);
    assert_eq!(jobs[0].output, "Queued");
    assert!(jobs[0].subtitle_paths.is_empty());
}

#[test]
fn cancellation_only_touches_unfinished_jobs() {
    let job = |status: JobStatus| DownloadJob {
        video_path: "v.mkv".to_string(),
        status,
        output: "out".to_string(),
        subtitle_paths: Vec::new(),
    };
    let mut jobs = vec![
        job(JobStatus::Pending),
        job(JobStatus::Running),
        job(JobStatus::Success),
        job(JobStatus::Failed("x".to_string())),
    ];
    cancel_unfinished(&mut jobs);
    assert_eq!(jobs[0].status, JobStatus::Failed("Cancelled".to_string()));
    assert_eq!(jobs[1].status, JobStatus::Failed("Cancelled".to_string()));
    assert_eq!(jobs[2].status, JobStatus::Success);
    assert_eq!(jobs[3].status, JobStatus::Failed("x".to_string()));
    assert_eq!(jobs[0].output, "out");
}

#[test]
fn only_pending_jobs_are_queued_in_order() {
    let job = |status: JobStatus| DownloadJob {
        video_path: "v.mkv".to_string(),
        status,
        output: String::new(),
        subtitle_paths: Vec::new(),
    };
    let jobs = vec![
        job(JobStatus::Running),
        job(JobStatus::Pending),
        job(JobStatus::Success),
        job(JobStatus::Pending),
        job(JobStatus::Pending),
    ];
    assert_eq!(pending_job_indexes(&jobs), vec![1, 3, 4]);
    assert_eq!(pending_job_indexes(&Vec::new()), Vec::<usize>::new());
}

#[test]
fn combined_output_is_lowercased_and_trimmed() {
    assert_eq!(
        combined_output("  Downloaded 0 Subtitle\n", "ÉCLAIR  "),
        "downloaded 0 subtitle\n\néclair"
    );
}

fn verdict(output: Result<&str, &str>, changed: bool, excluded: usize, none_kept: bool, force: bool) -> String {
    let output = output.map(str::to_string).map_err(str::to_string);
    match download_verdict(&output, changed, excluded, none_kept, force) {
        DownloadVerdict::Done(JobStatus::Success) => "success".to_string(),
        DownloadVerdict::Done(JobStatus::Failed(m)) => format!("failed: {m}"),
        DownloadVerdict::Done(other) => format!("{other:?}"),
        DownloadVerdict::CheckEmbedded => "check embedded".to_string(),
    }
}

#[test]
fn download_verdicts_cover_every_outcome() {
    assert_eq!(verdict(Err("spawn failed"), false, 0, false, true), "failed: Failed to run subliminal: spawn failed");
    assert_eq!(verdict(Ok("downloaded 0 subtitle"), true, 0, false, true), "success");
    assert_eq!(verdict(Ok("downloaded 0 subtitle"), false, 0, false, false), "check embedded");
    assert_eq!(verdict(Ok("downloaded 0 subtitle"), false, 0, false, true), "failed: No subtitles found online");
    assert_eq!(verdict(Ok("dbm.error: x"), false, 0, false, true), "failed: DBM cache error - try again later");
    assert_eq!(verdict(Ok("db type could not be determined; failed"), true, 0, false, true), "success");
    assert_eq!(verdict(Ok("provider failed"), false, 0, false, true), "failed: Subliminal error: see log");
    assert_eq!(verdict(Ok("provider error"), true, 0, false, true), "success");
    assert_eq!(verdict(Ok("downloaded 1 subtitle"), false, 2, true, true), "failed: Only SDH or caption subtitles were found and excluded");
    assert_eq!(verdict(Ok("downloaded 1 subtitle"), true, 0, false, true), "success");
    assert_eq!(verdict(Ok("downloaded 1 subtitle"), false, 0, false, true), "failed: No new subtitles downloaded");
}

#[test]
fn embedded_status_names_found_and_missing_languages() {
    assert_eq!(
        embedded_status(&strings(&["en"]), &Vec::new()),
        JobStatus::Failed("No subtitles found (no embedded or external subtitles available)".to_string())
    );
    assert_eq!(
        embedded_status(&strings(&["en", "fr"]), &strings(&["en", "fr"])),
        JobStatus::EmbeddedExists("Embedded English, French subtitles already exist (no external subtitles found online)".to_string())
    );
    assert_eq!(
        embedded_status(&strings(&["en", "fr"]), &strings(&["en"])),
        JobStatus::Failed("Embedded English subtitles exist, but no external subtitles were found for French".to_string())
    );
}

#[test]
fn hearing_impaired_subtitles_are_set_apart() {
    let all = strings(&["Movie.en.srt", "Movie.en.sdh.srt", "Movie.fr.cc.srt"]);
    let rejected = hearing_impaired_subtitles("Movie.mkv", &all);
    assert_eq!(rejected, strings(&["Movie.en.sdh.srt", "Movie.fr.cc.srt"]));
    let existing = strings(&["Movie.fr.cc.srt"]);
    assert_eq!(without(&rejected, &existing), strings(&["Movie.en.sdh.srt"]));
    assert_eq!(without(&all, &rejected), strings(&["Movie.en.srt"]));
}

#[test]
fn changed_subtitles_compare_signatures() {
    let paths = strings(&["a.srt", "b.srt", "c.srt", "d.srt"]);
    let before = vec![("a.srt".to_string(), 1, 10), ("b.srt".to_string(), 2, 20), ("d.srt".to_string(), 4, 40)];
    let after = vec![Some((1, 10)), Some((2, 21)), Some((3, 30)), None];
    assert_eq!(changed_subtitles(&paths, &before, &after), strings(&["b.srt", "c.srt"]));
}

#[test]
fn stream_status_shows_the_masked_latest_line() {
    assert_eq!(
        stream_status("stdout", "first\n token=abc \n\n").as_deref(),
        Some("stdout: token=***")
    );
    assert_eq!(stream_status("stderr", " \n"), None);
}

#[test]
fn status_buffer_is_dropped_once_too_large() {
    let mut buffer = String::new();
    let mut suppressed = false;
    append_status(&mut buffer, &mut suppressed, "abc");
    assert_eq!(buffer, "abc");
    assert!(!suppressed);
    let big = "é".repeat(MAX_STATUS_BUFFER_BYTES / 2);
    append_status(&mut buffer, &mut suppressed, &big);
    assert!(buffer.is_empty());
    assert!(suppressed);
    append_status(&mut buffer, &mut suppressed, "more");
    assert!(buffer.is_empty());
}

#[test]
fn panicked_worker_becomes_a_failed_job() {
    let mut jobs = vec![DownloadJob {
        video_path: "Movie.mkv".into(),
        status: JobStatus::Running,
        output: String::new(),
        subtitle_paths: Vec::new(),
    }];
    fail_panicked_job(&mut jobs, 0);
    assert!(matches!(jobs[0].status, JobStatus::Failed(_)));
    assert_eq!(jobs[0].status, JobStatus::Failed("Download worker failed".to_string()));
    fail_panicked_job(&mut jobs, 5);
    assert_eq!(jobs.len(), 1);
}
