use rustitles::commands::{
    linux_install_command, macos_install_command, path_with_directory, subliminal_attempts,
    termination_message, termination_reason, Termination,
};
use rustitles::data::{
    completion_status, progress_status, verified_install, DownloadJob, JobStatus,
    SubliminalInstallResult,
};
use rustitles::helpers::job_display_name;
use rustitles::versions::{
    classify_subliminal_probe, is_outdated, pipx_version, python3_version, release_tag,
    subliminal_version_label, version_check_result, ReleaseResponse, SubliminalProbe,
};

#[test]
fn outdated_compares_numeric_parts() {
    assert!(is_outdated("2.4.0", "v2.5.0"));
    assert!(is_outdated("1.0", "1.0.1"));
    assert!(!is_outdated("2.10.0", "2.9.9"));
    assert!(!is_outdated("2.4.0", "2.4.0"));
}

#[test]
fn version_texts_are_recognised() {
    assert_eq!(python3_version("Python 3.12.1\n", "").as_deref(), Some("Python 3.12.1"));
    assert_eq!(python3_version("", " Python 3.8.0 "), Some("Python 3.8.0".to_string()));
    assert_eq!(python3_version("Python 2.7.18", ""), None);
    assert_eq!(pipx_version("1.4.3\n").as_deref(), Some("1.4.3"));
    assert_eq!(pipx_version("pipx version 1.7.1").as_deref(), Some("1.7.1"));
    assert_eq!(pipx_version("unknown"), None);
    assert_eq!(
        classify_subliminal_probe("subliminal, version 2.4.0\n", ""),
        SubliminalProbe::Supported("subliminal, version 2.4.0".to_string())
    );
    assert_eq!(
        classify_subliminal_probe("", "Subliminal 2.1.0"),
        SubliminalProbe::Unsupported("Subliminal 2.1.0".to_string())
    );
    assert_eq!(classify_subliminal_probe("Python 3.12.1", ""), SubliminalProbe::Other);
}

#[test]
fn release_tags_come_from_the_json_body() {
    assert_eq!(release_tag(br#"{"tag_name":"v2.5.0","name":"x"}"#), Some(Some("v2.5.0".to_string())));
    assert_eq!(release_tag(br#"{"name":"x"}"#), Some(None));
    assert_eq!(release_tag(br#"{"tag_name":5}"#), Some(None));
    assert_eq!(release_tag(b"<html>"), None);
}

#[test]
fn version_check_results_name_the_failure() {
    assert_eq!(
        version_check_result(ReleaseResponse::Body(Some(Some("v2.5.0".to_string())))),
        (Some("v2.5.0".to_string()), None)
    );
    assert_eq!(
        version_check_result(ReleaseResponse::Status("404 Not Found".to_string())),
        (None, Some("HTTP error: 404 Not Found".to_string()))
    );
    assert_eq!(
        version_check_result(ReleaseResponse::Failed("timed out".to_string())),
        (None, Some("HTTP error: timed out".to_string()))
    );
    assert_eq!(
        version_check_result(ReleaseResponse::Body(None)),
        (None, Some("Failed to parse JSON".to_string()))
    );
    assert_eq!(
        version_check_result(ReleaseResponse::Body(Some(None))),
        (None, Some("No tag_name in response".to_string()))
    );
}

#[test]
fn install_commands_follow_the_platform_tools() {
    assert_eq!(linux_install_command("dnf", "a", "d", "p"), "d");
    assert_eq!(linux_install_command("pacman", "a", "d", "p"), "p");
    assert_eq!(linux_install_command("apt", "a", "d", "p"), "a");
    assert!(macos_install_command("ffmpeg", true).ends_with(" && brew install ffmpeg"));
    assert!(macos_install_command("ffmpeg", false).contains("Homebrew/install"));
}

#[test]
fn subliminal_is_tried_directly_then_as_a_module() {
    let attempts = subliminal_attempts(Some("python3.12"));
    assert_eq!(attempts[0].program, "subliminal");
    assert!(attempts[0].prefix.is_empty());
    assert_eq!(attempts[1].program, "python3.12");
    assert_eq!(attempts[1].prefix, vec!["-m", "subliminal"]);
    assert_eq!(attempts.len(), 5);
}

#[test]
fn job_counts_make_the_status_lines() {
    let job = |status: JobStatus| DownloadJob {
        video_path: "v.mkv".to_string(),
        status,
        output: String::new(),
        subtitle_paths: Vec::new(),
    };
    let jobs = vec![
        job(JobStatus::Success),
        job(JobStatus::EmbeddedExists("e".to_string())),
        job(JobStatus::Running),
        job(JobStatus::Pending),
        job(JobStatus::Failed("f".to_string())),
        job(JobStatus::Skipped),
    ];
    assert_eq!(progress_status(&jobs).as_deref(), Some("Running: 4 completed, 1 running, 1 pending"));
    assert_eq!(completion_status(&jobs), "Subliminal jobs completed: 2 successful, 1 skipped, 1 failed");
    assert_eq!(progress_status(&jobs[..2]), None);
}

#[test]
fn running_commands_stop_for_the_first_reason() {
    assert_eq!(termination_reason(true, 0, 0, 10, 20), Some(Termination::Cancelled));
    assert_eq!(termination_reason(false, 20, 20, 10, 20), Some(Termination::AbsoluteLimit));
    assert_eq!(termination_reason(false, 19, 10, 10, 20), Some(Termination::Inactivity));
    assert_eq!(termination_reason(false, 19, 9, 10, 20), None);
    assert_eq!(
        termination_message(Termination::Inactivity, 180, 300, 200, 180),
        "Subliminal command produced no output for 180 seconds (elapsed: 200 seconds; last output: 180 seconds ago)"
    );
    assert_eq!(
        termination_message(Termination::AbsoluteLimit, 180, 300, 300, 2),
        "Subliminal command reached its absolute limit of 300 seconds (elapsed: 300 seconds; last output: 2 seconds ago)"
    );
    assert_eq!(
        termination_message(Termination::Cancelled, 180, 300, 5, 1),
        "Subliminal command cancelled (elapsed: 5 seconds; last output: 1 seconds ago)"
    );
}

#[test]
fn local_bin_is_put_first_once() {
    assert_eq!(path_with_directory("/usr/bin:/bin", "/home/u/.local/bin"), "/home/u/.local/bin:/usr/bin:/bin");
    assert_eq!(path_with_directory("/home/u/.local/bin:/usr/bin", "/home/u/.local/bin"), "/home/u/.local/bin:/usr/bin");
}

#[test]
fn release_tag_reads_only_the_tag_name_member() {
    assert_eq!(release_tag(br#"{"name":"v9","tag_name":"v2.5.0"}"#), Some(Some("v2.5.0".to_string())));
    assert_eq!(release_tag(br#"{"tag_name":3}"#), Some(None));
    assert_eq!(release_tag(br#"[1,2]"#), Some(None));
    assert_eq!(release_tag(b"not json"), None);
}

#[test]
fn subliminal_version_label_drops_the_program_name() {
    assert_eq!(subliminal_version_label("subliminal, version 2.4.0"), "2.4.0");
    assert_eq!(subliminal_version_label("subliminal 2.5.1"), "2.5.1");
    assert_eq!(subliminal_version_label("2.6.0"), "2.6.0");
    assert_eq!(subliminal_version_label(""), "");
}

#[test]
fn only_a_found_subliminal_verifies_an_installation() {
    let found = SubliminalInstallResult {
        installed: true,
        version: Some("subliminal 2.4.0".to_string()),
        command: None,
    };
    let ok = verified_install(found).unwrap();
    assert_eq!(ok.version.as_deref(), Some("subliminal 2.4.0"));
    assert_eq!(
        verified_install(SubliminalInstallResult::default()).err(),
        Some("Subliminal installation could not be verified".to_string())
    );
}

fn parts(items: &[&str]) -> Vec<String> {
    items.iter().map(|s| s.to_string()).collect()
}

#[test]
fn job_names_show_folders_below_the_scanned_one() {
    let root = parts(&["/", "media"]);
    assert_eq!(
        job_display_name(&root, &parts(&["/", "media", "Show", "Season 1", "E01.mkv"]), '/'),
        "Show/Season 1/E01.mkv"
    );
    assert_eq!(
        job_display_name(&root, &parts(&["/", "media", "Movie", "Movie.mkv"]), '/'),
        "Movie/Movie.mkv"
    );
    assert_eq!(job_display_name(&root, &parts(&["/", "media", "Movie.mkv"]), '/'), "Movie.mkv");
    assert_eq!(job_display_name(&root, &parts(&["/"]), '/'), "Unknown");
}
