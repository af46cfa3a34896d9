use rustitles::data::{run_outcome, DownloadJob, JobStatus, RunOutcome, StartupPhase};

#[test]
fn startup_phase_is_terminal_only_when_ready() {
    assert!(!StartupPhase::Checking.is_terminal());
    assert!(!StartupPhase::Installing.is_terminal());
    assert!(StartupPhase::Ready.is_terminal());
}

fn jobs(statuses: Vec<JobStatus>) -> Vec<DownloadJob> {
    statuses
        .into_iter()
        .map(|status| DownloadJob {
            video_path: "v.mkv".to_string(),
            status,
            output: String::new(),
            subtitle_paths: Vec::new(),
        })
        .collect()
}

#[test]
fn run_outcome_marks_all_failed_all_good_or_mixed() {
    let failed = || JobStatus::Failed("x".to_string());
    assert_eq!(run_outcome(&jobs(vec![failed(), failed()])), RunOutcome::AllFailed);
    assert_eq!(
        run_outcome(&jobs(vec![
            JobStatus::Success,
            JobStatus::Skipped,
            JobStatus::EmbeddedExists("en".to_string()),
        ])),
        RunOutcome::AllSucceeded
    );
    assert_eq!(run_outcome(&jobs(vec![JobStatus::Success, failed()])), RunOutcome::Mixed);
    assert_eq!(run_outcome(&jobs(vec![JobStatus::Running])), RunOutcome::Mixed);
    assert_eq!(run_outcome(&jobs(Vec::new())), RunOutcome::AllFailed);
}
