//! Download jobs, startup phases and installation results.

use vstd::prelude::*;
use crate::downloads::{decimal_spec, decimal_string};
use crate::text::{opt_text, push_str};

verus! {

/// Subtitle download status.
#[derive(Clone, Debug, PartialEq, Eq)]
pub enum JobStatus {
    Pending,
    Running,
    Success,
    Skipped,
    EmbeddedExists(String),
    Failed(String),
}

/// The status of a job, with its messages as character sequences.
pub enum StatusView {
    Pending,
    Running,
    Success,
    Skipped,
    EmbeddedExists(Seq<char>),
    Failed(Seq<char>),
}

impl View for JobStatus {
    type V = StatusView;

    open spec fn view(&self) -> StatusView {
        match self {
            JobStatus::Pending => StatusView::Pending,
            JobStatus::Running => StatusView::Running,
            JobStatus::Success => StatusView::Success,
            JobStatus::Skipped => StatusView::Skipped,
            JobStatus::EmbeddedExists(m) => StatusView::EmbeddedExists(m@),
            JobStatus::Failed(m) => StatusView::Failed(m@),
        }
    }
}

/// A subtitle download job.
#[derive(Clone, Debug)]
pub struct DownloadJob {
    pub video_path: String,
    pub status: JobStatus,
    /// Latest status shown for pending or running jobs.
    pub output: String,
    pub subtitle_paths: Vec<String>,
}

/// Startup dependency state.
#[derive(Clone, Copy, Debug, PartialEq, Eq)]
pub enum StartupPhase {
    Checking,
    Installing,
    Ready,
}

impl StartupPhase {
    /// Whether startup is over.
    pub fn is_terminal(self) -> (r: bool)
        ensures
            r == (self is Ready),
    {
        match self {
            StartupPhase::Ready => true,
            _ => false,
        }
    }
}

/// How to run Subliminal: a program and the arguments that come before Subliminal's own.
#[derive(Clone, Debug, PartialEq, Eq)]
pub struct SubliminalCommand {
    pub program: String,
    pub prefix: Vec<String>,
}

/// Verified Subliminal installation result.
#[derive(Debug)]
pub struct SubliminalInstallResult {
    pub installed: bool,
    pub version: Option<String>,
    pub command: Option<SubliminalCommand>,
}

impl Default for SubliminalInstallResult {
    fn default() -> (r: Self)
        ensures
            !r.installed,
            r.version is None,
            r.command is None,
    {
        SubliminalInstallResult { installed: false, version: None, command: None }
    }
}

/// Background startup dependency result.
#[derive(Debug)]
pub struct InitCheckResult {
    pub python_command: Option<String>,
    pub python_version: Option<String>,
    pub pipx_installed: bool,
    pub pipx_version: Option<String>,
    pub subliminal_installed: bool,
    pub subliminal_version: Option<String>,
    pub subliminal_command: Option<SubliminalCommand>,
    pub ffmpeg_installed: bool,
    pub homebrew_installed: bool,
}

/// The dependency state that a verified installation leaves: installed flag, version and
/// command, or the installation's error.
pub fn verified_subliminal_state(
    result: Result<SubliminalInstallResult, String>,
) -> (r: Result<(bool, Option<String>, Option<SubliminalCommand>), String>)
    ensures
        match (result, r) {
            (Ok(a), Ok(b)) => b.0 == a.installed && b.1 == a.version && b.2 == a.command,
            (Err(e), Err(f)) => e == f,
            _ => false,
        },
{
    match result {
        Ok(result) => Ok((result.installed, result.version, result.command)),
        Err(e) => Err(e),
    }
}

/// The outcome of an installation whose probe afterwards found `probe`: that result when the
/// probe found a supported Subliminal, otherwise the error that it could not be verified.
pub fn verified_install(probe: SubliminalInstallResult) -> (r: Result<SubliminalInstallResult, String>)
    ensures
        probe.installed ==> r == Ok::<SubliminalInstallResult, String>(probe),
        !probe.installed ==> (r matches Err(e) && e@ == "Subliminal installation could not be verified"@),
{
    if probe.installed {
        Ok(probe)
    } else {
        Err("Subliminal installation could not be verified".to_owned())
    }
}

/// The number of jobs of a list satisfying `f`.
pub open spec fn count_jobs(jobs: Seq<DownloadJob>, f: spec_fn(JobStatus) -> bool) -> nat
    decreases jobs.len(),
{
    if jobs.len() == 0 {
        0
    } else {
        count_jobs(jobs.drop_last(), f) + if f(jobs.last().status) {
            1nat
        } else {
            0nat
        }
    }
}

/// Finished jobs: neither pending nor running.
pub open spec fn is_finished(s: JobStatus) -> bool {
    !(s is Pending) && !(s is Running)
}

/// Counts of finished, running and failed jobs.
pub fn download_jobs_progress(jobs: &[DownloadJob]) -> (r: (usize, usize, usize))
    ensures
        r.0 == count_jobs(jobs@, |s: JobStatus| is_finished(s)),
        r.1 == count_jobs(jobs@, |s: JobStatus| s is Running),
        r.2 == count_jobs(jobs@, |s: JobStatus| s is Failed),
        r.0 + r.1 <= jobs@.len(),
        r.2 <= r.0,
{
    let mut completed: usize = 0;
    let mut running: usize = 0;
    let mut failed: usize = 0;
    let mut i: usize = 0;
    while i < jobs.len()
        invariant
            0 <= i <= jobs@.len(),
            completed == count_jobs(jobs@.take(i as int), |s: JobStatus| is_finished(s)),
            running == count_jobs(jobs@.take(i as int), |s: JobStatus| s is Running),
            failed == count_jobs(jobs@.take(i as int), |s: JobStatus| s is Failed),
            completed + running <= i,
            failed <= completed,
        decreases jobs.len() - i,
    {
        assert(jobs@.take(i + 1).drop_last() =~= jobs@.take(i as int));
        assert(jobs@.take(i + 1).last() == jobs@[i as int]);
        match &jobs[i].status {
            JobStatus::Pending => {},
            JobStatus::Running => {
                running = running + 1;
            },
            JobStatus::Failed(_) => {
                completed = completed + 1;
                failed = failed + 1;
            },
            _ => {
                completed = completed + 1;
            },
        }
        i = i + 1;
    }
    assert(jobs@.take(jobs.len() as int) =~= jobs@);
    (completed, running, failed)
}

/// Counts of successful (including embedded-only), skipped and failed jobs.
pub fn download_jobs_summary(jobs: &[DownloadJob]) -> (r: (usize, usize, usize))
    ensures
        r.0 == count_jobs(jobs@, |s: JobStatus| s is Success || s is EmbeddedExists),
        r.1 == count_jobs(jobs@, |s: JobStatus| s is Skipped),
        r.2 == count_jobs(jobs@, |s: JobStatus| s is Failed),
        r.0 + r.1 + r.2 <= jobs@.len(),
{
    let mut success: usize = 0;
    let mut skipped: usize = 0;
    let mut failed: usize = 0;
    let mut i: usize = 0;
    while i < jobs.len()
        invariant
            0 <= i <= jobs@.len(),
            success == count_jobs(jobs@.take(i as int), |s: JobStatus| s is Success || s is EmbeddedExists),
            skipped == count_jobs(jobs@.take(i as int), |s: JobStatus| s is Skipped),
            failed == count_jobs(jobs@.take(i as int), |s: JobStatus| s is Failed),
            success + skipped + failed <= i,
        decreases jobs.len() - i,
    {
        assert(jobs@.take(i + 1).drop_last() =~= jobs@.take(i as int));
        assert(jobs@.take(i + 1).last() == jobs@[i as int]);
        match &jobs[i].status {
            JobStatus::Success => {
                success = success + 1;
            },
            JobStatus::EmbeddedExists(_) => {
                success = success + 1;
            },
            JobStatus::Skipped => {
                skipped = skipped + 1;
            },
            JobStatus::Failed(_) => {
                failed = failed + 1;
            },
            _ => {},
        }
        i = i + 1;
    }
    assert(jobs@.take(jobs.len() as int) =~= jobs@);
    (success, skipped, failed)
}

/// The status shown while jobs run: how many are finished, running and still pending, when
/// some job is running.
pub open spec fn progress_status_spec(jobs: Seq<DownloadJob>) -> Option<Seq<char>> {
    let completed = count_jobs(jobs, |s: JobStatus| is_finished(s));
    let running = count_jobs(jobs, |s: JobStatus| s is Running);
    if running > 0 {
        Some(
            "Running: "@ + decimal_spec(completed) + " completed, "@ + decimal_spec(running)
                + " running, "@ + decimal_spec((jobs.len() - completed - running) as nat) + " pending"@,
        )
    } else {
        None
    }
}

/// The status shown while jobs run (see `progress_status_spec`).
pub fn progress_status(jobs: &[DownloadJob]) -> (r: Option<String>)
    ensures
        opt_text(r) == progress_status_spec(jobs@),
{
    let (completed, running, _failed) = download_jobs_progress(jobs);
    if running > 0 {
        let mut s = "Running: ".to_owned();
        push_str(&mut s, decimal_string(completed as u64).as_str());
        push_str(&mut s, " completed, ");
        push_str(&mut s, decimal_string(running as u64).as_str());
        push_str(&mut s, " running, ");
        push_str(&mut s, decimal_string((jobs.len() - completed - running) as u64).as_str());
        push_str(&mut s, " pending");
        Some(s)
    } else {
        None
    }
}

/// The status shown when a download run has ended: how many jobs succeeded (embedded
/// subtitles included), were skipped and failed.
pub open spec fn completion_status_spec(jobs: Seq<DownloadJob>) -> Seq<char> {
    "Subliminal jobs completed: "@ + decimal_spec(
        count_jobs(jobs, |s: JobStatus| s is Success || s is EmbeddedExists),
    ) + " successful, "@ + decimal_spec(count_jobs(jobs, |s: JobStatus| s is Skipped)) + " skipped, "@
        + decimal_spec(count_jobs(jobs, |s: JobStatus| s is Failed)) + " failed"@
}

/// The status shown when a download run has ended (see `completion_status_spec`).
pub fn completion_status(jobs: &[DownloadJob]) -> (r: String)
    ensures
        r@ == completion_status_spec(jobs@),
{
    let (success, skipped, failed) = download_jobs_summary(jobs);
    let mut s = "Subliminal jobs completed: ".to_owned();
    push_str(&mut s, decimal_string(success as u64).as_str());
    push_str(&mut s, " successful, ");
    push_str(&mut s, decimal_string(skipped as u64).as_str());
    push_str(&mut s, " skipped, ");
    push_str(&mut s, decimal_string(failed as u64).as_str());
    push_str(&mut s, " failed");
    s
}

/// How a finished run turned out, as the status line marks it.
#[derive(Clone, Copy, Debug, PartialEq, Eq)]
pub enum RunOutcome {
    /// Every job failed.
    AllFailed,
    /// Every job succeeded, found embedded subtitles or was skipped.
    AllSucceeded,
    /// Anything else.
    Mixed,
}

/// A job that ended well: subtitles downloaded or embedded, or nothing to do.
pub open spec fn ended_well(s: JobStatus) -> bool {
    s is Success || s is EmbeddedExists || s is Skipped
}

/// The outcome of a run: all failed takes precedence (so an empty run counts as failed).
pub open spec fn run_outcome_spec(jobs: Seq<DownloadJob>) -> RunOutcome {
    if forall|i: int| 0 <= i < jobs.len() ==> (#[trigger] jobs[i]).status is Failed {
        RunOutcome::AllFailed
    } else if forall|i: int| 0 <= i < jobs.len() ==> ended_well((#[trigger] jobs[i]).status) {
        RunOutcome::AllSucceeded
    } else {
        RunOutcome::Mixed
    }
}

/// The outcome of a run (see `run_outcome_spec`).
pub fn run_outcome(jobs: &[DownloadJob]) -> (r: RunOutcome)
    ensures
        r == run_outcome_spec(jobs@),
{
    let mut all_failed = true;
    let mut all_well = true;
    let mut i: usize = 0;
    while i < jobs.len()
        invariant
            0 <= i <= jobs@.len(),
            all_failed == forall|j: int| 0 <= j < i ==> (#[trigger] jobs@[j]).status is Failed,
            all_well == forall|j: int| 0 <= j < i ==> ended_well((#[trigger] jobs@[j]).status),
        decreases jobs.len() - i,
    {
        match &jobs[i].status {
            JobStatus::Failed(_) => {
                all_well = false;
            },
            JobStatus::Success | JobStatus::EmbeddedExists(_) | JobStatus::Skipped => {
                all_failed = false;
            },
            _ => {
                all_failed = false;
                all_well = false;
            },
        }
        i = i + 1;
    }
    if all_failed {
        RunOutcome::AllFailed
    } else if all_well {
        RunOutcome::AllSucceeded
    } else {
        RunOutcome::Mixed
    }
}

} // verus!
