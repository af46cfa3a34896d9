//! The decisions of a subtitle download run: which request may start, the jobs it queues, the
//! Subliminal command line of each job, what a finished job's output means, and what is
//! recorded afterwards.

use vstd::prelude::*;
use crate::commands::{last_non_blank, latest_non_empty_line, policy_args_spec, subtitle_policy_args};
use crate::data::{DownloadJob, JobStatus, StatusView};
use crate::languages::language_name_spec;
use crate::redact::{redact_sensitive, redact_spec};
use crate::subtitles::{hearing_impaired_spec, SubtitleUtils};
use crate::text::{chars_of, contains_chars, contains_seq, lines_seq, opt_text, push_char, push_str, texts, trim, trim_chars, string_of};

verus! {

/// The ASCII digit for `d < 10`.
pub open spec fn digit_char(d: nat) -> char {
    (('0' as u32) + d) as char
}

/// The decimal representation of `n`, without leading zeros.
pub open spec fn decimal_spec(n: nat) -> Seq<char>
    decreases n,
{
    if n < 10 {
        seq![digit_char(n)]
    } else {
        decimal_spec(n / 10).push(digit_char(n % 10))
    }
}

/// The decimal representation of `n` (`n.to_string()`).
pub fn decimal_string(n: u64) -> (r: String)
    ensures
        r@ == decimal_spec(n as nat),
    decreases n,
{
    let d: u64 = n % 10;
    let c: char = if d == 0 {
        '0'
    } else if d == 1 {
        '1'
    } else if d == 2 {
        '2'
    } else if d == 3 {
        '3'
    } else if d == 4 {
        '4'
    } else if d == 5 {
        '5'
    } else if d == 6 {
        '6'
    } else if d == 7 {
        '7'
    } else if d == 8 {
        '8'
    } else {
        '9'
    };
    assert(c == digit_char(d as nat));
    if n < 10 {
        let mut s = String::new();
        push_char(&mut s, c);
        assert(s@ =~= seq![c]);
        s
    } else {
        let mut s = decimal_string(n / 10);
        push_char(&mut s, c);
        s
    }
}

/// `flag item` for each item, in order.
pub open spec fn flag_pairs(flag: Seq<char>, items: Seq<Seq<char>>) -> Seq<Seq<char>>
    decreases items.len(),
{
    if items.len() == 0 {
        Seq::empty()
    } else {
        flag_pairs(flag, items.drop_last()) + seq![flag, items.last()]
    }
}

/// Whether a path begins with the components of `base`, as `Path::starts_with` decides.
pub uninterp spec fn path_starts_with(path: Seq<char>, base: Seq<char>) -> bool;

/// `Path::starts_with`: whether `path`'s components begin with those of `base`. It depends on
/// the two texts alone, named `path_starts_with`.
#[verifier::external_body]
fn path_has_prefix(path: &str, base: &str) -> (r: bool)
    ensures
        r == path_starts_with(path@, base@),
{
    std::path::Path::new(path).starts_with(base)
}

/// A path on a network share, where Subliminal's metadata refiner is not used: one that starts
/// with two backslashes, or, on macOS, one under `/Volumes`.
pub open spec fn is_network_path_spec(video: Seq<char>, macos: bool) -> bool {
    (video.len() >= 2 && video[0] == '\\' && video[1] == '\\') || (macos && path_starts_with(
        video,
        "/Volumes"@,
    ))
}

/// The refiners used for a video: all of them, but `metadata` on a network share.
pub open spec fn refiners_for(refiners: Seq<Seq<char>>, network: bool) -> Seq<Seq<char>> {
    refiners.filter(|r: Seq<char>| !(network && r == "metadata"@))
}

/// The Subliminal arguments of one download job.
pub open spec fn download_args_spec(
    config_path: Seq<char>,
    cache_dir: Seq<char>,
    max_pages: Option<u8>,
    force_download: bool,
    overwrite_existing: bool,
    exclude_hearing_impaired: bool,
    providers: Seq<Seq<char>>,
    refiners: Seq<Seq<char>>,
    minimum_score: u8,
    langs: Seq<Seq<char>>,
    video: Seq<char>,
    macos: bool,
) -> Seq<Seq<char>> {
    seq!["--config"@, config_path, "--cache-dir"@, cache_dir] + (match max_pages {
        Some(p) => seq!["--provider.opensubtitlescom.max_result_pages"@, decimal_spec(p as nat)],
        None => Seq::empty(),
    }) + seq!["download"@] + policy_args_spec(
        force_download,
        overwrite_existing,
        exclude_hearing_impaired,
    ) + flag_pairs("--provider"@, providers) + flag_pairs(
        "--refiner"@,
        refiners_for(refiners, is_network_path_spec(video, macos)),
    ) + (if minimum_score > 0 {
        seq!["--min-score"@, decimal_spec(minimum_score as nat)]
    } else {
        Seq::empty()
    }) + flag_pairs("-l"@, langs) + seq![video]
}

/// Whether a video lies on a network share (see `is_network_path_spec`); `macos` tells whether
/// the program runs on macOS.
pub fn is_network_path(video: &str, macos: bool) -> (r: bool)
    ensures
        r == is_network_path_spec(video@, macos),
{
    let v = chars_of(video);
    (v.len() >= 2 && v[0] == '\\' && v[1] == '\\') || (macos && path_has_prefix(video, "/Volumes"))
}

/// Appends `flag item` for each item.
fn push_flag_pairs(args: &mut Vec<String>, flag: &str, items: &[String])
    ensures
        texts(final(args)@) == texts(old(args)@) + flag_pairs(flag@, texts(items@)),
{
    let ghost start = texts(args@);
    let mut i: usize = 0;
    assert(texts(items@).take(0) =~= Seq::<Seq<char>>::empty());
    assert(start + flag_pairs(flag@, Seq::empty()) =~= start);
    while i < items.len()
        invariant
            0 <= i <= items@.len(),
            texts(args@) == start + flag_pairs(flag@, texts(items@).take(i as int)),
        decreases items.len() - i,
    {
        let ghost before = texts(args@);
        args.push(flag.to_owned());
        args.push(items[i].clone());
        let ghost t = texts(items@).take(i + 1);
        assert(t.drop_last() =~= texts(items@).take(i as int));
        assert(t.last() == items@[i as int]@);
        assert(texts(args@) =~= before + seq![flag@, items@[i as int]@]);
        i = i + 1;
    }
    assert(texts(items@).take(items.len() as int) =~= texts(items@));
}

/// Appends `--refiner name` for each refiner used for the video.
fn push_refiners(args: &mut Vec<String>, refiners: &[String], network: bool)
    ensures
        texts(final(args)@) == texts(old(args)@) + flag_pairs(
            "--refiner"@,
            refiners_for(texts(refiners@), network),
        ),
{
    let ghost pred = |r: Seq<char>| !(network && r == "metadata"@);
    let mut used: Vec<String> = Vec::new();
    let mut i: usize = 0;
    let m = chars_of("metadata");
    proof {
        crate::text::lemma_filter_empty(pred);
        assert(texts(refiners@).take(0) =~= Seq::<Seq<char>>::empty());
    }
    while i < refiners.len()
        invariant
            0 <= i <= refiners@.len(),
            m@ == "metadata"@,
            pred == (|r: Seq<char>| !(network && r == "metadata"@)),
            texts(used@) == texts(refiners@).take(i as int).filter(pred),
        decreases refiners.len() - i,
    {
        let rc = chars_of(refiners[i].as_str());
        proof {
            assert(texts(refiners@).take(i + 1) =~= texts(refiners@).take(i as int).push(refiners@[i as int]@));
            crate::text::lemma_filter_push(texts(refiners@).take(i as int), pred, refiners@[i as int]@);
        }
        if !(network && crate::text::chars_eq(&rc, &m)) {
            let ghost old_used = texts(used@);
            used.push(refiners[i].clone());
            assert(texts(used@) =~= old_used.push(refiners@[i as int]@));
        }
        i = i + 1;
    }
    assert(texts(refiners@).take(refiners.len() as int) =~= texts(refiners@));
    push_flag_pairs(args, "--refiner", used.as_slice());
}

/// The Subliminal arguments of one download job: configuration and cache, the OpenSubtitles
/// page limit, `download`, the subtitle policies, providers, refiners (without `metadata` for a
/// video on a network share), the minimum score when it is set, the languages and the video.
pub fn subliminal_download_args(
    config_path: &str,
    cache_dir: &str,
    max_pages: Option<u8>,
    force_download: bool,
    overwrite_existing: bool,
    exclude_hearing_impaired: bool,
    providers: &[String],
    refiners: &[String],
    minimum_score: u8,
    langs: &[String],
    video: &str,
    macos: bool,
) -> (r: Vec<String>)
    ensures
        texts(r@) == download_args_spec(
            config_path@,
            cache_dir@,
            max_pages,
            force_download,
            overwrite_existing,
            exclude_hearing_impaired,
            texts(providers@),
            texts(refiners@),
            minimum_score,
            texts(langs@),
            video@,
            macos,
        ),
{
    let mut args: Vec<String> = vec![
        "--config".to_owned(),
        config_path.to_owned(),
        "--cache-dir".to_owned(),
        cache_dir.to_owned(),
    ];
    let ghost a0 = texts(args@);
    assert(a0 =~= seq!["--config"@, config_path@, "--cache-dir"@, cache_dir@]);
    match max_pages {
        Some(p) => {
            args.push("--provider.opensubtitlescom.max_result_pages".to_owned());
            args.push(decimal_string(p as u64));
        },
        None => {},
    }
    let ghost a1 = texts(args@);
    assert(a1 =~= a0 + (match max_pages {
        Some(p) => seq!["--provider.opensubtitlescom.max_result_pages"@, decimal_spec(p as nat)],
        None => Seq::<Seq<char>>::empty(),
    }));
    args.push("download".to_owned());
    let ghost a2 = texts(args@);
    assert(a2 =~= a1 + seq!["download"@]);
    let policies = subtitle_policy_args(force_download, overwrite_existing, exclude_hearing_impaired);
    let mut k: usize = 0;
    while k < policies.len()
        invariant
            0 <= k <= policies@.len(),
            texts(args@) == a2 + texts(policies@).take(k as int),
        decreases policies.len() - k,
    {
        let ghost before = texts(args@);
        args.push(policies[k].clone());
        assert(texts(policies@).take(k + 1) =~= texts(policies@).take(k as int).push(policies@[k as int]@));
        assert(texts(args@) =~= before.push(policies@[k as int]@));
        k = k + 1;
    }
    assert(texts(policies@).take(policies.len() as int) =~= texts(policies@));
    let ghost a3 = texts(args@);
    push_flag_pairs(&mut args, "--provider", providers);
    let ghost a4 = texts(args@);
    let network = is_network_path(video, macos);
    push_refiners(&mut args, refiners, network);
    let ghost a5 = texts(args@);
    if minimum_score > 0 {
        args.push("--min-score".to_owned());
        args.push(decimal_string(minimum_score as u64));
    }
    let ghost a6 = texts(args@);
    assert(a6 =~= a5 + (if minimum_score > 0 {
        seq!["--min-score"@, decimal_spec(minimum_score as nat)]
    } else {
        Seq::<Seq<char>>::empty()
    }));
    push_flag_pairs(&mut args, "-l", langs);
    let ghost a7 = texts(args@);
    args.push(video.to_owned());
    assert(texts(args@) =~= a7 + seq![video@]);
    assert(texts(args@) =~= download_args_spec(
        config_path@,
        cache_dir@,
        max_pages,
        force_download,
        overwrite_existing,
        exclude_hearing_impaired,
        texts(providers@),
        texts(refiners@),
        minimum_score,
        texts(langs@),
        video@,
        macos,
    ));
    args
}

/// Why a download run cannot start: a run is already going or no language is selected, or no
/// runnable Subliminal was found.
pub open spec fn start_error_spec(downloading: bool, no_languages: bool, has_command: bool) -> Option<Seq<char>> {
    if downloading || no_languages {
        Some("Select at least one language and ensure no downloads are in progress."@)
    } else if !has_command {
        Some("A runnable Subliminal 2.4.0 or newer is required. Upgrade Subliminal before downloading."@)
    } else {
        None
    }
}

/// The status message that refuses a download run, or `None` when it may start.
pub fn download_start_error(downloading: bool, languages: &[String], has_command: bool) -> (r: Option<String>)
    ensures
        opt_text(r) == start_error_spec(downloading, languages@.len() == 0, has_command),
{
    if downloading || languages.len() == 0 {
        Some("Select at least one language and ensure no downloads are in progress.".to_owned())
    } else if !has_command {
        Some("A runnable Subliminal 2.4.0 or newer is required. Upgrade Subliminal before downloading.".to_owned())
    } else {
        None
    }
}

/// One pending job per video, in order, each showing `Queued`.
pub fn queue_jobs(videos: Vec<String>) -> (r: Vec<DownloadJob>)
    ensures
        r@.len() == videos@.len(),
        forall|i: int|
            0 <= i < r@.len() ==> {
                &&& (#[trigger] r@[i]).video_path@ == videos@[i]@
                &&& r@[i].status is Pending
                &&& r@[i].output@ == "Queued"@
                &&& r@[i].subtitle_paths@.len() == 0
            },
{
    let mut r: Vec<DownloadJob> = Vec::new();
    let mut i: usize = 0;
    while i < videos.len()
        invariant
            0 <= i <= videos@.len(),
            r@.len() == i,
            forall|j: int|
                0 <= j < i ==> {
                    &&& (#[trigger] r@[j]).video_path@ == videos@[j]@
                    &&& r@[j].status is Pending
                    &&& r@[j].output@ == "Queued"@
                    &&& r@[j].subtitle_paths@.len() == 0
                },
        decreases videos.len() - i,
    {
        r.push(
            DownloadJob {
                video_path: videos[i].clone(),
                status: JobStatus::Pending,
                output: "Queued".to_owned(),
                subtitle_paths: Vec::new(),
            },
        );
        i = i + 1;
    }
    r
}

/// The positions of the pending jobs, in increasing order: the download queue.
pub fn pending_job_indexes(jobs: &Vec<DownloadJob>) -> (r: Vec<usize>)
    ensures
        forall|k: int|
            0 <= k < r@.len() ==> r@[k] < jobs@.len() && (jobs@[#[trigger] r@[k] as int]).status is Pending,
        forall|k1: int, k2: int| 0 <= k1 < k2 < r@.len() ==> r@[k1] < r@[k2],
        forall|i: int|
            0 <= i < jobs@.len() && (#[trigger] jobs@[i]).status is Pending ==> exists|k: int|
                0 <= k < r@.len() && r@[k] == i,
{
    let mut r: Vec<usize> = Vec::new();
    let mut i: usize = 0;
    while i < jobs.len()
        invariant
            0 <= i <= jobs@.len(),
            forall|k: int|
                0 <= k < r@.len() ==> r@[k] < i && (jobs@[#[trigger] r@[k] as int]).status is Pending,
            forall|k1: int, k2: int| 0 <= k1 < k2 < r@.len() ==> r@[k1] < r@[k2],
            forall|j: int|
                0 <= j < i && (#[trigger] jobs@[j]).status is Pending ==> exists|k: int|
                    0 <= k < r@.len() && r@[k] == j,
        decreases jobs.len() - i,
    {
        let ghost before = r@;
        if matches!(jobs[i].status, JobStatus::Pending) {
            r.push(i);
        }
        proof {
            assert forall|j: int|
                0 <= j < i + 1 && (#[trigger] jobs@[j]).status is Pending implies exists|k: int|
                    0 <= k < r@.len() && r@[k] == j by {
                if j < i {
                    let k = choose|k: int| 0 <= k < before.len() && before[k] == j;
                    assert(r@[k] == j);
                } else {
                    assert(r@[r@.len() - 1] == j);
                }
            }
        }
        i = i + 1;
    }
    r
}

/// Marks the job at `idx`, whose worker ended by panicking, as failed with `Download worker
/// failed`; every other job, and the job's video, output and subtitles, stay as they were. An
/// index past the end changes nothing.
pub fn fail_panicked_job(jobs: &mut Vec<DownloadJob>, idx: usize)
    ensures
        final(jobs)@.len() == old(jobs)@.len(),
        forall|j: int| 0 <= j < old(jobs)@.len() && j != idx ==> #[trigger] final(jobs)@[j] == old(jobs)@[j],
        idx < old(jobs)@.len() ==> {
            &&& final(jobs)@[idx as int].video_path == old(jobs)@[idx as int].video_path
            &&& final(jobs)@[idx as int].output == old(jobs)@[idx as int].output
            &&& final(jobs)@[idx as int].subtitle_paths == old(jobs)@[idx as int].subtitle_paths
            &&& final(jobs)@[idx as int].status matches JobStatus::Failed(m) && m@ == "Download worker failed"@
        },
{
    if idx < jobs.len() {
        let ghost before = jobs@;
        let mut job = jobs.remove(idx);
        job.status = JobStatus::Failed("Download worker failed".to_owned());
        jobs.insert(idx, job);
        assert(jobs@ =~= before.update(idx as int, job));
    }
}

/// Marks every job that is still pending or running as cancelled; finished jobs keep their
/// status, and every job keeps its video, output and subtitles.
pub fn cancel_unfinished(jobs: &mut Vec<DownloadJob>)
    ensures
        final(jobs)@.len() == old(jobs)@.len(),
        forall|i: int|
            0 <= i < final(jobs)@.len() ==> {
                &&& (#[trigger] final(jobs)@[i]).video_path == old(jobs)@[i].video_path
                &&& final(jobs)@[i].output == old(jobs)@[i].output
                &&& final(jobs)@[i].subtitle_paths == old(jobs)@[i].subtitle_paths
                &&& final(jobs)@[i].status@ == (if old(jobs)@[i].status is Pending
                    || old(jobs)@[i].status is Running {
                    StatusView::Failed("Cancelled"@)
                } else {
                    old(jobs)@[i].status@
                })
            },
{
    let ghost before = jobs@;
    let mut i: usize = 0;
    while i < jobs.len()
        invariant
            0 <= i <= jobs@.len(),
            jobs@.len() == before.len(),
            forall|j: int|
                0 <= j < jobs@.len() ==> {
                    &&& (#[trigger] jobs@[j]).video_path == before[j].video_path
                    &&& jobs@[j].output == before[j].output
                    &&& jobs@[j].subtitle_paths == before[j].subtitle_paths
                    &&& jobs@[j].status@ == (if j < i && (before[j].status is Pending
                        || before[j].status is Running) {
                        StatusView::Failed("Cancelled"@)
                    } else {
                        before[j].status@
                    })
                },
        decreases jobs.len() - i,
    {
        let unfinished = match &jobs[i].status {
            JobStatus::Pending => true,
            JobStatus::Running => true,
            _ => false,
        };
        if unfinished {
            let ghost mid = jobs@;
            let mut job = jobs.remove(i);
            job.status = JobStatus::Failed("Cancelled".to_owned());
            jobs.insert(i, job);
            assert(jobs@ =~= mid.update(i as int, job));
        }
        i = i + 1;
    }
}

/// What `str::to_lowercase` returns: the Unicode lower-case form of the text.
pub uninterp spec fn unicode_lowercase(s: Seq<char>) -> Seq<char>;

/// `str::to_lowercase`, the Unicode lower-case form of the text (a final sigma depends on
/// its context); its result is a function of the text alone, named `unicode_lowercase`.
#[verifier::external_body]
fn to_lowercase(s: &str) -> (r: String)
    ensures
        r@ == unicode_lowercase(s@),
{
    s.to_lowercase()
}

/// The combined output that a finished Subliminal run is judged by.
pub open spec fn combined_output_spec(stdout: Seq<char>, stderr: Seq<char>) -> Seq<char> {
    trim(unicode_lowercase(stdout) + seq!['\n'] + unicode_lowercase(stderr))
}

/// Both output streams of a Subliminal run, lower-cased, joined by a line break and trimmed.
pub fn combined_output(stdout: &str, stderr: &str) -> (r: String)
    ensures
        r@ == combined_output_spec(stdout@, stderr@),
{
    let lo = to_lowercase(stdout);
    let le = to_lowercase(stderr);
    let mut joined = lo;
    push_char(&mut joined, '\n');
    push_str(&mut joined, le.as_str());
    assert(joined@ =~= unicode_lowercase(stdout@) + seq!['\n'] + unicode_lowercase(stderr@));
    let jc = chars_of(joined.as_str());
    let t = trim_chars(&jc);
    string_of(&t)
}

/// What a finished Subliminal run means for its job: a final status, or a look at the
/// embedded subtitles first.
pub enum DownloadVerdict {
    Done(JobStatus),
    CheckEmbedded,
}

/// The verdict, as a specification value.
pub enum VerdictView {
    Done(StatusView),
    CheckEmbedded,
}

impl View for DownloadVerdict {
    type V = VerdictView;

    open spec fn view(&self) -> VerdictView {
        match self {
            DownloadVerdict::Done(s) => VerdictView::Done(s@),
            DownloadVerdict::CheckEmbedded => VerdictView::CheckEmbedded,
        }
    }
}

/// Success when subtitles changed, else a failure with `message`.
pub open spec fn success_or(changed: bool, message: Seq<char>) -> VerdictView {
    if changed {
        VerdictView::Done(StatusView::Success)
    } else {
        VerdictView::Done(StatusView::Failed(message))
    }
}

/// The verdict on a run: `Err` holds the error that kept Subliminal from running, `Ok` its
/// combined output (see `combined_output_spec`). `changed` tells whether a subtitle of the
/// requested languages was written or changed, `excluded_sdh` how many hearing-impaired
/// subtitles were rejected and `none_kept` whether no subtitle of the requested languages is
/// left.
pub open spec fn verdict_spec(
    output: Result<Seq<char>, Seq<char>>,
    changed: bool,
    excluded_sdh: nat,
    none_kept: bool,
    force_download: bool,
) -> VerdictView {
    match output {
        Err(e) => VerdictView::Done(StatusView::Failed("Failed to run subliminal: "@ + e)),
        Ok(c) => if contains_seq(c, "downloaded 0 subtitle"@) {
            if changed {
                VerdictView::Done(StatusView::Success)
            } else if !force_download {
                VerdictView::CheckEmbedded
            } else {
                VerdictView::Done(StatusView::Failed("No subtitles found online"@))
            }
        } else if contains_seq(c, "error"@) || contains_seq(c, "failed"@) {
            if contains_seq(c, "dbm.error"@) || contains_seq(c, "db type could not be determined"@) {
                success_or(changed, "DBM cache error - try again later"@)
            } else {
                success_or(changed, "Subliminal error: see log"@)
            }
        } else if excluded_sdh > 0 && none_kept {
            VerdictView::Done(StatusView::Failed("Only SDH or caption subtitles were found and excluded"@))
        } else {
            success_or(changed, "No new subtitles downloaded"@)
        },
    }
}

/// Whether `text` contains the literal `lit`.
fn contains_lit(text: &Vec<char>, lit: &str) -> (r: bool)
    ensures
        r == contains_seq(text@, lit@),
{
    let l = chars_of(lit);
    contains_chars(text, &l)
}

/// The verdict on a finished run (see `verdict_spec`).
pub fn download_verdict(
    output: &Result<String, String>,
    changed: bool,
    excluded_sdh: usize,
    none_kept: bool,
    force_download: bool,
) -> (r: DownloadVerdict)
    ensures
        r@ == verdict_spec(
            match output {
                Ok(c) => Ok(c@),
                Err(e) => Err(e@),
            },
            changed,
            excluded_sdh as nat,
            none_kept,
            force_download,
        ),
        output is Ok && changed && !none_kept ==> r@ == VerdictView::Done(StatusView::Success),
        r@ is CheckEmbedded ==> output is Ok && !changed && !force_download,
{
    match output {
        Err(e) => {
            let mut m = "Failed to run subliminal: ".to_owned();
            push_str(&mut m, e.as_str());
            DownloadVerdict::Done(JobStatus::Failed(m))
        },
        Ok(c) => {
            let cc = chars_of(c.as_str());
            if contains_lit(&cc, "downloaded 0 subtitle") {
                if changed {
                    DownloadVerdict::Done(JobStatus::Success)
                } else if !force_download {
                    DownloadVerdict::CheckEmbedded
                } else {
                    DownloadVerdict::Done(JobStatus::Failed("No subtitles found online".to_owned()))
                }
            } else if contains_lit(&cc, "error") || contains_lit(&cc, "failed") {
                let message = if contains_lit(&cc, "dbm.error") || contains_lit(
                    &cc,
                    "db type could not be determined",
                ) {
                    "DBM cache error - try again later"
                } else {
                    "Subliminal error: see log"
                };
                if changed {
                    DownloadVerdict::Done(JobStatus::Success)
                } else {
                    DownloadVerdict::Done(JobStatus::Failed(message.to_owned()))
                }
            } else if excluded_sdh > 0 && none_kept {
                DownloadVerdict::Done(
                    JobStatus::Failed("Only SDH or caption subtitles were found and excluded".to_owned()),
                )
            } else if changed {
                DownloadVerdict::Done(JobStatus::Success)
            } else {
                DownloadVerdict::Done(JobStatus::Failed("No new subtitles downloaded".to_owned()))
            }
        },
    }
}

/// The texts joined by `sep`.
pub open spec fn join_spec(items: Seq<Seq<char>>, sep: Seq<char>) -> Seq<char>
    decreases items.len(),
{
    if items.len() == 0 {
        Seq::empty()
    } else if items.len() == 1 {
        items[0]
    } else {
        join_spec(items.drop_last(), sep) + sep + items.last()
    }
}

/// The display names of some language codes, joined by `, `.
pub open spec fn language_names(codes: Seq<Seq<char>>) -> Seq<char> {
    join_spec(codes.map_values(|c: Seq<char>| language_name_spec(c)), ", "@)
}

/// The requested languages that no embedded subtitle covers.
pub open spec fn missing_languages(langs: Seq<Seq<char>>, embedded: Seq<Seq<char>>) -> Seq<Seq<char>> {
    langs.filter(|c: Seq<char>| !embedded.contains(c))
}

/// The status of a job for which nothing was found online, given the requested languages that
/// the video already carries as embedded subtitles.
pub open spec fn embedded_status_spec(langs: Seq<Seq<char>>, embedded: Seq<Seq<char>>) -> StatusView {
    if embedded.len() == 0 {
        StatusView::Failed("No subtitles found (no embedded or external subtitles available)"@)
    } else {
        let have = language_names(embedded);
        let missing = language_names(missing_languages(langs, embedded));
        if missing.len() == 0 {
            StatusView::EmbeddedExists(
                "Embedded "@ + have + " subtitles already exist (no external subtitles found online)"@,
            )
        } else {
            StatusView::Failed(
                "Embedded "@ + have + " subtitles exist, but no external subtitles were found for "@
                    + missing,
            )
        }
    }
}

/// The display names of `codes`, joined by `, `.
fn join_language_names(codes: &Vec<String>) -> (r: String)
    ensures
        r@ == language_names(texts(codes@)),
{
    let ghost names = texts(codes@).map_values(|c: Seq<char>| language_name_spec(c));
    let mut r = String::new();
    let mut i: usize = 0;
    assert(names.take(0) =~= Seq::<Seq<char>>::empty());
    while i < codes.len()
        invariant
            0 <= i <= codes@.len(),
            names == texts(codes@).map_values(|c: Seq<char>| language_name_spec(c)),
            r@ == join_spec(names.take(i as int), ", "@),
        decreases codes.len() - i,
    {
        let name = SubtitleUtils::language_code_to_name(codes[i].as_str());
        let ghost t = names.take(i + 1);
        assert(t.drop_last() =~= names.take(i as int));
        assert(t.last() == name@);
        if i > 0 {
            push_str(&mut r, ", ");
        } else {
            assert(t =~= seq![name@]);
        }
        push_str(&mut r, name.as_str());
        i = i + 1;
    }
    assert(names.take(codes.len() as int) =~= names);
    r
}

/// The entries of `list`, in order, that `remove` does not hold.
pub fn without(list: &Vec<String>, remove: &Vec<String>) -> (r: Vec<String>)
    ensures
        texts(r@) == texts(list@).filter(|p: Seq<char>| !texts(remove@).contains(p)),
{
    let ghost pred = |p: Seq<char>| !texts(remove@).contains(p);
    let mut r: Vec<String> = Vec::new();
    let mut i: usize = 0;
    proof {
        crate::text::lemma_filter_empty(pred);
        assert(texts(list@).take(0) =~= Seq::<Seq<char>>::empty());
    }
    while i < list.len()
        invariant
            0 <= i <= list@.len(),
            pred == (|p: Seq<char>| !texts(remove@).contains(p)),
            texts(r@) == texts(list@).take(i as int).filter(pred),
        decreases list.len() - i,
    {
        proof {
            assert(texts(list@).take(i + 1) =~= texts(list@).take(i as int).push(list@[i as int]@));
            crate::text::lemma_filter_push(texts(list@).take(i as int), pred, list@[i as int]@);
        }
        if !crate::scan_history::contains_string(remove, &list[i]) {
            let ghost old_r = texts(r@);
            r.push(list[i].clone());
            assert(texts(r@) =~= old_r.push(list@[i as int]@));
        }
        i = i + 1;
    }
    assert(texts(list@).take(list.len() as int) =~= texts(list@));
    r
}

/// The status of a job for which nothing was found online (see `embedded_status_spec`).
pub fn embedded_status(langs: &Vec<String>, embedded: &Vec<String>) -> (r: JobStatus)
    ensures
        r@ == embedded_status_spec(texts(langs@), texts(embedded@)),
{
    if embedded.len() == 0 {
        return JobStatus::Failed("No subtitles found (no embedded or external subtitles available)".to_owned());
    }
    let have = join_language_names(embedded);
    let missing_codes = without(langs, embedded);
    let missing = join_language_names(&missing_codes);
    let mut m = "Embedded ".to_owned();
    push_str(&mut m, have.as_str());
    if missing.as_str().is_empty() {
        push_str(&mut m, " subtitles already exist (no external subtitles found online)");
        JobStatus::EmbeddedExists(m)
    } else {
        push_str(&mut m, " subtitles exist, but no external subtitles were found for ");
        push_str(&mut m, missing.as_str());
        JobStatus::Failed(m)
    }
}

/// The subtitles of a video, in order, whose names mark them as hearing-impaired.
pub fn hearing_impaired_subtitles(video: &str, paths: &Vec<String>) -> (r: Vec<String>)
    ensures
        texts(r@) == texts(paths@).filter(|p: Seq<char>| hearing_impaired_spec(video@, p)),
{
    let ghost pred = |p: Seq<char>| hearing_impaired_spec(video@, p);
    let mut r: Vec<String> = Vec::new();
    let mut i: usize = 0;
    proof {
        crate::text::lemma_filter_empty(pred);
        assert(texts(paths@).take(0) =~= Seq::<Seq<char>>::empty());
    }
    while i < paths.len()
        invariant
            0 <= i <= paths@.len(),
            pred == (|p: Seq<char>| hearing_impaired_spec(video@, p)),
            texts(r@) == texts(paths@).take(i as int).filter(pred),
        decreases paths.len() - i,
    {
        proof {
            assert(texts(paths@).take(i + 1) =~= texts(paths@).take(i as int).push(paths@[i as int]@));
            crate::text::lemma_filter_push(texts(paths@).take(i as int), pred, paths@[i as int]@);
        }
        if SubtitleUtils::is_hearing_impaired_path(video, paths[i].as_str()) {
            let ghost old_r = texts(r@);
            r.push(paths[i].clone());
            assert(texts(r@) =~= old_r.push(paths@[i as int]@));
        }
        i = i + 1;
    }
    assert(texts(paths@).take(paths.len() as int) =~= texts(paths@));
    r
}

/// A file's size and modification time, in nanoseconds.
pub type Signature = (u64, u128);

/// The signature recorded for `path` before the run (the last entry for it), if any.
pub open spec fn signature_of(before: Seq<(String, u64, u128)>, path: Seq<char>) -> Option<Signature>
    decreases before.len(),
{
    if before.len() == 0 {
        None
    } else if before.last().0@ == path {
        Some((before.last().1, before.last().2))
    } else {
        signature_of(before.drop_last(), path)
    }
}

/// A subtitle changed: it is there now and was not before, or its signature differs.
pub open spec fn subtitle_changed_spec(before: Option<Signature>, after: Option<Signature>) -> bool {
    match (before, after) {
        (Some(b), Some(a)) => b != a,
        (None, Some(_)) => true,
        _ => false,
    }
}

/// The paths (in order) whose signature after the run, `after[i]` for `paths[i]`, shows a
/// change against `before`.
pub open spec fn changed_spec(
    paths: Seq<Seq<char>>,
    before: Seq<(String, u64, u128)>,
    after: Seq<Option<Signature>>,
) -> Seq<Seq<char>>
    decreases paths.len(),
{
    if paths.len() == 0 || after.len() == 0 {
        Seq::empty()
    } else {
        changed_spec(paths.drop_last(), before, after.drop_last()) + if subtitle_changed_spec(
            signature_of(before, paths.last()),
            after.last(),
        ) {
            seq![paths.last()]
        } else {
            Seq::empty()
        }
    }
}

/// The signature recorded for `path` before the run.
fn signature_before(before: &Vec<(String, u64, u128)>, path: &String) -> (r: Option<Signature>)
    ensures
        r == signature_of(before@, path@),
{
    let pc = chars_of(path.as_str());
    let mut i: usize = before.len();
    assert(before@.take(i as int) =~= before@);
    while i > 0
        invariant
            i <= before@.len(),
            pc@ == path@,
            signature_of(before@, path@) == signature_of(before@.take(i as int), path@),
        decreases i,
    {
        let ghost pre = before@.take(i as int);
        assert(pre.drop_last() =~= before@.take(i - 1));
        assert(pre.last() == before@[i - 1]);
        let kc = chars_of(before[i - 1].0.as_str());
        if crate::text::chars_eq(&kc, &pc) {
            return Some((before[i - 1].1, before[i - 1].2));
        }
        i = i - 1;
    }
    None
}

/// The subtitles that a run wrote or changed: `after[i]` is the signature of `paths[i]` now
/// (`None` when it could not be read), `before` the signatures taken before the run.
pub fn changed_subtitles(
    paths: &Vec<String>,
    before: &Vec<(String, u64, u128)>,
    after: &Vec<Option<Signature>>,
) -> (r: Vec<String>)
    requires
        paths@.len() == after@.len(),
    ensures
        texts(r@) == changed_spec(texts(paths@), before@, after@),
{
    let mut r: Vec<String> = Vec::new();
    let mut i: usize = 0;
    assert(texts(paths@).take(0) =~= Seq::<Seq<char>>::empty());
    while i < paths.len()
        invariant
            0 <= i <= paths@.len(),
            paths@.len() == after@.len(),
            texts(r@) == changed_spec(texts(paths@).take(i as int), before@, after@.take(i as int)),
        decreases paths.len() - i,
    {
        let ghost tp = texts(paths@).take(i + 1);
        let ghost ta = after@.take(i + 1);
        assert(tp.drop_last() =~= texts(paths@).take(i as int));
        assert(ta.drop_last() =~= after@.take(i as int));
        assert(tp.last() == paths@[i as int]@);
        assert(ta.last() == after@[i as int]);
        let b = signature_before(before, &paths[i]);
        let changed = match (b, after[i]) {
            (Some(x), Some(y)) => x.0 != y.0 || x.1 != y.1,
            (None, Some(_)) => true,
            _ => false,
        };
        let ghost old_r = texts(r@);
        if changed {
            r.push(paths[i].clone());
            assert(texts(r@) =~= old_r + seq![paths@[i as int]@]);
        } else {
            assert(old_r + Seq::<Seq<char>>::empty() =~= old_r);
        }
        i = i + 1;
    }
    assert(texts(paths@).take(paths.len() as int) =~= texts(paths@));
    assert(after@.take(paths.len() as int) =~= after@);
    r
}

/// The status line shown for an output stream: its latest non-blank line, credentials masked,
/// after the stream's name.
pub open spec fn stream_status_spec(stream: Seq<char>, buffer: Seq<char>) -> Option<Seq<char>> {
    match last_non_blank(lines_seq(redact_spec(buffer))) {
        Some(l) => Some(stream + ": "@ + l),
        None => None,
    }
}

/// The status line shown for an output stream (see `stream_status_spec`).
pub fn stream_status(stream: &str, buffer: &str) -> (r: Option<String>)
    ensures
        opt_text(r) == stream_status_spec(stream@, buffer@),
{
    let redacted = redact_sensitive(buffer);
    match latest_non_empty_line(redacted.as_str()) {
        Some(line) => {
            let mut s = stream.to_owned();
            push_str(&mut s, ": ");
            push_str(&mut s, line.as_str());
            Some(s)
        },
        None => None,
    }
}

/// Most bytes of status output kept per stream; beyond it the stream's status is dropped.
pub const MAX_STATUS_BUFFER_BYTES: usize = 65536;

/// The number of bytes of a character in UTF-8 (`char::len_utf8`).
pub open spec fn utf8_width(c: char) -> nat {
    if (c as u32) < 0x80 {
        1
    } else if (c as u32) < 0x800 {
        2
    } else if (c as u32) < 0x10000 {
        3
    } else {
        4
    }
}

/// The length of a text in UTF-8 bytes (`str::len`).
pub open spec fn utf8_len(s: Seq<char>) -> nat
    decreases s.len(),
{
    if s.len() == 0 {
        0
    } else {
        utf8_len(s.drop_last()) + utf8_width(s.last())
    }
}

proof fn lemma_utf8_len_monotonic(s: Seq<char>, i: int)
    requires
        0 <= i <= s.len(),
    ensures
        utf8_len(s.take(i)) <= utf8_len(s),
    decreases s.len() - i,
{
    if i < s.len() {
        lemma_utf8_len_monotonic(s, i + 1);
        assert(s.take(i + 1).drop_last() =~= s.take(i));
    } else {
        assert(s.take(i) =~= s);
    }
}

/// Whether a text takes more than `MAX_STATUS_BUFFER_BYTES` bytes.
fn exceeds_status_limit(s: &Vec<char>) -> (r: bool)
    ensures
        r == (utf8_len(s@) > MAX_STATUS_BUFFER_BYTES),
{
    let mut total: usize = 0;
    let mut i: usize = 0;
    assert(s@.take(0) =~= Seq::<char>::empty());
    while i < s.len()
        invariant
            0 <= i <= s@.len(),
            total == utf8_len(s@.take(i as int)),
            total <= MAX_STATUS_BUFFER_BYTES,
        decreases s.len() - i,
    {
        let u: u32 = s[i] as u32;
        let w: usize = if u < 0x80 {
            1
        } else if u < 0x800 {
            2
        } else if u < 0x10000 {
            3
        } else {
            4
        };
        assert(s@.take(i + 1).drop_last() =~= s@.take(i as int));
        assert(s@.take(i + 1).last() == s@[i as int]);
        total = total + w;
        i = i + 1;
        if total > MAX_STATUS_BUFFER_BYTES {
            proof {
                lemma_utf8_len_monotonic(s@, i as int);
            }
            return true;
        }
    }
    assert(s@.take(s.len() as int) =~= s@);
    false
}

/// Appends a chunk of a stream's output to its status buffer. Once the buffer holds more than
/// `MAX_STATUS_BUFFER_BYTES` bytes it is emptied and the stream's status is suppressed for the
/// rest of the run, so that no credential is cut in two.
pub fn append_status(buffer: &mut String, suppressed: &mut bool, chunk: &str)
    ensures
        *old(suppressed) ==> final(buffer)@ == old(buffer)@ && *final(suppressed),
        !*old(suppressed) ==> (if utf8_len(old(buffer)@ + chunk@) > MAX_STATUS_BUFFER_BYTES {
            final(buffer)@.len() == 0 && *final(suppressed)
        } else {
            final(buffer)@ == old(buffer)@ + chunk@ && !*final(suppressed)
        }),
{
    if *suppressed {
        return;
    }
    push_str(buffer, chunk);
    let bc = chars_of(buffer.as_str());
    if exceeds_status_limit(&bc) {
        *buffer = String::new();
        *suppressed = true;
    }
}

} // verus!
