//! Command lines for Subliminal and the package managers, and the bounded handling of their
//! output.

use vstd::prelude::*;
use crate::data::SubliminalCommand;
use crate::downloads::{decimal_spec, decimal_string};
use crate::text::{chars_is, chars_of, lines_chars, lines_seq, push_str, string_of, texts, trim, trim_chars, views};

verus! {

/// Most bytes of a command's output that are kept.
pub const MAX_CAPTURED_OUTPUT_BYTES: usize = 1048576;

/// The Subliminal options for the independent subtitle policies.
pub open spec fn policy_args_spec(ignore_embedded: bool, overwrite: bool, exclude_sdh: bool) -> Seq<Seq<char>> {
    (if ignore_embedded {
        seq!["--force-embedded-subtitles"@]
    } else {
        Seq::empty()
    }) + (if overwrite {
        seq!["--force-external-subtitles"@]
    } else {
        Seq::empty()
    }) + (if exclude_sdh {
        seq!["--no-hearing-impaired"@, "--language-type-suffix"@]
    } else {
        Seq::empty()
    })
}

/// The Subliminal options for ignoring embedded subtitles, overwriting external ones and
/// excluding hearing-impaired ones.
pub fn subtitle_policy_args(ignore_embedded: bool, overwrite: bool, exclude_sdh: bool) -> (r: Vec<String>)
    ensures
        texts(r@) == policy_args_spec(ignore_embedded, overwrite, exclude_sdh),
{
    let mut args: Vec<String> = Vec::new();
    if ignore_embedded {
        args.push("--force-embedded-subtitles".to_owned());
    }
    let ghost a1 = texts(args@);
    if overwrite {
        args.push("--force-external-subtitles".to_owned());
    }
    let ghost a2 = texts(args@);
    if exclude_sdh {
        args.push("--no-hearing-impaired".to_owned());
        args.push("--language-type-suffix".to_owned());
    }
    assert(texts(args@) =~= policy_args_spec(ignore_embedded, overwrite, exclude_sdh));
    args
}

/// Each policy decides exactly its own options: embedded subtitles are ignored iff
/// `--force-embedded-subtitles` is passed, existing files are overwritten iff
/// `--force-external-subtitles` is passed, hearing-impaired subtitles are excluded iff both
/// `--no-hearing-impaired` and `--language-type-suffix` are passed, and `--force` never is.
pub proof fn lemma_policies_independent(ignore_embedded: bool, overwrite: bool, exclude_sdh: bool)
    ensures
        policy_args_spec(ignore_embedded, overwrite, exclude_sdh).contains("--force-embedded-subtitles"@) == ignore_embedded,
        policy_args_spec(ignore_embedded, overwrite, exclude_sdh).contains("--force-external-subtitles"@) == overwrite,
        policy_args_spec(ignore_embedded, overwrite, exclude_sdh).contains("--no-hearing-impaired"@) == exclude_sdh,
        policy_args_spec(ignore_embedded, overwrite, exclude_sdh).contains("--language-type-suffix"@) == exclude_sdh,
        !policy_args_spec(ignore_embedded, overwrite, exclude_sdh).contains("--force"@),
{
    reveal_strlit("--force-embedded-subtitles");
    reveal_strlit("--force-external-subtitles");
    reveal_strlit("--no-hearing-impaired");
    reveal_strlit("--language-type-suffix");
    reveal_strlit("--force");
    let s = policy_args_spec(ignore_embedded, overwrite, exclude_sdh);
    let e = "--force-embedded-subtitles"@;
    let x = "--force-external-subtitles"@;
    let n = "--no-hearing-impaired"@;
    let l = "--language-type-suffix"@;
    let f = "--force"@;
    assert(e.len() == 26 && x.len() == 26 && n.len() == 21 && l.len() == 22 && f.len() == 7);
    assert(e[9] != x[9]);
    assert(e != x && e != n && e != l && e != f);
    assert(x != n && x != l && x != f);
    assert(n != l && n != f && l != f);
    let a = if ignore_embedded { seq![e] } else { Seq::<Seq<char>>::empty() };
    let b = if overwrite { seq![x] } else { Seq::<Seq<char>>::empty() };
    let c = if exclude_sdh { seq![n, l] } else { Seq::<Seq<char>>::empty() };
    assert(s == a + b + c);
    assert forall|t: Seq<char>| #[trigger] s.contains(t) implies (t == e && ignore_embedded) || (t == x && overwrite) || ((t == n || t == l) && exclude_sdh) by {
        let i = choose|i: int| 0 <= i < s.len() && s[i] == t;
        if i < a.len() {
            assert(s[i] == a[i]);
        } else if i < a.len() + b.len() {
            assert(s[i] == b[i - a.len()]);
        } else {
            assert(s[i] == c[i - a.len() - b.len()]);
        }
    }
    if ignore_embedded {
        assert(s[0] == e);
    }
    if overwrite {
        assert(s[a.len() as int] == x);
    }
    if exclude_sdh {
        assert(s[(a.len() + b.len()) as int] == n);
        assert(s[(a.len() + b.len() + 1) as int] == l);
    }
}

/// The Python commands tried, in order, for this platform.
pub open spec fn python_commands_spec() -> Seq<Seq<char>> {
    seq!["python3"@, "python"@, "py"@]
}

/// Holds of every text but `p`.
pub open spec fn other_than(p: Seq<char>) -> spec_fn(Seq<char>) -> bool {
    |c: Seq<char>| c != p
}

/// The Python commands to probe: the preferred one first, then the others without it.
pub open spec fn probe_commands_spec(preferred: Option<Seq<char>>) -> Seq<Seq<char>> {
    match preferred {
        Some(p) => seq![p] + python_commands_spec().filter(other_than(p)),
        None => python_commands_spec(),
    }
}

/// The characters of an optional text.
pub open spec fn option_view(o: Option<&str>) -> Option<Seq<char>> {
    match o {
        Some(p) => Some(p@),
        None => None,
    }
}

/// Knowledge about the Python tools that run Subliminal.
pub struct PythonManager;

impl PythonManager {
    /// The Python commands to probe, the resolved one (if any) first.
    pub fn python_probe_commands(preferred: Option<&str>) -> (r: Vec<String>)
        ensures
            texts(r@) == probe_commands_spec(option_view(preferred)),
    {
        let all = vec!["python3".to_owned(), "python".to_owned(), "py".to_owned()];
        assert(texts(all@) =~= python_commands_spec());
        match preferred {
            None => {
                assert(option_view(preferred) == None::<Seq<char>>);
                assert(texts(all@) == probe_commands_spec(None));
                all
            },
            Some(p) => {
                let pc = chars_of(p);
                let ghost pred = other_than(p@);
                let mut r: Vec<String> = vec![p.to_owned()];
                let mut i: usize = 0;
                proof {
                    crate::text::lemma_filter_empty(pred);
                    assert(texts(all@).take(0) =~= Seq::<Seq<char>>::empty());
                    assert(texts(r@) =~= seq![p@] + texts(all@).take(0).filter(pred));
                }
                while i < all.len()
                    invariant
                        0 <= i <= all.len(),
                        pc@ == p@,
                        texts(all@) == python_commands_spec(),
                        pred == other_than(p@),
                        texts(r@) == seq![p@] + texts(all@).take(i as int).filter(pred),
                    decreases all.len() - i,
                {
                    let item = &all[i];
                    let ic = chars_of(item.as_str());
                    proof {
                        assert(texts(all@).take(i + 1) =~= texts(all@).take(i as int).push(item@));
                        crate::text::lemma_filter_push(texts(all@).take(i as int), pred, item@);
                    }
                    if !crate::text::chars_eq(&ic, &pc) {
                        let ghost old_r = r@;
                        r.push(item.clone());
                        assert(texts(r@) =~= texts(old_r).push(item@));
                    }
                    i = i + 1;
                }
                assert(texts(all@).take(all.len() as int) =~= texts(all@));
                assert(option_view(preferred) == Some(p@));
                r
            },
        }
    }
}

/// The ways to run Subliminal, in the order they are tried: the `subliminal` executable, then
/// `-m subliminal` with each Python command to probe.
pub fn subliminal_attempts(preferred_python: Option<&str>) -> (r: Vec<SubliminalCommand>)
    ensures
        r@.len() == 1 + probe_commands_spec(option_view(preferred_python)).len(),
        r@[0].program@ == "subliminal"@,
        r@[0].prefix@.len() == 0,
        forall|i: int|
            1 <= i < r@.len() ==> (#[trigger] r@[i]).program@ == probe_commands_spec(option_view(preferred_python))[i - 1] && texts(r@[i].prefix@) == seq!["-m"@, "subliminal"@],
{
    let pythons = PythonManager::python_probe_commands(preferred_python);
    let mut r: Vec<SubliminalCommand> = vec![SubliminalCommand { program: "subliminal".to_owned(), prefix: Vec::new() }];
    let mut i: usize = 0;
    while i < pythons.len()
        invariant
            0 <= i <= pythons.len(),
            r@.len() == i + 1,
            r@[0].program@ == "subliminal"@,
            r@[0].prefix@.len() == 0,
            forall|j: int|
                1 <= j < r@.len() ==> (#[trigger] r@[j]).program@ == texts(pythons@)[j - 1] && texts(
                    r@[j].prefix@,
                ) == seq!["-m"@, "subliminal"@],
        decreases pythons.len() - i,
    {
        let prefix = vec!["-m".to_owned(), "subliminal".to_owned()];
        assert(texts(prefix@) =~= seq!["-m"@, "subliminal"@]);
        r.push(SubliminalCommand { program: pythons[i].clone(), prefix });
        i = i + 1;
    }
    r
}

/// The last line that is not blank, trimmed.
pub open spec fn last_non_blank(ls: Seq<Seq<char>>) -> Option<Seq<char>>
    decreases ls.len(),
{
    if ls.len() == 0 {
        None
    } else if trim(ls.last()).len() > 0 {
        Some(trim(ls.last()))
    } else {
        last_non_blank(ls.drop_last())
    }
}

/// The latest non-blank line of some output, trimmed.
pub fn latest_non_empty_line(output: &str) -> (r: Option<String>)
    ensures
        match r {
            Some(l) => last_non_blank(lines_seq(output@)) == Some(l@),
            None => last_non_blank(lines_seq(output@)) is None,
        },
{
    let o = chars_of(output);
    let lines = lines_chars(&o);
    let mut i: usize = lines.len();
    assert(views(lines@).take(i as int) =~= views(lines@));
    while i > 0
        invariant
            i <= lines.len(),
            views(lines@) == lines_seq(output@),
            last_non_blank(lines_seq(output@)) == last_non_blank(views(lines@).take(i as int)),
        decreases i,
    {
        let t = trim_chars(&lines[i - 1]);
        let ghost pre = views(lines@).take(i as int);
        assert(pre.last() == lines@[i - 1]@);
        assert(pre.drop_last() =~= views(lines@).take(i - 1));
        if t.len() > 0 {
            return Some(string_of(&t));
        }
        i = i - 1;
    }
    None
}

/// Output kept after appending: the last (at most) `MAX_CAPTURED_OUTPUT_BYTES` bytes of
/// everything so far.
pub open spec fn capped_tail(kept: Seq<u8>, bytes: Seq<u8>) -> Seq<u8> {
    let total = kept + bytes;
    if total.len() > MAX_CAPTURED_OUTPUT_BYTES {
        total.skip(total.len() - MAX_CAPTURED_OUTPUT_BYTES)
    } else {
        total
    }
}

/// Appends `v[from..to]` to `out`.
fn push_range(out: &mut Vec<u8>, v: &[u8], from: usize, to: usize)
    requires
        from <= to <= v@.len(),
    ensures
        final(out)@ == old(out)@ + v@.subrange(from as int, to as int),
{
    let ghost start = out@;
    let mut i = from;
    while i < to
        invariant
            from <= i <= to <= v@.len(),
            out@ == start + v@.subrange(from as int, i as int),
        decreases to - i,
    {
        out.push(v[i]);
        assert(v@.subrange(from as int, i + 1) =~= v@.subrange(from as int, i as int).push(v@[i as int]));
        i = i + 1;
    }
}

/// The kept output never exceeds `MAX_CAPTURED_OUTPUT_BYTES` bytes, loses nothing while
/// everything fits, and always ends with the latest bytes (their last
/// `MAX_CAPTURED_OUTPUT_BYTES` when there are more).
pub proof fn lemma_capped_tail(kept: Seq<u8>, bytes: Seq<u8>)
    ensures
        capped_tail(kept, bytes).len() <= MAX_CAPTURED_OUTPUT_BYTES,
        kept.len() + bytes.len() <= MAX_CAPTURED_OUTPUT_BYTES ==> capped_tail(kept, bytes) == kept
            + bytes,
        bytes.len() <= MAX_CAPTURED_OUTPUT_BYTES ==> capped_tail(kept, bytes).skip(
            capped_tail(kept, bytes).len() - bytes.len(),
        ) == bytes,
        bytes.len() > MAX_CAPTURED_OUTPUT_BYTES ==> capped_tail(kept, bytes) == bytes.skip(
            bytes.len() - MAX_CAPTURED_OUTPUT_BYTES,
        ),
{
    let total = kept + bytes;
    if total.len() > MAX_CAPTURED_OUTPUT_BYTES {
        let t = total.skip(total.len() - MAX_CAPTURED_OUTPUT_BYTES);
        if bytes.len() <= MAX_CAPTURED_OUTPUT_BYTES {
            assert(t.skip(t.len() - bytes.len()) =~= bytes);
        } else {
            assert(t =~= bytes.skip(bytes.len() - MAX_CAPTURED_OUTPUT_BYTES));
        }
    } else {
        assert(total.skip(total.len() - bytes.len()) =~= bytes);
    }
}

/// Append output, keeping only the bounded tail.
pub fn append_capped(target: &mut Vec<u8>, bytes: &[u8])
    ensures
        final(target)@ == capped_tail(old(target)@, bytes@),
{
    let mut out: Vec<u8> = Vec::new();
    if bytes.len() >= MAX_CAPTURED_OUTPUT_BYTES {
        let from = bytes.len() - MAX_CAPTURED_OUTPUT_BYTES;
        push_range(&mut out, bytes, from, bytes.len());
        proof {
            let total = target@ + bytes@;
            assert(out@ =~= total.skip(total.len() - MAX_CAPTURED_OUTPUT_BYTES));
        }
    } else {
        let room = MAX_CAPTURED_OUTPUT_BYTES - bytes.len();
        let from = if target.len() > room { target.len() - room } else { 0 };
        push_range(&mut out, target.as_slice(), from, target.len());
        push_range(&mut out, bytes, 0, bytes.len());
        proof {
            assert(bytes@.subrange(0, bytes@.len() as int) =~= bytes@);
            assert(out@ =~= capped_tail(target@, bytes@));
        }
    }
    *target = out;
}

/// The install command for the detected Linux package manager (`apt` unless `dnf` or `pacman`).
pub fn linux_install_command(manager: &str, apt: &str, dnf: &str, pacman: &str) -> (r: String)
    ensures
        r@ == (if manager@ == "dnf"@ {
            dnf@
        } else if manager@ == "pacman"@ {
            pacman@
        } else {
            apt@
        }),
{
    let m = chars_of(manager);
    if chars_is(&m, "dnf") {
        dnf.to_owned()
    } else if chars_is(&m, "pacman") {
        pacman.to_owned()
    } else {
        apt.to_owned()
    }
}

/// The shell snippet that puts Homebrew on the PATH.
pub open spec fn brew_shellenv() -> Seq<char> {
    "eval \"$(/opt/homebrew/bin/brew shellenv 2>/dev/null || /usr/local/bin/brew shellenv 2>/dev/null)\""@
}

/// The Terminal command that installs a package with Homebrew, installing Homebrew first when
/// it is missing.
pub fn macos_install_command(package: &str, homebrew_installed: bool) -> (r: String)
    ensures
        r@ == (if homebrew_installed {
            brew_shellenv() + " && brew install "@ + package@
        } else {
            "/bin/bash -c \"$(curl -fsSL https://raw.githubusercontent.com/Homebrew/install/HEAD/install.sh)\" && "@
                + brew_shellenv() + " && brew install "@ + package@
        }),
{
    let mut r = String::new();
    if !homebrew_installed {
        push_str(&mut r, "/bin/bash -c \"$(curl -fsSL https://raw.githubusercontent.com/Homebrew/install/HEAD/install.sh)\" && ");
    }
    push_str(&mut r, "eval \"$(/opt/homebrew/bin/brew shellenv 2>/dev/null || /usr/local/bin/brew shellenv 2>/dev/null)\"");
    push_str(&mut r, " && brew install ");
    push_str(&mut r, package);
    assert(r@ =~= (if homebrew_installed {
        brew_shellenv() + " && brew install "@ + package@
    } else {
        "/bin/bash -c \"$(curl -fsSL https://raw.githubusercontent.com/Homebrew/install/HEAD/install.sh)\" && "@
            + brew_shellenv() + " && brew install "@ + package@
    }));
    r
}

/// Why a running command is stopped.
#[derive(Clone, Copy, Debug, PartialEq, Eq)]
pub enum Termination {
    /// The user cancelled.
    Cancelled,
    /// The command ran for its whole time limit.
    AbsoluteLimit,
    /// The command printed nothing for too long.
    Inactivity,
}

/// Whether a running command must be stopped, and why: cancellation first, then the absolute
/// time limit, then output inactivity. Times are in nanoseconds.
pub open spec fn termination_spec(
    cancelled: bool,
    elapsed: int,
    since_output: int,
    inactivity_limit: int,
    max_limit: int,
) -> Option<Termination> {
    if cancelled {
        Some(Termination::Cancelled)
    } else if elapsed >= max_limit {
        Some(Termination::AbsoluteLimit)
    } else if since_output >= inactivity_limit {
        Some(Termination::Inactivity)
    } else {
        None
    }
}

/// Whether a running command must be stopped (see `termination_spec`).
pub fn termination_reason(
    cancelled: bool,
    elapsed_nanos: u128,
    since_output_nanos: u128,
    inactivity_limit_nanos: u128,
    max_limit_nanos: u128,
) -> (r: Option<Termination>)
    ensures
        r == termination_spec(
            cancelled,
            elapsed_nanos as int,
            since_output_nanos as int,
            inactivity_limit_nanos as int,
            max_limit_nanos as int,
        ),
{
    if cancelled {
        Some(Termination::Cancelled)
    } else if elapsed_nanos >= max_limit_nanos {
        Some(Termination::AbsoluteLimit)
    } else if since_output_nanos >= inactivity_limit_nanos {
        Some(Termination::Inactivity)
    } else {
        None
    }
}

/// The error message for a stopped command; the limits and times are in whole seconds.
pub open spec fn termination_message_spec(
    reason: Termination,
    inactivity_secs: nat,
    max_secs: nat,
    elapsed_secs: nat,
    since_output_secs: nat,
) -> Seq<char> {
    (match reason {
        Termination::Cancelled => "Subliminal command cancelled"@,
        Termination::AbsoluteLimit => "Subliminal command reached its absolute limit of "@
            + decimal_spec(max_secs) + " seconds"@,
        Termination::Inactivity => "Subliminal command produced no output for "@ + decimal_spec(
            inactivity_secs,
        ) + " seconds"@,
    }) + " (elapsed: "@ + decimal_spec(elapsed_secs) + " seconds; last output: "@ + decimal_spec(
        since_output_secs,
    ) + " seconds ago)"@
}

/// The error message for a stopped command (see `termination_message_spec`).
pub fn termination_message(
    reason: Termination,
    inactivity_secs: u64,
    max_secs: u64,
    elapsed_secs: u64,
    since_output_secs: u64,
) -> (r: String)
    ensures
        r@ == termination_message_spec(
            reason,
            inactivity_secs as nat,
            max_secs as nat,
            elapsed_secs as nat,
            since_output_secs as nat,
        ),
{
    let mut m = String::new();
    match reason {
        Termination::Cancelled => {
            push_str(&mut m, "Subliminal command cancelled");
        },
        Termination::AbsoluteLimit => {
            push_str(&mut m, "Subliminal command reached its absolute limit of ");
            push_str(&mut m, decimal_string(max_secs).as_str());
            push_str(&mut m, " seconds");
        },
        Termination::Inactivity => {
            push_str(&mut m, "Subliminal command produced no output for ");
            push_str(&mut m, decimal_string(inactivity_secs).as_str());
            push_str(&mut m, " seconds");
        },
    }
    push_str(&mut m, " (elapsed: ");
    push_str(&mut m, decimal_string(elapsed_secs).as_str());
    push_str(&mut m, " seconds; last output: ");
    push_str(&mut m, decimal_string(since_output_secs).as_str());
    push_str(&mut m, " seconds ago)");
    m
}

/// The search path with `dir` put first, unless the path already mentions it.
pub open spec fn path_with_directory_spec(current: Seq<char>, dir: Seq<char>) -> Seq<char> {
    if crate::text::contains_seq(current, dir) {
        current
    } else {
        dir + seq![':'] + current
    }
}

/// The search path with `dir` put first (see `path_with_directory_spec`).
pub fn path_with_directory(current: &str, dir: &str) -> (r: String)
    ensures
        r@ == path_with_directory_spec(current@, dir@),
{
    let c = chars_of(current);
    let d = chars_of(dir);
    if crate::text::contains_chars(&c, &d) {
        current.to_owned()
    } else {
        let mut r = dir.to_owned();
        crate::text::push_char(&mut r, ':');
        push_str(&mut r, current);
        assert(r@ =~= dir@ + seq![':'] + current@);
        r
    }
}

} // verus!
