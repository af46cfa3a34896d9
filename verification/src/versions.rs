//! Version texts: comparing release versions and reading the versions printed by Python,
//! pipx and Subliminal.

use vstd::prelude::*;
use crate::commands::PythonManager;
use crate::text::{opt_text, push_str};
use crate::text::{
    chars_is, chars_of, contains_chars, contains_seq, last_word, last_word_chars, lower_chars,
    lower_seq, occurs_at, occurs_at_exec, parse_u32, parse_u32_chars, split_chars, split_seq,
    string_from, string_of, subvec, trim, trim_chars, views,
};

verus! {

/// The text without its leading `v`s (`trim_start_matches('v')`).
pub open spec fn strip_vs(s: Seq<char>) -> Seq<char>
    decreases s.len(),
{
    if s.len() > 0 && s[0] == 'v' {
        strip_vs(s.drop_first())
    } else {
        s
    }
}

/// The numeric parts of a version text; a part that is not a number counts as 0.
pub open spec fn version_parts(s: Seq<char>) -> Seq<u32> {
    split_seq(strip_vs(s), '.').map_values(|p: Seq<char>| match parse_u32(p) {
        Some(v) => v,
        None => 0u32,
    })
}

/// Version parts in lexicographic order, where a version that is a prefix of a longer one is
/// older.
pub open spec fn parts_lt(c: Seq<u32>, l: Seq<u32>) -> bool
    decreases c.len(),
{
    if c.len() == 0 || l.len() == 0 {
        c.len() < l.len()
    } else if c[0] < l[0] {
        true
    } else if c[0] > l[0] {
        false
    } else {
        parts_lt(c.drop_first(), l.drop_first())
    }
}

/// Whether `current` is an older release than `latest`.
pub open spec fn outdated_spec(current: Seq<char>, latest: Seq<char>) -> bool {
    parts_lt(version_parts(current), version_parts(latest))
}

/// The numeric parts of a version text.
fn version_parts_exec(s: &str) -> (r: Vec<u32>)
    ensures
        r@ == version_parts(s@),
{
    let c = chars_of(s);
    let mut start: usize = 0;
    assert(c@.skip(0) =~= c@);
    while start < c.len() && c[start] == 'v'
        invariant
            0 <= start <= c.len(),
            strip_vs(c@) == strip_vs(c@.skip(start as int)),
        decreases c.len() - start,
    {
        assert(c@.skip(start as int).drop_first() =~= c@.skip(start + 1));
        start = start + 1;
    }
    let rest = subvec(&c, start, c.len());
    assert(rest@ =~= c@.skip(start as int));
    assert(strip_vs(rest@) == rest@);
    let parts = split_chars(&rest, '.');
    let mut r: Vec<u32> = Vec::new();
    let mut i: usize = 0;
    while i < parts.len()
        invariant
            0 <= i <= parts.len(),
            views(parts@) == split_seq(rest@, '.'),
            rest@ == strip_vs(c@),
            c@ == s@,
            r@.len() == i,
            forall|j: int| 0 <= j < i ==> #[trigger] r@[j] == version_parts(s@)[j],
        decreases parts.len() - i,
    {
        assert(views(parts@)[i as int] == parts@[i as int]@);
        let v = match parse_u32_chars(&parts[i]) {
            Some(v) => v,
            None => 0,
        };
        r.push(v);
        i = i + 1;
    }
    assert(r@ =~= version_parts(s@));
    r
}

/// Whether the release `current` is older than `latest` (a leading `v` is ignored, parts are
/// compared as numbers, and `1.0` is older than `1.0.1`).
pub fn is_outdated(current: &str, latest: &str) -> (r: bool)
    ensures
        r == outdated_spec(current@, latest@),
{
    let c = version_parts_exec(current);
    let l = version_parts_exec(latest);
    let mut i: usize = 0;
    assert(c@.skip(0) =~= c@);
    assert(l@.skip(0) =~= l@);
    while i < c.len() && i < l.len()
        invariant
            0 <= i <= c.len(),
            i <= l.len(),
            c@ == version_parts(current@),
            l@ == version_parts(latest@),
            parts_lt(c@, l@) == parts_lt(c@.skip(i as int), l@.skip(i as int)),
        decreases c.len() - i,
    {
        assert(c@.skip(i as int).drop_first() =~= c@.skip(i + 1));
        assert(l@.skip(i as int).drop_first() =~= l@.skip(i + 1));
        if c[i] < l[i] {
            return true;
        }
        if c[i] > l[i] {
            return false;
        }
        i = i + 1;
    }
    c.len() < l.len()
}

/// Being older is a strict order of releases: no release is older than itself, of two
/// releases at most one is older than the other, and a release older than one older than a
/// third is older than the third.
pub proof fn lemma_outdated_order(a: Seq<char>, b: Seq<char>, c: Seq<char>)
    ensures
        !outdated_spec(a, a),
        outdated_spec(a, b) ==> !outdated_spec(b, a),
        outdated_spec(a, b) && outdated_spec(b, c) ==> outdated_spec(a, c),
{
    lemma_parts_lt(version_parts(a), version_parts(b));
    lemma_parts_lt(version_parts(a), version_parts(a));
    if outdated_spec(a, b) && outdated_spec(b, c) {
        lemma_parts_lt_transitive(version_parts(a), version_parts(b), version_parts(c));
    }
}

proof fn lemma_parts_lt(c: Seq<u32>, l: Seq<u32>)
    ensures
        !parts_lt(c, c),
        parts_lt(c, l) ==> !parts_lt(l, c),
    decreases c.len(),
{
    if c.len() > 0 && l.len() > 0 {
        lemma_parts_lt(c.drop_first(), l.drop_first());
    }
    if c.len() > 0 {
        lemma_parts_lt(c.drop_first(), c.drop_first());
    }
}

proof fn lemma_parts_lt_transitive(a: Seq<u32>, b: Seq<u32>, c: Seq<u32>)
    requires
        parts_lt(a, b),
        parts_lt(b, c),
    ensures
        parts_lt(a, c),
    decreases a.len(),
{
    if a.len() > 0 && b.len() > 0 && c.len() > 0 && a[0] == b[0] && b[0] == c[0] {
        lemma_parts_lt_transitive(a.drop_first(), b.drop_first(), c.drop_first());
    }
}

/// A Subliminal version text: it mentions `subliminal` (any ASCII case) and its last word is a
/// three-part numeric version no older than 2.4.0.
pub open spec fn supported_version_spec(text: Seq<char>) -> bool {
    contains_seq(lower_seq(text), "subliminal"@) && match last_word(text) {
        Some(w) => {
            let parts = split_seq(w, '.');
            parts.len() == 3 && (forall|i: int| 0 <= i < 3 ==> #[trigger] parse_u32(parts[i]) is Some)
                && {
                let a = parse_u32(parts[0])->0;
                let b = parse_u32(parts[1])->0;
                a > 2 || (a == 2 && b >= 4)
            }
        },
        None => false,
    }
}

impl PythonManager {
    /// Whether a `--version` text shows a supported Subliminal (2.4.0 or newer).
    pub fn supported_subliminal_version(text: &str) -> (r: bool)
        ensures
            r == supported_version_spec(text@),
    {
        let t = chars_of(text);
        let lower = lower_chars(&t);
        let key = chars_of("subliminal");
        if !contains_chars(&lower, &key) {
            return false;
        }
        let w = match last_word_chars(&t) {
            Some(w) => w,
            None => return false,
        };
        let parts = split_chars(&w, '.');
        if parts.len() != 3 {
            return false;
        }
        assert(views(parts@)[0] == parts@[0]@);
        assert(views(parts@)[1] == parts@[1]@);
        assert(views(parts@)[2] == parts@[2]@);
        let a = parse_u32_chars(&parts[0]);
        let b = parse_u32_chars(&parts[1]);
        let c = parse_u32_chars(&parts[2]);
        match (a, b, c) {
            (Some(a), Some(b), Some(_)) => a > 2 || (a == 2 && b >= 4),
            _ => false,
        }
    }
}

/// Whether `s` starts with `prefix`.
pub open spec fn starts_with(s: Seq<char>, prefix: Seq<char>) -> bool {
    prefix.len() <= s.len() && s.take(prefix.len() as int) == prefix
}

/// The version shown for an installed Subliminal: its version text without a leading
/// `subliminal, version ` or, failing that, `subliminal `.
pub open spec fn subliminal_label_spec(raw: Seq<char>) -> Seq<char> {
    if starts_with(raw, "subliminal, version "@) {
        raw.skip("subliminal, version "@.len() as int)
    } else if starts_with(raw, "subliminal "@) {
        raw.skip("subliminal "@.len() as int)
    } else {
        raw
    }
}

/// The version shown for an installed Subliminal (see `subliminal_label_spec`).
pub fn subliminal_version_label(raw: &str) -> (r: String)
    ensures
        r@ == subliminal_label_spec(raw@),
{
    let v = chars_of(raw);
    let long = chars_of("subliminal, version ");
    let short = chars_of("subliminal ");
    if occurs_at_exec(&v, &long, 0) {
        assert(v@.subrange(0, long@.len() as int) == v@.take(long@.len() as int));
        string_from(&v, long.len(), v.len())
    } else if occurs_at_exec(&v, &short, 0) {
        assert(v@.subrange(0, short@.len() as int) == v@.take(short@.len() as int));
        string_from(&v, short.len(), v.len())
    } else {
        assert(!starts_with(v@, long@)) by {
            if starts_with(v@, long@) {
                assert(v@.subrange(0, long@.len() as int) == v@.take(long@.len() as int));
            }
        }
        assert(!starts_with(v@, short@)) by {
            if starts_with(v@, short@) {
                assert(v@.subrange(0, short@.len() as int) == v@.take(short@.len() as int));
            }
        }
        raw.to_owned()
    }
}

/// The Python version reported by `--version` (stdout, or stderr when stdout is blank), when it
/// is a Python 3 version.
pub open spec fn python3_version_spec(stdout: Seq<char>, stderr: Seq<char>) -> Option<Seq<char>> {
    let v = if trim(stdout).len() > 0 {
        trim(stdout)
    } else {
        trim(stderr)
    };
    if starts_with(v, "Python 3."@) {
        Some(v)
    } else {
        None
    }
}

/// The Python 3 version text printed by `python --version`, if it is one.
pub fn python3_version(stdout: &str, stderr: &str) -> (r: Option<String>)
    ensures
        match r {
            Some(v) => python3_version_spec(stdout@, stderr@) == Some(v@),
            None => python3_version_spec(stdout@, stderr@) is None,
        },
{
    let o = chars_of(stdout);
    let e = chars_of(stderr);
    let to = trim_chars(&o);
    let v = if to.len() > 0 {
        to
    } else {
        trim_chars(&e)
    };
    let p = chars_of("Python 3.");
    if p.len() <= v.len() && occurs_at_exec(&v, &p, 0) {
        assert(v@.subrange(0, p@.len() as int) == v@.take(p@.len() as int));
        Some(string_of(&v))
    } else {
        proof {
            if starts_with(v@, "Python 3."@) {
                assert(v@.subrange(0, p@.len() as int) == v@.take(p@.len() as int));
                assert(occurs_at(v@, p@, 0));
            }
        }
        None
    }
}

/// The text without leading repetitions of `word`.
pub open spec fn strip_word(s: Seq<char>, word: Seq<char>) -> Seq<char>
    decreases s.len(),
{
    if word.len() > 0 && starts_with(s, word) {
        strip_word(s.skip(word.len() as int), word)
    } else {
        s
    }
}

/// The version printed by `pipx --version`: the trimmed text, after an optional `pipx` prefix
/// and any `version` words; only when it starts with a digit.
pub open spec fn pipx_version_spec(stdout: Seq<char>) -> Option<Seq<char>> {
    let s = trim(stdout);
    let v = if starts_with(s, "pipx"@) {
        trim(strip_word(trim(s.skip(4)), "version"@))
    } else {
        s
    };
    if v.len() > 0 && '0' <= v[0] && v[0] <= '9' {
        Some(v)
    } else {
        None
    }
}

/// Whether `v` starts with `p`.
fn starts_with_exec(v: &Vec<char>, p: &Vec<char>) -> (r: bool)
    ensures
        r == starts_with(v@, p@),
{
    if p.len() > v.len() {
        return false;
    }
    let r = occurs_at_exec(v, p, 0);
    assert(v@.subrange(0, p@.len() as int) == v@.take(p@.len() as int));
    r
}

/// The version in `pipx --version` output.
pub fn pipx_version(stdout: &str) -> (r: Option<String>)
    ensures
        match r {
            Some(v) => pipx_version_spec(stdout@) == Some(v@),
            None => pipx_version_spec(stdout@) is None,
        },
{
    let o = chars_of(stdout);
    let s = trim_chars(&o);
    let pipx = chars_of("pipx");
    let v = if starts_with_exec(&s, &pipx) {
        proof {
            reveal_strlit("pipx");
        }
        let t = subvec(&s, 4, s.len());
        assert(t@ == s@.skip(4));
        let mut t = trim_chars(&t);
        let word = chars_of("version");
        proof {
            reveal_strlit("version");
        }
        while starts_with_exec(&t, &word)
            invariant
                word@ == "version"@,
                word@.len() == 7,
                strip_word(t@, word@) == strip_word(trim(s@.skip(4)), "version"@),
            decreases t.len(),
        {
            t = subvec(&t, word.len(), t.len());
        }
        trim_chars(&t)
    } else {
        s
    };
    if v.len() > 0 && '0' <= v[0] && v[0] <= '9' {
        Some(string_of(&v))
    } else {
        None
    }
}

/// What a `--version` probe of a Subliminal candidate showed.
#[derive(Debug, PartialEq, Eq)]
pub enum SubliminalProbe {
    /// A supported Subliminal, with its version text.
    Supported(String),
    /// A Subliminal too old to use, with its version text.
    Unsupported(String),
    /// Not Subliminal.
    Other,
}

/// The version text of a probe: trimmed stdout, or trimmed stderr when stdout is blank.
pub open spec fn probe_text(stdout: Seq<char>, stderr: Seq<char>) -> Seq<char> {
    if trim(stdout).len() == 0 {
        trim(stderr)
    } else {
        trim(stdout)
    }
}

/// Classify the output of a successful `--version` run of a Subliminal candidate.
pub fn classify_subliminal_probe(stdout: &str, stderr: &str) -> (r: SubliminalProbe)
    ensures
        ({
            let t = probe_text(stdout@, stderr@);
            match r {
                SubliminalProbe::Supported(v) => supported_version_spec(t) && v@ == t,
                SubliminalProbe::Unsupported(v) => !supported_version_spec(t) && contains_seq(
                    lower_seq(t),
                    "subliminal"@,
                ) && v@ == t,
                SubliminalProbe::Other => !supported_version_spec(t) && !contains_seq(
                    lower_seq(t),
                    "subliminal"@,
                ),
            }
        }),
{
    let o = chars_of(stdout);
    let e = chars_of(stderr);
    let to = trim_chars(&o);
    let t = if to.len() == 0 {
        trim_chars(&e)
    } else {
        to
    };
    let text = string_of(&t);
    if PythonManager::supported_subliminal_version(text.as_str()) {
        return SubliminalProbe::Supported(text);
    }
    let lower = lower_chars(&t);
    let key = chars_of("subliminal");
    if contains_chars(&lower, &key) {
        SubliminalProbe::Unsupported(text)
    } else {
        SubliminalProbe::Other
    }
}

/// What the request for the latest release brought back.
pub enum ReleaseResponse {
    /// The server answered with an unsuccessful status, shown as given.
    Status(String),
    /// The server answered successfully: `None` when the body is not JSON, otherwise the
    /// release's `tag_name` when it is a string.
    Body(Option<Option<String>>),
    /// The request failed, for the reason shown.
    Failed(String),
}

/// The latest version and the error of the version check, from the response.
pub open spec fn version_check_spec(r: ReleaseResponse) -> (Option<Seq<char>>, Option<Seq<char>>) {
    match r {
        ReleaseResponse::Status(s) => (None, Some("HTTP error: "@ + s@)),
        ReleaseResponse::Failed(e) => (None, Some("HTTP error: "@ + e@)),
        ReleaseResponse::Body(None) => (None, Some("Failed to parse JSON"@)),
        ReleaseResponse::Body(Some(None)) => (None, Some("No tag_name in response"@)),
        ReleaseResponse::Body(Some(Some(tag))) => (Some(tag@), None),
    }
}

/// The latest version and the error of the version check (see `version_check_spec`).
pub fn version_check_result(response: ReleaseResponse) -> (r: (Option<String>, Option<String>))
    ensures
        (opt_text(r.0), opt_text(r.1)) == version_check_spec(response),
{
    match response {
        ReleaseResponse::Status(s) => {
            let mut m = "HTTP error: ".to_owned();
            push_str(&mut m, s.as_str());
            (None, Some(m))
        },
        ReleaseResponse::Failed(e) => {
            let mut m = "HTTP error: ".to_owned();
            push_str(&mut m, e.as_str());
            (None, Some(m))
        },
        ReleaseResponse::Body(None) => (None, Some("Failed to parse JSON".to_owned())),
        ReleaseResponse::Body(Some(None)) => (None, Some("No tag_name in response".to_owned())),
        ReleaseResponse::Body(Some(Some(tag))) => (Some(tag), None),
    }
}

/// Whether a byte string is a JSON document, as `serde_json::from_slice` decides.
pub uninterp spec fn json_parses(body: Seq<u8>) -> bool;

/// The text of the string member `key` of the JSON object that `serde_json::from_slice`
/// reads from `body`; `None` when there is no such member or it is not a string.
pub uninterp spec fn json_string_member(body: Seq<u8>, key: Seq<char>) -> Option<Seq<char>>;

/// `serde_json::from_slice::<Value>`, with the document converted to the string it holds
/// under `key` (`Value::get`, then `Value::as_str`): `None` when `body` is not JSON, otherwise
/// that string if there is one. Which bytes parse and what string a document holds under a key
/// are functions of the bytes and the key, named `json_parses` and `json_string_member`.
#[verifier::external_body]
fn json_string_member_of(body: &[u8], key: &str) -> (r: Option<Option<String>>)
    ensures
        r is Some == json_parses(body@),
        r matches Some(t) ==> opt_text(t) == json_string_member(body@, key@),
{
    serde_json::from_slice::<serde_json::Value>(body)
        .ok()
        .map(|doc| doc.get(key).and_then(serde_json::Value::as_str).map(str::to_owned))
}

/// The `tag_name` of a release description: `None` when the body is not JSON, `Some(None)`
/// when it has no string under `tag_name`, otherwise that string.
pub fn release_tag(body: &[u8]) -> (r: Option<Option<String>>)
    ensures
        r is Some == json_parses(body@),
        r matches Some(t) ==> opt_text(t) == json_string_member(body@, "tag_name"@),
{
    json_string_member_of(body, "tag_name")
}

} // verus!
