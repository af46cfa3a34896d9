//! Masking of credentials in text that is about to be logged or shown.
//!
//! A credential is the value that follows one of the keys `apikey`, `api_key`, `password` or
//! `token` (in any ASCII case), after the next `=` or `:` and any white space. A quoted value
//! keeps its quotes; a bare value ends at white space, a quote or a comma.

use vstd::prelude::*;
use crate::text::{chars_of, contains_seq, is_whitespace, is_ws, lower_char, lower_chars, lower_seq, occurs_at, occurs_at_exec, string_of};

verus! {

/// The first position at or after `from` where `key` occurs in `s`, or -1.
pub open spec fn find_from(s: Seq<char>, key: Seq<char>, from: int) -> int
    decreases s.len() + 1 - from,
{
    if from < 0 || from + key.len() > s.len() {
        -1
    } else if occurs_at(s, key, from) {
        from
    } else {
        find_from(s, key, from + 1)
    }
}

/// The first position at or after `from` that holds `=` or `:`, or -1.
pub open spec fn find_separator(s: Seq<char>, from: int) -> int
    decreases s.len() - from,
{
    if from < 0 || from >= s.len() {
        -1
    } else if s[from] == '=' || s[from] == ':' {
        from
    } else {
        find_separator(s, from + 1)
    }
}

/// The first position at or after `from` that does not hold white space.
pub open spec fn skip_ws(s: Seq<char>, from: int) -> int
    decreases s.len() - from,
{
    if 0 <= from < s.len() && is_ws(s[from]) {
        skip_ws(s, from + 1)
    } else {
        from
    }
}

/// The position of the quote `delim` that closes a quoted value scanned from `i`, where a
/// backslash escapes the next character; -1 when the value is never closed.
pub open spec fn closing_quote(s: Seq<char>, i: int, delim: char, escaped: bool) -> int
    decreases s.len() - i,
{
    if i < 0 || i >= s.len() {
        -1
    } else if escaped {
        closing_quote(s, i + 1, delim, false)
    } else if s[i] == '\\' {
        closing_quote(s, i + 1, delim, true)
    } else if s[i] == delim {
        i
    } else {
        closing_quote(s, i + 1, delim, false)
    }
}

/// A character that ends a bare value.
pub open spec fn ends_bare(c: char) -> bool {
    is_ws(c) || c == '"' || c == '\'' || c == ','
}

/// The end of a bare value that starts at `i`.
pub open spec fn bare_end(s: Seq<char>, i: int) -> int
    decreases s.len() - i,
{
    if 0 <= i < s.len() && !ends_bare(s[i]) {
        bare_end(s, i + 1)
    } else {
        i
    }
}

/// A quote that opens a quoted value.
pub open spec fn is_quote(c: char) -> bool {
    c == '"' || c == '\''
}

/// The span `[start, end)` of the value that starts at `vs` (an index of `s`).
pub open spec fn value_span(s: Seq<char>, vs: int) -> (int, int) {
    if is_quote(s[vs]) {
        let c = closing_quote(s, vs + 1, s[vs], false);
        (vs + 1, if c < 0 {
            s.len() as int
        } else {
            c
        })
    } else {
        (vs, bare_end(s, vs))
    }
}

/// The mask that replaces a credential.
pub open spec fn mask() -> Seq<char> {
    seq!['*', '*', '*']
}

pub proof fn lemma_find_from_bounds(s: Seq<char>, key: Seq<char>, from: int)
    ensures
        find_from(s, key, from) == -1 || (from <= find_from(s, key, from) && occurs_at(
            s,
            key,
            find_from(s, key, from),
        )),
    decreases s.len() + 1 - from,
{
    if !(from < 0 || from + key.len() > s.len()) && !occurs_at(s, key, from) {
        lemma_find_from_bounds(s, key, from + 1);
    }
}

pub proof fn lemma_find_separator_bounds(s: Seq<char>, from: int)
    ensures
        find_separator(s, from) == -1 || (from <= find_separator(s, from) < s.len()),
    decreases s.len() - from,
{
    if !(from < 0 || from >= s.len()) && !(s[from] == '=' || s[from] == ':') {
        lemma_find_separator_bounds(s, from + 1);
    }
}

pub proof fn lemma_skip_ws_bounds(s: Seq<char>, from: int)
    requires
        0 <= from <= s.len(),
    ensures
        from <= skip_ws(s, from) <= s.len(),
    decreases s.len() - from,
{
    if 0 <= from < s.len() && is_ws(s[from]) {
        lemma_skip_ws_bounds(s, from + 1);
    }
}

pub proof fn lemma_closing_quote_bounds(s: Seq<char>, i: int, delim: char, escaped: bool)
    ensures
        closing_quote(s, i, delim, escaped) == -1 || (i <= closing_quote(s, i, delim, escaped)
            < s.len()),
    decreases s.len() - i,
{
    if !(i < 0 || i >= s.len()) {
        if escaped {
            lemma_closing_quote_bounds(s, i + 1, delim, false);
        } else if s[i] == '\\' {
            lemma_closing_quote_bounds(s, i + 1, delim, true);
        } else if s[i] != delim {
            lemma_closing_quote_bounds(s, i + 1, delim, false);
        }
    }
}

pub proof fn lemma_bare_end_bounds(s: Seq<char>, i: int)
    requires
        0 <= i <= s.len(),
    ensures
        i <= bare_end(s, i) <= s.len(),
    decreases s.len() - i,
{
    if 0 <= i < s.len() && !ends_bare(s[i]) {
        lemma_bare_end_bounds(s, i + 1);
    }
}

pub proof fn lemma_value_span_bounds(s: Seq<char>, vs: int)
    requires
        0 <= vs < s.len(),
    ensures
        vs <= value_span(s, vs).0 <= s.len(),
        value_span(s, vs).0 <= value_span(s, vs).1 <= s.len() || value_span(s, vs).1 < value_span(
            s,
            vs,
        ).0,
        value_span(s, vs).1 <= s.len(),
        vs <= value_span(s, vs).1,
{
    if is_quote(s[vs]) {
        lemma_closing_quote_bounds(s, vs + 1, s[vs], false);
    } else {
        lemma_bare_end_bounds(s, vs);
    }
}

/// Masks, from position `from` on, every value that follows `key` in `out`.
pub open spec fn redact_key(out: Seq<char>, key: Seq<char>, from: int) -> Seq<char>
    decreases out.len() - from,
{
    if key.len() == 0 || from < 0 || from > out.len() {
        out
    } else {
        let pos = find_from(lower_seq(out), key, from);
        if pos < 0 {
            out
        } else {
            let after = pos + key.len();
            let eq = find_separator(out, after);
            proof {
                lemma_find_from_bounds(lower_seq(out), key, from);
                lemma_find_separator_bounds(out, after);
            }
            if eq < 0 {
                redact_key(out, key, after)
            } else {
                let vs = skip_ws(out, eq + 1);
                proof {
                    lemma_skip_ws_bounds(out, eq + 1);
                }
                if vs >= out.len() {
                    redact_key(out, key, after)
                } else {
                    let (start, end) = value_span(out, vs);
                    proof {
                        lemma_value_span_bounds(out, vs);
                    }
                    if end > start {
                        redact_key(out.take(start) + mask() + out.skip(end), key, start + 3)
                    } else {
                        redact_key(out, key, end)
                    }
                }
            }
        }
    }
}

/// Text in which none of the keys occurs, in any ASCII case, is left as it is.
pub proof fn lemma_redact_without_keys(text: Seq<char>)
    requires
        !contains_seq(lower_seq(text), "apikey"@),
        !contains_seq(lower_seq(text), "api_key"@),
        !contains_seq(lower_seq(text), "password"@),
        !contains_seq(lower_seq(text), "token"@),
    ensures
        redact_spec(text) == text,
{
    lemma_find_from_bounds(lower_seq(text), "apikey"@, 0);
    lemma_find_from_bounds(lower_seq(text), "api_key"@, 0);
    lemma_find_from_bounds(lower_seq(text), "password"@, 0);
    lemma_find_from_bounds(lower_seq(text), "token"@, 0);
}

/// The text with every credential value masked, key by key.
pub open spec fn redact_spec(text: Seq<char>) -> Seq<char> {
    redact_key(
        redact_key(
            redact_key(redact_key(text, "apikey"@, 0), "api_key"@, 0),
            "password"@,
            0,
        ),
        "token"@,
        0,
    )
}

/// A character that keys are made of: a lower-case ASCII letter or `_`.
pub open spec fn is_key_char(c: char) -> bool {
    ('a' <= c && c <= 'z') || c == '_'
}

/// A key to look for: non-empty and made of lower-case ASCII letters and `_`.
pub open spec fn is_key(key: Seq<char>) -> bool {
    key.len() > 0 && forall|i: int| 0 <= i < key.len() ==> is_key_char(#[trigger] key[i])
}

/// `key` occurs at `q` in `o` (ASCII case ignored), directly followed by `=` or `:` and a bare
/// value: one that starts with neither white space, a quote nor a comma.
pub open spec fn bare_value_after(o: Seq<char>, key: Seq<char>, q: int) -> bool {
    let v = q + key.len() + 1;
    &&& 0 <= q
    &&& occurs_at(lower_seq(o), key, q)
    &&& v < o.len()
    &&& (o[v - 1] == '=' || o[v - 1] == ':')
    &&& !ends_bare(o[v])
}

/// The value at `v` of `o` is the mask, ended by the end of the text or by a character that
/// ends a bare value.
pub open spec fn masked_value_at(o: Seq<char>, v: int) -> bool {
    &&& 0 <= v
    &&& v + 3 <= o.len()
    &&& o.subrange(v, v + 3) == mask()
    &&& (v + 3 == o.len() || ends_bare(o[v + 3]))
}

/// A letter of a key in either ASCII case, or `_`.
spec fn plain_char(c: char) -> bool {
    ('a' <= c && c <= 'z') || ('A' <= c && c <= 'Z') || c == '_'
}

/// Every bare value after an occurrence of `key` that starts before `from` is masked, and the
/// mask and the character after it lie before `from`.
spec fn masked_before(o: Seq<char>, key: Seq<char>, from: int) -> bool {
    forall|q: int|
        q < from && #[trigger] bare_value_after(o, key, q) ==> masked_value_at(o, q + key.len() + 1)
            && q + key.len() + 4 <= from
}

proof fn lemma_plain_char(c: char)
    requires
        plain_char(c),
    ensures
        !is_ws(c),
        !ends_bare(c),
        c != '=',
        c != ':',
        c != '*',
{
}

proof fn lemma_occurrence_plain(o: Seq<char>, key: Seq<char>, q: int)
    requires
        is_key(key),
        occurs_at(lower_seq(o), key, q),
    ensures
        forall|j: int| q <= j < q + key.len() ==> plain_char(#[trigger] o[j]),
{
    assert forall|j: int| q <= j < q + key.len() implies plain_char(#[trigger] o[j]) by {
        assert(lower_seq(o).subrange(q, q + key.len())[j - q] == key[j - q]);
        assert(lower_seq(o)[j] == lower_char(o[j]));
        assert(is_key_char(key[j - q]));
    }
}

proof fn lemma_find_from_first(s: Seq<char>, key: Seq<char>, from: int)
    requires
        0 <= from,
    ensures
        forall|q: int|
            from <= q && (find_from(s, key, from) < 0 || q < find_from(s, key, from)) ==> !occurs_at(
                s,
                key,
                q,
            ),
    decreases s.len() + 1 - from,
{
    if !(from + key.len() > s.len()) && !occurs_at(s, key, from) {
        lemma_find_from_first(s, key, from + 1);
    }
}

proof fn lemma_find_separator_first(s: Seq<char>, from: int)
    requires
        0 <= from,
    ensures
        forall|p: int|
            from <= p < s.len() && (find_separator(s, from) < 0 || p < find_separator(s, from)) ==> s[p]
                != '=' && s[p] != ':',
        find_separator(s, from) >= 0 ==> (s[find_separator(s, from)] == '=' || s[find_separator(s, from)] == ':'),
    decreases s.len() - from,
{
    if from < s.len() && !(s[from] == '=' || s[from] == ':') {
        lemma_find_separator_first(s, from + 1);
    }
}

proof fn lemma_skip_ws_first(s: Seq<char>, from: int)
    requires
        0 <= from,
    ensures
        forall|p: int| from <= p < skip_ws(s, from) ==> is_ws(#[trigger] s[p]),
        0 <= skip_ws(s, from) < s.len() ==> !is_ws(s[skip_ws(s, from)]),
    decreases s.len() - from,
{
    if 0 <= from < s.len() && is_ws(s[from]) {
        lemma_skip_ws_first(s, from + 1);
    }
}

proof fn lemma_bare_end_first(s: Seq<char>, i: int)
    requires
        0 <= i,
    ensures
        forall|p: int| i <= p < bare_end(s, i) ==> !ends_bare(#[trigger] s[p]),
        bare_end(s, i) < s.len() ==> ends_bare(s[bare_end(s, i)]),
    decreases s.len() - i,
{
    if 0 <= i < s.len() && !ends_bare(s[i]) {
        lemma_bare_end_first(s, i + 1);
    }
}

/// From `from` on, `redact_key` masks every bare value after an occurrence of `key`.
#[verifier::spinoff_prover]
#[verifier::rlimit(40)]
proof fn lemma_redact_key_masks(out: Seq<char>, key: Seq<char>, from: int)
    requires
        is_key(key),
        0 <= from <= out.len(),
        masked_before(out, key, from),
    ensures
        forall|q: int|
            #[trigger] bare_value_after(redact_key(out, key, from), key, q) ==> masked_value_at(
                redact_key(out, key, from),
                q + key.len() + 1,
            ),
    decreases out.len() - from,
{
    let n = key.len();
    let lo = lower_seq(out);
    let pos = find_from(lo, key, from);
    lemma_find_from_bounds(lo, key, from);
    lemma_find_from_first(lo, key, from);
    if pos < 0 {
        assert forall|q: int| #[trigger] bare_value_after(out, key, q) implies masked_value_at(out, q + n + 1) by {
            if q >= from {
                assert(!occurs_at(lo, key, q));
            }
        }
        return;
    }
    let after = pos + n;
    let eq = find_separator(out, after);
    lemma_find_separator_bounds(out, after);
    lemma_find_separator_first(out, after);
    lemma_occurrence_plain(out, key, pos);
    if eq < 0 {
        assert forall|q: int| q < after && #[trigger] bare_value_after(out, key, q) implies masked_value_at(
            out,
            q + n + 1,
        ) && q + n + 4 <= after by {
            if q >= from {
                if q < pos {
                    assert(!occurs_at(lo, key, q));
                } else {
                    assert(out[q + n] != '=' && out[q + n] != ':');
                }
            }
        }
        lemma_redact_key_masks(out, key, after);
        assert(redact_key(out, key, from) == redact_key(out, key, after));
        return;
    }
    let vs = skip_ws(out, eq + 1);
    lemma_skip_ws_bounds(out, eq + 1);
    lemma_skip_ws_first(out, eq + 1);
    if vs >= out.len() {
        assert forall|q: int| q < after && #[trigger] bare_value_after(out, key, q) implies masked_value_at(
            out,
            q + n + 1,
        ) && q + n + 4 <= after by {
            if q >= from {
                if q < pos {
                    assert(!occurs_at(lo, key, q));
                } else {
                    let p = q + n;
                    if p < eq {
                        assert(out[p] != '=' && out[p] != ':');
                    } else if p == eq {
                        assert(is_ws(out[eq + 1]));
                    } else {
                        assert(is_ws(out[p]));
                    }
                }
            }
        }
        lemma_redact_key_masks(out, key, after);
        assert(redact_key(out, key, from) == redact_key(out, key, after));
        return;
    }
    let (start, end) = value_span(out, vs);
    lemma_value_span_bounds(out, vs);
    lemma_bare_end_first(out, vs);
    if end > start {
        let out2 = out.take(start) + mask() + out.skip(end);
        let lo2 = lower_seq(out2);
        assert(out2.len() == start + 3 + out.len() - end);
        assert forall|i: int| 0 <= i < start implies #[trigger] out2[i] == out[i] by {}
        assert forall|i: int| start <= i < start + 3 implies #[trigger] out2[i] == '*' by {}
        assert forall|i: int| start + 3 <= i < out2.len() implies #[trigger] out2[i] == out[i - start - 3 + end] by {}
        assert forall|q: int| q < start + 3 && #[trigger] bare_value_after(out2, key, q) implies masked_value_at(
            out2,
            q + n + 1,
        ) && q + n + 4 <= start + 3 by {
            lemma_occurrence_plain(out2, key, q);
            if q + n <= start {
                assert(lo2.subrange(q, q + n) =~= lo.subrange(q, q + n));
                assert(occurs_at(lo, key, q));
            }
            if q < from {
                assert(q + n + 1 < start);
                assert(bare_value_after(out, key, q));
                let v = q + n + 1;
                assert(out2.subrange(v, v + 3) =~= out.subrange(v, v + 3));
            } else if q < pos {
                assert(!occurs_at(lo, key, q));
            } else {
                // The occurrence lies before the separator, and its separator is `eq`.
                if q >= eq {
                    if q < vs {
                        assert(is_ws(out2[q]));
                    } else if q < start {
                        assert(out2[q] == out[vs]);
                    } else {
                        assert(out2[q] == '*');
                    }
                    lemma_plain_char(out2[q]);
                }
                if q + n > eq {
                    assert(plain_char(out2[eq]));
                    lemma_plain_char(out2[eq]);
                }
                let p = q + n;
                assert(p >= after);
                if p < eq {
                    assert(out[p] != '=' && out[p] != ':');
                }
                assert(p == eq);
                let v = p + 1;
                if v < start {
                    if v < vs {
                        assert(is_ws(out[v]));
                    } else {
                        assert(out[v] == out[vs]);
                    }
                }
                assert(v == start);
                assert(out2.subrange(v, v + 3) =~= mask());
                if v + 3 < out2.len() {
                    assert(out2[v + 3] == out[end]);
                }
            }
        }
        lemma_redact_key_masks(out2, key, start + 3);
        assert(redact_key(out, key, from) == redact_key(out2, key, start + 3));
    } else {
        assert forall|q: int| q < end && #[trigger] bare_value_after(out, key, q) implies masked_value_at(
            out,
            q + n + 1,
        ) && q + n + 4 <= end by {
            if q >= from {
                if q < pos {
                    assert(!occurs_at(lo, key, q));
                } else {
                    lemma_occurrence_plain(out, key, q);
                    if q >= eq {
                        if q < vs {
                            assert(is_ws(out[q]));
                        }
                        lemma_plain_char(out[q]);
                    }
                    if q + n > eq {
                        lemma_plain_char(out[eq]);
                    }
                    let p = q + n;
                    if p < eq {
                        assert(out[p] != '=' && out[p] != ':');
                    }
                    assert(p == eq);
                    if vs > eq + 1 {
                        assert(is_ws(out[eq + 1]));
                    }
                    assert(vs == eq + 1);
                }
            }
        }
        lemma_redact_key_masks(out, key, end);
        assert(redact_key(out, key, from) == redact_key(out, key, end));
    }
}

/// Every bare value after an occurrence of `key` in `o` is masked.
pub open spec fn all_masked(o: Seq<char>, key: Seq<char>) -> bool {
    forall|q: int| #[trigger] bare_value_after(o, key, q) ==> masked_value_at(o, q + key.len() + 1)
}

/// Replacing `out[s..e]` by the mask keeps every masked value after `k` masked, when the
/// character before `s` is not part of a mask and, if it is a separator, `e` ends a bare value.
proof fn lemma_splice_keeps_masks(out: Seq<char>, k: Seq<char>, s: int, e: int)
    requires
        is_key(k),
        1 <= s < e <= out.len(),
        out[s - 1] != '*',
        (out[s - 1] == '=' || out[s - 1] == ':') ==> (e == out.len() || ends_bare(out[e])),
        all_masked(out, k),
    ensures
        all_masked(out.take(s) + mask() + out.skip(e), k),
{
    let n = k.len();
    let out2 = out.take(s) + mask() + out.skip(e);
    let lo = lower_seq(out);
    let lo2 = lower_seq(out2);
    assert(out2.len() == s + 3 + out.len() - e);
    assert forall|i: int| 0 <= i < s implies #[trigger] out2[i] == out[i] by {}
    assert forall|i: int| s <= i < s + 3 implies #[trigger] out2[i] == '*' by {}
    assert forall|i: int| s + 3 <= i < out2.len() implies #[trigger] out2[i] == out[i - s - 3 + e] by {}
    assert forall|q: int| #[trigger] bare_value_after(out2, k, q) implies masked_value_at(out2, q + n + 1) by {
        lemma_occurrence_plain(out2, k, q);
        let v = q + n + 1;
        if v < s {
            assert(lo2.subrange(q, q + n) =~= lo.subrange(q, q + n));
            assert(bare_value_after(out, k, q));
            assert(masked_value_at(out, v));
            if s <= v + 3 {
                assert(out.subrange(v, v + 3)[s - 1 - v] == out[s - 1]);
            }
            assert(out2.subrange(v, v + 3) =~= out.subrange(v, v + 3));
        } else if v == s {
            assert(out2.subrange(v, v + 3) =~= mask());
            if v + 3 < out2.len() {
                assert(out2[v + 3] == out[e]);
            }
        } else {
            if q + n < s + 3 {
                assert(out2[q + n] == '*');
            }
            if q < s + 3 {
                assert(out2[s + 2] == '*');
                lemma_plain_char(out2[s + 2]);
            }
            let d = e - s - 3;
            let q1 = q + d;
            assert forall|i: int| 0 <= i < n implies #[trigger] lo2.subrange(q, q + n)[i] == lo.subrange(q1, q1 + n)[i] by {
                assert(out2[q + i] == out[q1 + i]);
            }
            assert(lo2.subrange(q, q + n) =~= lo.subrange(q1, q1 + n));
            assert(out2[q + n] == out[q1 + n]);
            assert(out2[v] == out[v + d]);
            assert(bare_value_after(out, k, q1));
            assert(masked_value_at(out, v + d));
            assert(out2.subrange(v, v + 3) =~= out.subrange(v + d, v + d + 3));
            if v + 3 < out2.len() {
                assert(out2[v + 3] == out[v + d + 3]);
            }
        }
    }
}

/// A pass of `redact_key` for `k2` keeps every masked value after `k1` masked.
#[verifier::spinoff_prover]
#[verifier::rlimit(40)]
proof fn lemma_pass_keeps_masks(out: Seq<char>, k2: Seq<char>, from: int, k1: Seq<char>)
    requires
        is_key(k1),
        is_key(k2),
        0 <= from <= out.len(),
        all_masked(out, k1),
    ensures
        all_masked(redact_key(out, k2, from), k1),
    decreases out.len() - from,
{
    let lo = lower_seq(out);
    let pos = find_from(lo, k2, from);
    lemma_find_from_bounds(lo, k2, from);
    if pos < 0 {
        return;
    }
    let after = pos + k2.len();
    let eq = find_separator(out, after);
    lemma_find_separator_bounds(out, after);
    lemma_find_separator_first(out, after);
    if eq < 0 {
        lemma_pass_keeps_masks(out, k2, after, k1);
        assert(redact_key(out, k2, from) == redact_key(out, k2, after));
        return;
    }
    let vs = skip_ws(out, eq + 1);
    lemma_skip_ws_bounds(out, eq + 1);
    lemma_skip_ws_first(out, eq + 1);
    if vs >= out.len() {
        lemma_pass_keeps_masks(out, k2, after, k1);
        assert(redact_key(out, k2, from) == redact_key(out, k2, after));
        return;
    }
    let (start, end) = value_span(out, vs);
    lemma_value_span_bounds(out, vs);
    lemma_bare_end_first(out, vs);
    if end > start {
        if start == vs {
            if vs - 1 > eq {
                assert(is_ws(out[vs - 1]));
            }
        }
        lemma_splice_keeps_masks(out, k1, start, end);
        let out2 = out.take(start) + mask() + out.skip(end);
        lemma_pass_keeps_masks(out2, k2, start + 3, k1);
        assert(redact_key(out, k2, from) == redact_key(out2, k2, start + 3));
    } else {
        lemma_pass_keeps_masks(out, k2, end, k1);
        assert(redact_key(out, k2, from) == redact_key(out, k2, end));
    }
}

/// In the redacted text, every bare value directly after one of the keys `apikey`, `api_key`,
/// `password` or `token` (any ASCII case) and `=` or `:` is `***`: no credential is left in the
/// clear, whichever occurrence it follows.
pub proof fn lemma_every_credential_masked(text: Seq<char>)
    ensures
        all_masked(redact_spec(text), "apikey"@),
        all_masked(redact_spec(text), "api_key"@),
        all_masked(redact_spec(text), "password"@),
        all_masked(redact_spec(text), "token"@),
{
    reveal_strlit("apikey");
    reveal_strlit("api_key");
    reveal_strlit("password");
    reveal_strlit("token");
    assert(is_key("apikey"@));
    assert(is_key("api_key"@));
    assert(is_key("password"@));
    assert(is_key("token"@));
    let r1 = redact_key(text, "apikey"@, 0);
    let r2 = redact_key(r1, "api_key"@, 0);
    let r3 = redact_key(r2, "password"@, 0);
    lemma_every_value_masked(text, "apikey"@);
    lemma_pass_keeps_masks(r1, "api_key"@, 0, "apikey"@);
    lemma_every_value_masked(r1, "api_key"@);
    lemma_pass_keeps_masks(r2, "password"@, 0, "apikey"@);
    lemma_pass_keeps_masks(r2, "password"@, 0, "api_key"@);
    lemma_every_value_masked(r2, "password"@);
    lemma_pass_keeps_masks(r3, "token"@, 0, "apikey"@);
    lemma_pass_keeps_masks(r3, "token"@, 0, "api_key"@);
    lemma_pass_keeps_masks(r3, "token"@, 0, "password"@);
    lemma_every_value_masked(r3, "token"@);
}

/// Every credential value is masked, not only the first: after masking with `redact_key`,
/// wherever `key` is directly followed by `=` or `:` and a bare value, that value is `***`,
/// ended by the end of the text or by white space, a quote or a comma. So after
/// `token=a token=b` neither `a` nor `b` is left.
pub proof fn lemma_every_value_masked(text: Seq<char>, key: Seq<char>)
    requires
        is_key(key),
    ensures
        forall|q: int|
            #[trigger] bare_value_after(redact_key(text, key, 0), key, q) ==> masked_value_at(
                redact_key(text, key, 0),
                q + key.len() + 1,
            ),
{
    lemma_redact_key_masks(text, key, 0);
}

/// The first position at or after `from` where `key` occurs in `s`.
fn find_from_exec(s: &Vec<char>, key: &Vec<char>, from: usize) -> (r: Option<usize>)
    requires
        from <= s.len(),
    ensures
        match r {
            Some(p) => p as int == find_from(s@, key@, from as int),
            None => find_from(s@, key@, from as int) == -1,
        },
{
    let mut i = from;
    loop
        invariant
            from <= i <= s.len(),
            find_from(s@, key@, from as int) == find_from(s@, key@, i as int),
        decreases s.len() - i,
    {
        if key.len() > s.len() - i {
            return None;
        }
        if occurs_at_exec(s, key, i) {
            return Some(i);
        }
        if key.len() == 0 {
            assert(s@.subrange(i as int, i as int) =~= key@);
        }
        i = i + 1;
    }
}

/// The first position at or after `from` that holds `=` or `:`.
fn find_separator_exec(s: &Vec<char>, from: usize) -> (r: Option<usize>)
    ensures
        match r {
            Some(p) => p as int == find_separator(s@, from as int),
            None => find_separator(s@, from as int) == -1,
        },
{
    let mut i = from;
    while i < s.len()
        invariant
            from <= i,
            find_separator(s@, from as int) == find_separator(s@, i as int),
        decreases s.len() - i,
    {
        if s[i] == '=' || s[i] == ':' {
            return Some(i);
        }
        i = i + 1;
    }
    None
}

/// The first position at or after `from` that does not hold white space.
fn skip_ws_exec(s: &Vec<char>, from: usize) -> (r: usize)
    requires
        from <= s.len(),
    ensures
        r as int == skip_ws(s@, from as int),
{
    let mut i = from;
    while i < s.len() && is_whitespace(s[i])
        invariant
            from <= i <= s.len(),
            skip_ws(s@, from as int) == skip_ws(s@, i as int),
        decreases s.len() - i,
    {
        i = i + 1;
    }
    i
}

/// The closing quote of a quoted value scanned from `from`.
fn closing_quote_exec(s: &Vec<char>, from: usize, delim: char) -> (r: Option<usize>)
    ensures
        match r {
            Some(p) => p as int == closing_quote(s@, from as int, delim, false),
            None => closing_quote(s@, from as int, delim, false) == -1,
        },
{
    let mut i = from;
    let mut escaped = false;
    while i < s.len()
        invariant
            from <= i,
            closing_quote(s@, from as int, delim, false) == closing_quote(s@, i as int, delim, escaped),
        decreases s.len() - i,
    {
        let c = s[i];
        if escaped {
            escaped = false;
        } else if c == '\\' {
            escaped = true;
        } else if c == delim {
            return Some(i);
        }
        i = i + 1;
    }
    None
}

/// The end of a bare value that starts at `from`.
fn bare_end_exec(s: &Vec<char>, from: usize) -> (r: usize)
    requires
        from <= s.len(),
    ensures
        r as int == bare_end(s@, from as int),
{
    let mut i = from;
    while i < s.len() && !(is_whitespace(s[i]) || s[i] == '"' || s[i] == '\'' || s[i] == ',')
        invariant
            from <= i <= s.len(),
            bare_end(s@, from as int) == bare_end(s@, i as int),
        decreases s.len() - i,
    {
        i = i + 1;
    }
    i
}

/// `out[..start] + "***" + out[end..]`, with the length of its first two parts.
fn splice_mask(out: &Vec<char>, start: usize, end: usize) -> (r: (Vec<char>, usize))
    requires
        start <= end <= out.len(),
    ensures
        r.0@ == out@.take(start as int) + mask() + out@.skip(end as int),
        r.1 == start + 3,
{
    let mut r: Vec<char> = Vec::new();
    let mut i: usize = 0;
    while i < start
        invariant
            i <= start <= end <= out.len(),
            r@ == out@.take(i as int),
        decreases start - i,
    {
        r.push(out[i]);
        assert(out@.take(i + 1) =~= out@.take(i as int).push(out@[i as int]));
        i = i + 1;
    }
    r.push('*');
    r.push('*');
    r.push('*');
    let mid = r.len();
    assert(r@ =~= out@.take(start as int) + mask());
    let mut j = end;
    while j < out.len()
        invariant
            start <= end <= j <= out.len(),
            r@ == out@.take(start as int) + mask() + out@.subrange(end as int, j as int),
            mid == start + 3,
        decreases out.len() - j,
    {
        r.push(out[j]);
        assert(out@.subrange(end as int, j + 1) =~= out@.subrange(end as int, j as int).push(out@[j as int]));
        assert(r@ =~= out@.take(start as int) + mask() + out@.subrange(end as int, j + 1));
        j = j + 1;
    }
    assert(out@.subrange(end as int, out.len() as int) =~= out@.skip(end as int));
    (r, mid)
}

/// Masks every value that follows `key` in `text`.
fn redact_key_exec(text: Vec<char>, key: &Vec<char>) -> (r: Vec<char>)
    requires
        key@.len() > 0,
    ensures
        r@ == redact_key(text@, key@, 0),
{
    let mut out = text;
    let mut from: usize = 0;
    loop
        invariant
            key@.len() > 0,
            from <= out.len(),
            redact_key(out@, key@, from as int) == redact_key(text@, key@, 0),
        decreases out@.len() - from,
    {
        let lower = lower_chars(&out);
        let pos = match find_from_exec(&lower, key, from) {
            Some(p) => p,
            None => {
                return out;
            },
        };
        proof {
            crate::redact::lemma_find_from_bounds(lower_seq(out@), key@, from as int);
        }
        let after = pos + key.len();
        let eq = match find_separator_exec(&out, after) {
            Some(e) => e,
            None => {
                from = after;
                continue;
            },
        };
        proof {
            lemma_find_separator_bounds(out@, after as int);
            lemma_skip_ws_bounds(out@, eq + 1);
        }
        let vs = skip_ws_exec(&out, eq + 1);
        if vs >= out.len() {
            from = after;
            continue;
        }
        proof {
            lemma_value_span_bounds(out@, vs as int);
        }
        let delim = out[vs];
        let (start, end) = if delim == '"' || delim == '\'' {
            match closing_quote_exec(&out, vs + 1, delim) {
                Some(c) => (vs + 1, c),
                None => (vs + 1, out.len()),
            }
        } else {
            (vs, bare_end_exec(&out, vs))
        };
        assert((start as int, end as int) == value_span(out@, vs as int));
        if end > start {
            let (next, mid) = splice_mask(&out, start, end);
            out = next;
            from = mid;
        } else {
            from = end;
        }
    }
}

/// The text with the values of `apikey`, `api_key`, `password` and `token` masked as `***`.
pub fn redact_sensitive(text: &str) -> (r: String)
    ensures
        r@ == redact_spec(text@),
{
    let mut out = chars_of(text);
    let k1 = chars_of("apikey");
    let k2 = chars_of("api_key");
    let k3 = chars_of("password");
    let k4 = chars_of("token");
    proof {
        reveal_strlit("apikey");
        reveal_strlit("api_key");
        reveal_strlit("password");
        reveal_strlit("token");
    }
    out = redact_key_exec(out, &k1);
    out = redact_key_exec(out, &k2);
    out = redact_key_exec(out, &k3);
    out = redact_key_exec(out, &k4);
    string_of(&out)
}

} // verus!
