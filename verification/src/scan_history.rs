//! Persistent record of successful downloads, used to skip media that already has subtitles in
//! the selected languages.

use vstd::prelude::*;
use crate::subtitles::{generic_subtitle, hearing_impaired_chars, hearing_impaired_spec, matches_language_chars, matches_language_spec};
use crate::data::JobStatus;
use crate::paths::{file_stem, file_stem_chars};
use crate::text::{
    chars_eq, chars_of, eq_ignore_case_chars, lemma_filter_contains_iff, lemma_filter_push,
    lemma_push_contains, texts,
};

verus! {

/// What identifies a file's content: size, modification time and file system identity.
#[derive(Clone, Copy, Debug, PartialEq, Eq)]
pub struct FileIdentity {
    pub size: u64,
    pub mtime_secs: u64,
    pub mtime_nanos: u32,
    pub file_id: u128,
}

impl FileIdentity {
    /// The identity of a Unix file: its size and modification time, and as file system
    /// identity its device number in the high 64 bits and its inode number in the low ones.
    pub fn from_unix_metadata(size: u64, mtime_secs: u64, mtime_nanos: u32, dev: u64, ino: u64) -> (r: FileIdentity)
        ensures
            r.size == size,
            r.mtime_secs == mtime_secs,
            r.mtime_nanos == mtime_nanos,
            r.file_id == dev * 0x1_0000_0000_0000_0000 + ino,
    {
        let d: u128 = dev as u128;
        let i: u128 = ino as u128;
        let id: u128 = (d << 64u128) | i;
        assert(id == d * 0x1_0000_0000_0000_0000 + i) by (bit_vector)
            requires
                d < 0x1_0000_0000_0000_0000,
                i < 0x1_0000_0000_0000_0000,
                id == (d << 64u128) | i,
        ;
        FileIdentity { size, mtime_secs, mtime_nanos, file_id: id }
    }
}

/// A video's record: the identity it had and the languages found for it.
#[derive(Debug)]
pub struct ScanRecord {
    pub size: u64,
    pub mtime_secs: u64,
    pub mtime_nanos: Option<u32>,
    pub file_id: Option<u128>,
    pub langs: Vec<String>,
    pub contains_hearing_impaired: bool,
    pub hearing_impaired_langs: Vec<String>,
}

/// The mathematical content of a [`ScanRecord`].
pub struct ScanRecordModel {
    pub size: u64,
    pub mtime_secs: u64,
    pub mtime_nanos: Option<u32>,
    pub file_id: Option<u128>,
    pub langs: Seq<Seq<char>>,
    pub contains_hearing_impaired: bool,
    pub hearing_impaired_langs: Seq<Seq<char>>,
}

impl View for ScanRecord {
    type V = ScanRecordModel;

    open spec fn view(&self) -> ScanRecordModel {
        ScanRecordModel {
            size: self.size,
            mtime_secs: self.mtime_secs,
            mtime_nanos: self.mtime_nanos,
            file_id: self.file_id,
            langs: texts(self.langs@),
            contains_hearing_impaired: self.contains_hearing_impaired,
            hearing_impaired_langs: texts(self.hearing_impaired_langs@),
        }
    }
}

/// Every selected language is among the recorded ones, and at least one is selected.
pub open spec fn covers_spec(recorded: Seq<Seq<char>>, selected: Seq<Seq<char>>) -> bool {
    selected.len() > 0 && forall|i: int| 0 <= i < selected.len() ==> recorded.contains(#[trigger] selected[i])
}

/// The recorded identity is the file's current identity: same size and time, and either the
/// same sub-second time and file id, or a record written before those were kept.
pub open spec fn same_identity(existing: Option<ScanRecordModel>, id: FileIdentity) -> bool {
    match existing {
        Some(r) => r.size == id.size && r.mtime_secs == id.mtime_secs && ((r.mtime_nanos == Some(
            id.mtime_nanos,
        ) && r.file_id == Some(id.file_id)) || (r.mtime_nanos is None && r.file_id is None)),
        None => false,
    }
}

/// `base` followed by the languages of `add` that are not yet present, in order.
pub open spec fn add_missing(base: Seq<Seq<char>>, add: Seq<Seq<char>>) -> Seq<Seq<char>>
    decreases add.len(),
{
    if add.len() == 0 {
        base
    } else {
        let b = add_missing(base, add.drop_last());
        if b.contains(add.last()) {
            b
        } else {
            b.push(add.last())
        }
    }
}

/// The hearing-impaired languages after a refresh of `langs`: each refreshed language is added
/// when it is in `hi` and removed otherwise.
pub open spec fn update_hearing_impaired(base: Seq<Seq<char>>, langs: Seq<Seq<char>>, hi: Seq<Seq<char>>) -> Seq<Seq<char>>
    decreases langs.len(),
{
    if langs.len() == 0 {
        base
    } else {
        let b = update_hearing_impaired(base, langs.drop_last(), hi);
        let l = langs.last();
        if hi.contains(l) {
            if b.contains(l) {
                b
            } else {
                b.push(l)
            }
        } else {
            b.filter(|x: Seq<char>| x != l)
        }
    }
}

/// The record after a successful download of `langs` for a file with identity `id`.
pub open spec fn merge_spec(
    existing: Option<ScanRecordModel>,
    id: FileIdentity,
    langs: Seq<Seq<char>>,
    hi: Seq<Seq<char>>,
) -> ScanRecordModel {
    let same = same_identity(existing, id);
    let base_langs = if same {
        existing->0.langs
    } else {
        Seq::empty()
    };
    let base_hi = if same {
        if existing->0.hearing_impaired_langs.len() == 0 && existing->0.contains_hearing_impaired {
            existing->0.langs
        } else {
            existing->0.hearing_impaired_langs
        }
    } else {
        Seq::empty()
    };
    let merged_hi = update_hearing_impaired(base_hi, langs, hi);
    ScanRecordModel {
        size: id.size,
        mtime_secs: id.mtime_secs,
        mtime_nanos: Some(id.mtime_nanos),
        file_id: Some(id.file_id),
        langs: add_missing(base_langs, langs),
        contains_hearing_impaired: merged_hi.len() > 0,
        hearing_impaired_langs: merged_hi,
    }
}

/// Whether a record lets a scan skip the file for the selected languages.
pub open spec fn allows_skip_spec(r: ScanRecordModel, selected: Seq<Seq<char>>, exclude_hearing_impaired: bool) -> bool {
    let excluded = if r.hearing_impaired_langs.len() == 0 {
        r.contains_hearing_impaired
    } else {
        exists|i: int| 0 <= i < selected.len() && r.hearing_impaired_langs.contains(#[trigger] selected[i])
    };
    (!exclude_hearing_impaired || !excluded) && covers_spec(r.langs, selected)
}

/// The record's identity is exactly `id`.
pub open spec fn identity_matches(r: ScanRecordModel, id: FileIdentity) -> bool {
    r.size == id.size && r.mtime_secs == id.mtime_secs && r.mtime_nanos == Some(id.mtime_nanos)
        && r.file_id == Some(id.file_id)
}

/// Whether a history lets a scan skip the video at `key` whose current identity is `identity`.
pub open spec fn skip_spec(
    history: Map<Seq<char>, ScanRecordModel>,
    key: Seq<char>,
    identity: Option<FileIdentity>,
    selected: Seq<Seq<char>>,
    exclude_hearing_impaired: bool,
) -> bool {
    history.contains_key(key) && identity is Some && identity_matches(history[key], identity->0)
        && allows_skip_spec(history[key], selected, exclude_hearing_impaired)
}

/// Some subtitle of the list is in `lang`.
pub open spec fn has_language(video: Seq<char>, subs: Seq<Seq<char>>, lang: Seq<char>) -> bool {
    exists|i: int| 0 <= i < subs.len() && matches_language_spec(video, #[trigger] subs[i], lang)
}

/// The video's exact-stem subtitle in the list is hearing-impaired.
pub open spec fn generic_is_hearing_impaired(video: Seq<char>, subs: Seq<Seq<char>>) -> bool {
    exists|i: int|
        0 <= i < subs.len() && generic_subtitle(video, #[trigger] subs[i]) && hearing_impaired_spec(video, subs[i])
}

/// For `lang`, only hearing-impaired subtitles were found: there is a hearing-impaired one (a
/// hearing-impaired exact-stem subtitle counts) and no regular one.
pub open spec fn only_hearing_impaired(video: Seq<char>, subs: Seq<Seq<char>>, lang: Seq<char>) -> bool {
    (generic_is_hearing_impaired(video, subs) || exists|i: int|
        0 <= i < subs.len() && matches_language_spec(video, #[trigger] subs[i], lang)
            && hearing_impaired_spec(video, subs[i])) && !(exists|i: int|
        0 <= i < subs.len() && matches_language_spec(video, #[trigger] subs[i], lang)
            && !hearing_impaired_spec(video, subs[i]))
}

/// A copy of a list of strings.
pub fn clone_strings(v: &Vec<String>) -> (r: Vec<String>)
    ensures
        r@ == v@,
{
    let mut r: Vec<String> = Vec::new();
    let mut i: usize = 0;
    while i < v.len()
        invariant
            0 <= i <= v.len(),
            r@ == v@.take(i as int),
        decreases v.len() - i,
    {
        r.push(v[i].clone());
        assert(v@.take(i + 1) =~= v@.take(i as int).push(v@[i as int]));
        i = i + 1;
    }
    assert(v@.take(v.len() as int) =~= v@);
    r
}

/// Whether `list` holds a string equal to `s`.
pub fn contains_string(list: &Vec<String>, s: &String) -> (r: bool)
    ensures
        r == texts(list@).contains(s@),
{
    let sc = chars_of(s.as_str());
    let mut i: usize = 0;
    while i < list.len()
        invariant
            0 <= i <= list.len(),
            sc@ == s@,
            forall|j: int| 0 <= j < i ==> texts(list@)[j] != s@,
        decreases list.len() - i,
    {
        let lc = chars_of(list[i].as_str());
        if chars_eq(&lc, &sc) {
            assert(texts(list@)[i as int] == s@);
            return true;
        }
        i = i + 1;
    }
    false
}

/// Whether `list` holds a string equal to `s`, for a slice.
fn slice_contains(list: &[String], s: &String) -> (r: bool)
    ensures
        r == texts(list@).contains(s@),
{
    let sc = chars_of(s.as_str());
    let mut i: usize = 0;
    while i < list.len()
        invariant
            0 <= i <= list@.len(),
            sc@ == s@,
            forall|j: int| 0 <= j < i ==> texts(list@)[j] != s@,
        decreases list.len() - i,
    {
        let lc = chars_of(list[i].as_str());
        if chars_eq(&lc, &sc) {
            assert(texts(list@)[i as int] == s@);
            return true;
        }
        i = i + 1;
    }
    false
}

/// The merged record after a successful download (see [`merge_spec`]).
pub fn merge_record(
    existing: Option<&ScanRecord>,
    size: u64,
    mtime_secs: u64,
    mtime_nanos: u32,
    file_id: u128,
    langs: &[String],
    hearing_impaired_langs: &[String],
) -> (r: ScanRecord)
    ensures
        r@ == merge_spec(
            match existing {
                Some(e) => Some(e@),
                None => None,
            },
            FileIdentity { size, mtime_secs, mtime_nanos, file_id },
            texts(langs@),
            texts(hearing_impaired_langs@),
        ),
{
    let ghost ex = match existing {
        Some(e) => Some(e@),
        None => None::<ScanRecordModel>,
    };
    let ghost id = FileIdentity { size, mtime_secs, mtime_nanos, file_id };
    let same = match existing {
        Some(record) => record.size == size && record.mtime_secs == mtime_secs && ((
        record.mtime_nanos == Some(mtime_nanos) && record.file_id == Some(file_id)) || (
        record.mtime_nanos.is_none() && record.file_id.is_none())),
        None => false,
    };
    assert(same == same_identity(ex, id));
    let mut merged: Vec<String> = if same {
        match existing {
            Some(record) => clone_strings(&record.langs),
            None => Vec::new(),
        }
    } else {
        Vec::new()
    };
    let ghost base_langs = texts(merged@);
    assert(base_langs == (if same_identity(ex, id) { ex->0.langs } else { Seq::<Seq<char>>::empty() }));
    let mut i: usize = 0;
    while i < langs.len()
        invariant
            0 <= i <= langs@.len(),
            texts(merged@) == add_missing(base_langs, texts(langs@).take(i as int)),
        decreases langs.len() - i,
    {
        let lang = &langs[i];
        let present = contains_string(&merged, lang);
        assert(texts(langs@).take(i + 1).drop_last() =~= texts(langs@).take(i as int));
        assert(texts(langs@).take(i + 1).last() == lang@);
        if !present {
            let ghost old_m = merged@;
            merged.push(lang.clone());
            assert(texts(merged@) =~= texts(old_m).push(lang@));
        }
        i = i + 1;
    }
    assert(texts(langs@).take(langs.len() as int) =~= texts(langs@));
    let mut merged_hi: Vec<String> = if same {
        match existing {
            Some(record) => if record.hearing_impaired_langs.len() == 0
                && record.contains_hearing_impaired {
                clone_strings(&record.langs)
            } else {
                clone_strings(&record.hearing_impaired_langs)
            },
            None => Vec::new(),
        }
    } else {
        Vec::new()
    };
    let ghost base_hi = texts(merged_hi@);
    assert(base_hi == (if same_identity(ex, id) {
        if ex->0.hearing_impaired_langs.len() == 0 && ex->0.contains_hearing_impaired {
            ex->0.langs
        } else {
            ex->0.hearing_impaired_langs
        }
    } else {
        Seq::<Seq<char>>::empty()
    }));
    let mut i: usize = 0;
    while i < langs.len()
        invariant
            0 <= i <= langs@.len(),
            texts(merged_hi@) == update_hearing_impaired(base_hi, texts(langs@).take(i as int), texts(hearing_impaired_langs@)),
        decreases langs.len() - i,
    {
        let lang = &langs[i];
        assert(texts(langs@).take(i + 1).drop_last() =~= texts(langs@).take(i as int));
        assert(texts(langs@).take(i + 1).last() == lang@);
        if slice_contains(hearing_impaired_langs, lang) {
            if !contains_string(&merged_hi, lang) {
                let ghost old_m = merged_hi@;
                merged_hi.push(lang.clone());
                assert(texts(merged_hi@) =~= texts(old_m).push(lang@));
            }
        } else {
            let ghost pred = |x: Seq<char>| x != lang@;
            let mut kept: Vec<String> = Vec::new();
            let mut j: usize = 0;
            proof {
                crate::text::lemma_filter_empty(pred);
                assert(texts(merged_hi@).take(0) =~= Seq::<Seq<char>>::empty());
            }
            let lc = chars_of(lang.as_str());
            while j < merged_hi.len()
                invariant
                    0 <= j <= merged_hi.len(),
                    lc@ == lang@,
                    pred == (|x: Seq<char>| x != lang@),
                    texts(kept@) == texts(merged_hi@).take(j as int).filter(pred),
                decreases merged_hi.len() - j,
            {
                let item = &merged_hi[j];
                let ic = chars_of(item.as_str());
                proof {
                    assert(texts(merged_hi@).take(j + 1) =~= texts(merged_hi@).take(j as int).push(item@));
                    lemma_filter_push(texts(merged_hi@).take(j as int), pred, item@);
                }
                if !chars_eq(&ic, &lc) {
                    let ghost old_k = kept@;
                    kept.push(item.clone());
                    assert(texts(kept@) =~= texts(old_k).push(item@));
                }
                j = j + 1;
            }
            assert(texts(merged_hi@).take(merged_hi.len() as int) =~= texts(merged_hi@));
            let ghost l = texts(langs@).take(i + 1).last();
            assert(pred =~= (|x: Seq<char>| x != l));
            merged_hi = kept;
        }
        i = i + 1;
    }
    assert(texts(langs@).take(langs.len() as int) =~= texts(langs@));
    let contains_hearing_impaired = merged_hi.len() > 0;
    ScanRecord {
        size,
        mtime_secs,
        mtime_nanos: Some(mtime_nanos),
        file_id: Some(file_id),
        langs: merged,
        contains_hearing_impaired,
        hearing_impaired_langs: merged_hi,
    }
}

/// Whether every selected language is among the recorded ones (and some language is selected).
fn covers_languages_impl(recorded: &Vec<String>, selected: &[String]) -> (r: bool)
    ensures
        r == covers_spec(texts(recorded@), texts(selected@)),
{
    if selected.len() == 0 {
        return false;
    }
    let mut i: usize = 0;
    while i < selected.len()
        invariant
            0 <= i <= selected@.len(),
            forall|j: int| 0 <= j < i ==> texts(recorded@).contains(#[trigger] texts(selected@)[j]),
        decreases selected.len() - i,
    {
        if !contains_string(recorded, &selected[i]) {
            assert(!texts(recorded@).contains(texts(selected@)[i as int]));
            return false;
        }
        i = i + 1;
    }
    true
}

/// Whether a record lets a scan skip the file for the selected languages: the record covers
/// them, and, when hearing-impaired subtitles are excluded, none of them (or, for records that
/// do not list languages, none at all) was hearing-impaired.
pub fn record_allows_skip(record: &ScanRecord, selected_languages: &[String], exclude_hearing_impaired: bool) -> (r: bool)
    ensures
        r == allows_skip_spec(record@, texts(selected_languages@), exclude_hearing_impaired),
{
    let excluded = if record.hearing_impaired_langs.len() == 0 {
        record.contains_hearing_impaired
    } else {
        let mut found = false;
        let mut i: usize = 0;
        while i < selected_languages.len()
            invariant
                0 <= i <= selected_languages@.len(),
                found == exists|j: int|
                    0 <= j < i && texts(record.hearing_impaired_langs@).contains(#[trigger] texts(selected_languages@)[j]),
            decreases selected_languages.len() - i,
        {
            if contains_string(&record.hearing_impaired_langs, &selected_languages[i]) {
                assert(texts(record.hearing_impaired_langs@).contains(texts(selected_languages@)[i as int]));
                found = true;
            }
            i = i + 1;
        }
        found
    };
    (!exclude_hearing_impaired || !excluded) && covers_languages_impl(&record.langs, selected_languages)
}

/// The map from keys to records held by a list of entries (a later entry wins).
pub open spec fn entries_map(v: Seq<(String, ScanRecord)>) -> Map<Seq<char>, ScanRecordModel>
    decreases v.len(),
{
    if v.len() == 0 {
        Map::empty()
    } else {
        entries_map(v.drop_last()).insert(v.last().0@, v.last().1@)
    }
}

/// No two entries have the same key.
pub open spec fn unique_keys(v: Seq<(String, ScanRecord)>) -> bool {
    forall|i: int, j: int| 0 <= i < j < v.len() ==> (#[trigger] v[i]).0@ != (#[trigger] v[j]).0@
}

proof fn lemma_entries_map(v: Seq<(String, ScanRecord)>)
    requires
        unique_keys(v),
    ensures
        forall|k: Seq<char>|
            #[trigger] entries_map(v).contains_key(k) <==> exists|i: int| 0 <= i < v.len() && (#[trigger] v[i]).0@ == k,
        forall|i: int| 0 <= i < v.len() ==> #[trigger] entries_map(v)[v[i].0@] == v[i].1@,
    decreases v.len(),
{
    if v.len() > 0 {
        let w = v.drop_last();
        assert(unique_keys(w)) by {
            assert forall|i: int, j: int| 0 <= i < j < w.len() implies (#[trigger] w[i]).0@ != (#[trigger] w[j]).0@ by {
                assert(w[i] == v[i] && w[j] == v[j]);
            }
        }
        lemma_entries_map(w);
        assert forall|k: Seq<char>|
            #[trigger] entries_map(v).contains_key(k) <==> exists|i: int| 0 <= i < v.len() && (#[trigger] v[i]).0@ == k by {
            if entries_map(w).contains_key(k) {
                let i = choose|i: int| 0 <= i < w.len() && (#[trigger] w[i]).0@ == k;
                assert(v[i] == w[i]);
            }
            if exists|i: int| 0 <= i < v.len() && (#[trigger] v[i]).0@ == k {
                let i = choose|i: int| 0 <= i < v.len() && (#[trigger] v[i]).0@ == k;
                if i < v.len() - 1 {
                    assert(w[i] == v[i]);
                }
            }
        }
        assert forall|i: int| 0 <= i < v.len() implies #[trigger] entries_map(v)[v[i].0@] == v[i].1@ by {
            if i < v.len() - 1 {
                assert(w[i] == v[i]);
                assert(v[i].0@ != v[v.len() - 1].0@);
                assert(entries_map(w)[w[i].0@] == w[i].1@);
            }
        }
    }
}

proof fn lemma_entries_map_update(v: Seq<(String, ScanRecord)>, i: int, e: (String, ScanRecord))
    requires
        unique_keys(v),
        0 <= i < v.len(),
        v[i].0@ == e.0@,
    ensures
        unique_keys(v.update(i, e)),
        entries_map(v.update(i, e)) == entries_map(v).insert(e.0@, e.1@),
{
    let u = v.update(i, e);
    assert(unique_keys(u)) by {
        assert forall|a: int, b: int| 0 <= a < b < u.len() implies (#[trigger] u[a]).0@ != (#[trigger] u[b]).0@ by {
            assert(u[a].0@ == v[a].0@);
            assert(u[b].0@ == v[b].0@);
        }
    }
    lemma_entries_map(v);
    lemma_entries_map(u);
    assert forall|k: Seq<char>| #[trigger] entries_map(u).contains_key(k) <==> entries_map(v).insert(e.0@, e.1@).contains_key(k) by {
        if entries_map(u).contains_key(k) {
            let a = choose|a: int| 0 <= a < u.len() && (#[trigger] u[a]).0@ == k;
            assert(v[a].0@ == k);
        }
        if entries_map(v).contains_key(k) {
            let a = choose|a: int| 0 <= a < v.len() && (#[trigger] v[a]).0@ == k;
            assert(u[a].0@ == k);
        }
        if k == e.0@ {
            assert(u[i].0@ == k);
        }
    }
    assert forall|k: Seq<char>| #[trigger] entries_map(u).contains_key(k) implies entries_map(u)[k] == entries_map(v).insert(e.0@, e.1@)[k] by {
        let a = choose|a: int| 0 <= a < u.len() && (#[trigger] u[a]).0@ == k;
        if a == i {
        } else {
            assert(u[a] == v[a]);
            assert(v[a].0@ != v[i].0@);
        }
    }
    assert(entries_map(u) =~= entries_map(v).insert(e.0@, e.1@));
}

/// The languages recorded after a download that changed `changed`: the requested ones that
/// those subtitles cover, or all requested ones when they cover none.
pub open spec fn recorded_languages(video: Seq<char>, changed: Seq<Seq<char>>, requested: Seq<Seq<char>>) -> Seq<Seq<char>> {
    let covered = requested.filter(|l: Seq<char>| has_language(video, changed, l));
    if covered.len() == 0 {
        requested
    } else {
        covered
    }
}

/// Of the recorded languages, those for which only hearing-impaired subtitles are present.
pub open spec fn recorded_hearing_impaired(video: Seq<char>, changed: Seq<Seq<char>>, requested: Seq<Seq<char>>) -> Seq<Seq<char>> {
    recorded_languages(video, changed, requested).filter(|l: Seq<char>| only_hearing_impaired(video, changed, l))
}

/// A copy of the strings of a slice.
pub fn clone_strings_slice(v: &[String]) -> (r: Vec<String>)
    ensures
        r@ == v@,
{
    let mut r: Vec<String> = Vec::new();
    let mut i: usize = 0;
    while i < v.len()
        invariant
            0 <= i <= v@.len(),
            r@ == v@.take(i as int),
        decreases v.len() - i,
    {
        r.push(v[i].clone());
        assert(v@.take(i + 1) =~= v@.take(i as int).push(v@[i as int]));
        i = i + 1;
    }
    assert(v@.take(v@.len() as int) =~= v@);
    r
}

/// The candidates (in order) that the history does not let a scan skip; each comes with its
/// file's current identity.
pub open spec fn unskipped_spec(
    history: Map<Seq<char>, ScanRecordModel>,
    candidates: Seq<(String, Option<FileIdentity>)>,
    selected: Seq<Seq<char>>,
    exclude_hearing_impaired: bool,
) -> Seq<Seq<char>>
    decreases candidates.len(),
{
    if candidates.len() == 0 {
        Seq::empty()
    } else {
        let c = candidates.last();
        unskipped_spec(history, candidates.drop_last(), selected, exclude_hearing_impaired) + if skip_spec(
            history,
            c.0@,
            c.1,
            selected,
            exclude_hearing_impaired,
        ) {
            Seq::empty()
        } else {
            seq![c.0@]
        }
    }
}

/// The record of successful downloads, keyed by video path.
pub struct ScanHistory {
    records: Vec<(String, ScanRecord)>,
    dirty: bool,
}

impl View for ScanHistory {
    type V = Map<Seq<char>, ScanRecordModel>;

    closed spec fn view(&self) -> Map<Seq<char>, ScanRecordModel> {
        entries_map(self.records@)
    }
}

impl ScanHistory {
    #[verifier::type_invariant]
    closed spec fn keys_are_unique(self) -> bool {
        unique_keys(self.records@)
    }

    /// Whether the history holds changes that have not been saved.
    pub closed spec fn is_dirty_spec(self) -> bool {
        self.dirty
    }

    /// An empty history with nothing to save.
    pub fn new() -> (r: Self)
        ensures
            r@ == Map::<Seq<char>, ScanRecordModel>::empty(),
            !r.is_dirty_spec(),
    {
        ScanHistory { records: Vec::new(), dirty: false }
    }

    /// Index of the entry for `key`.
    fn find(&self, key: &str) -> (r: Option<usize>)
        ensures
            match r {
                Some(i) => i < self.records@.len() && self.records@[i as int].0@ == key@,
                None => forall|i: int| 0 <= i < self.records@.len() ==> self.records@[i].0@ != key@,
            },
    {
        let kc = chars_of(key);
        let mut i: usize = 0;
        while i < self.records.len()
            invariant
                0 <= i <= self.records@.len(),
                kc@ == key@,
                forall|j: int| 0 <= j < i ==> self.records@[j].0@ != key@,
            decreases self.records.len() - i,
        {
            let c = chars_of(self.records[i].0.as_str());
            if chars_eq(&c, &kc) {
                return Some(i);
            }
            i = i + 1;
        }
        None
    }

    /// The record kept for `key`.
    pub fn get_record(&self, key: &str) -> (r: Option<&ScanRecord>)
        ensures
            match r {
                Some(rec) => self@.contains_key(key@) && self@[key@] == rec@,
                None => !self@.contains_key(key@),
            },
    {
        proof {
            use_type_invariant(self);
            lemma_entries_map(self.records@);
        }
        match self.find(key) {
            Some(i) => Some(&self.records[i].1),
            None => None,
        }
    }

    /// Store `record` for `key`, replacing any earlier record for it.
    pub fn insert_record(&mut self, key: String, record: ScanRecord)
        ensures
            final(self)@ == old(self)@.insert(key@, record@),
            final(self).is_dirty_spec() == old(self).is_dirty_spec(),
    {
        proof {
            use_type_invariant(&*self);
        }
        let ghost old_records = self.records@;
        let found = self.find(key.as_str());
        let mut recs: Vec<(String, ScanRecord)> = Vec::new();
        std::mem::swap(&mut recs, &mut self.records);
        match found {
            Some(i) => {
                proof {
                    lemma_entries_map_update(old_records, i as int, (key, record));
                }
                recs.set(i, (key, record));
            },
            None => {
                recs.push((key, record));
                proof {
                    assert(recs@.drop_last() =~= old_records);
                    assert forall|a: int, b: int| 0 <= a < b < recs@.len() implies (#[trigger] recs@[a]).0@ != (#[trigger] recs@[b]).0@ by {
                        if b == recs@.len() - 1 {
                            assert(recs@[a] == old_records[a]);
                        } else {
                            assert(recs@[a] == old_records[a]);
                            assert(recs@[b] == old_records[b]);
                        }
                    }
                }
            },
        }
        self.records = recs;
    }

    /// A history holding the given entries; for a repeated key the later entry wins.
    pub fn from_entries(entries: Vec<(String, ScanRecord)>) -> (r: Self)
        ensures
            r@ == entries_map(entries@),
            !r.is_dirty_spec(),
    {
        let mut h = ScanHistory::new();
        let ghost all = entries@;
        let total = entries.len();
        let mut src = entries;
        let mut rest: Vec<(String, ScanRecord)> = Vec::new();
        while src.len() > 0
            invariant
                src@ == all.take(all.len() - rest@.len()),
                rest@.len() <= all.len(),
                forall|j: int| 0 <= j < rest@.len() ==> rest@[j] == all[all.len() - 1 - j],
            decreases src.len(),
        {
            let ghost before = src@;
            let e = src.pop().unwrap();
            assert(e == all[all.len() - 1 - rest@.len()]);
            rest.push(e);
            assert(src@ =~= all.take(all.len() - rest@.len()));
        }
        let mut n: usize = 0;
        while rest.len() > 0
            invariant
                total == all.len(),
                n + rest@.len() == all.len(),
                forall|j: int| 0 <= j < rest@.len() ==> rest@[j] == all[all.len() - 1 - j],
                h@ == entries_map(all.take(n as int)),
                !h.is_dirty_spec(),
            decreases rest.len(),
        {
            let ghost before = rest@;
            let e = rest.pop().unwrap();
            assert(e == all[n as int]);
            assert(all.take(n + 1).drop_last() =~= all.take(n as int));
            h.insert_record(e.0, e.1);
            n = n + 1;
            assert forall|j: int| 0 <= j < rest@.len() implies rest@[j] == all[all.len() - 1 - j] by {
                assert(rest@[j] == before[j]);
            }
        }
        assert(all.take(n as int) =~= all);
        h
    }

    /// The entries of the history, one per key.
    pub fn entries(&self) -> (r: &Vec<(String, ScanRecord)>)
        ensures
            entries_map(r@) == self@,
            unique_keys(r@),
    {
        proof {
            use_type_invariant(self);
        }
        &self.records
    }

    /// The number of videos recorded.
    pub fn len(&self) -> (r: usize)
        ensures
            r == self@.len(),
    {
        proof {
            use_type_invariant(self);
            lemma_entries_map_len(self.records@);
        }
        self.records.len()
    }

    /// Whether no video is recorded.
    pub fn is_empty(&self) -> (r: bool)
        ensures
            r == (self@.len() == 0),
    {
        self.len() == 0
    }

    /// Whether changes wait to be saved.
    pub fn is_dirty(&self) -> (r: bool)
        ensures
            r == self.is_dirty_spec(),
    {
        self.dirty
    }

    /// Note that the history was saved.
    pub fn mark_saved(&mut self)
        ensures
            final(self)@ == old(self)@,
            !final(self).is_dirty_spec(),
    {
        proof {
            use_type_invariant(&*self);
        }
        self.dirty = false;
    }

    /// Whether the video at `key`, whose current identity is `identity` (`None` when it could not
    /// be read), may be skipped: it has a record with exactly that identity, and the record
    /// allows skipping the selected languages.
    pub fn should_skip(
        &self,
        key: &str,
        identity: Option<FileIdentity>,
        selected_languages: &[String],
        exclude_hearing_impaired: bool,
    ) -> (r: bool)
        ensures
            r == skip_spec(self@, key@, identity, texts(selected_languages@), exclude_hearing_impaired),
    {
        let record = match self.get_record(key) {
            Some(r) => r,
            None => return false,
        };
        let id = match identity {
            Some(id) => id,
            None => return false,
        };
        if record.size != id.size {
            return false;
        }
        if record.mtime_secs != id.mtime_secs || record.mtime_nanos != Some(id.mtime_nanos) {
            return false;
        }
        if record.file_id != Some(id.file_id) {
            return false;
        }
        record_allows_skip(record, selected_languages, exclude_hearing_impaired)
    }

    /// Record a successful download of `langs` for the video at `key`. When its identity could
    /// not be read (`None`) nothing is recorded.
    pub fn record_success(
        &mut self,
        key: &str,
        identity: Option<FileIdentity>,
        langs: &[String],
        hearing_impaired_langs: &[String],
    )
        ensures
            match identity {
                Some(id) => {
                    &&& final(self)@ == old(self)@.insert(
                        key@,
                        merge_spec(
                            if old(self)@.contains_key(key@) {
                                Some(old(self)@[key@])
                            } else {
                                None
                            },
                            id,
                            texts(langs@),
                            texts(hearing_impaired_langs@),
                        ),
                    )
                    &&& final(self).is_dirty_spec()
                },
                None => final(self)@ == old(self)@ && final(self).is_dirty_spec() == old(self).is_dirty_spec(),
            },
    {
        let id = match identity {
            Some(id) => id,
            None => return,
        };
        let record = {
            let existing = self.get_record(key);
            merge_record(
                existing,
                id.size,
                id.mtime_secs,
                id.mtime_nanos,
                id.file_id,
                langs,
                hearing_impaired_langs,
            )
        };
        self.insert_record(key.to_owned(), record);
        proof {
            use_type_invariant(&*self);
        }
        self.dirty = true;
    }

    /// The candidates of a scan that must still be downloaded (in order), with the number that
    /// were skipped because the history covers them.
    pub fn unskipped(
        &self,
        candidates: &Vec<(String, Option<FileIdentity>)>,
        selected_languages: &[String],
        exclude_hearing_impaired: bool,
    ) -> (r: (Vec<String>, usize))
        ensures
            texts(r.0@) == unskipped_spec(self@, candidates@, texts(selected_languages@), exclude_hearing_impaired),
            r.0@.len() + r.1 == candidates@.len(),
    {
        let mut kept: Vec<String> = Vec::new();
        let mut skipped: usize = 0;
        let mut i: usize = 0;
        while i < candidates.len()
            invariant
                0 <= i <= candidates@.len(),
                texts(kept@) == unskipped_spec(self@, candidates@.take(i as int), texts(selected_languages@), exclude_hearing_impaired),
                kept@.len() + skipped == i,
            decreases candidates.len() - i,
        {
            let ghost pre = candidates@.take(i + 1);
            assert(pre.drop_last() =~= candidates@.take(i as int));
            assert(pre.last() == candidates@[i as int]);
            let ghost old_k = texts(kept@);
            if self.should_skip(candidates[i].0.as_str(), candidates[i].1, selected_languages, exclude_hearing_impaired) {
                skipped = skipped + 1;
                assert(old_k + Seq::<Seq<char>>::empty() =~= old_k);
            } else {
                kept.push(candidates[i].0.clone());
                assert(texts(kept@) =~= old_k + seq![candidates@[i as int].0@]);
            }
            i = i + 1;
        }
        assert(candidates@.take(candidates.len() as int) =~= candidates@);
        (kept, skipped)
    }

    /// After a job that succeeded and wrote or changed the subtitles `changed_paths` of the
    /// video, records the languages they cover (see `recorded_languages`) under the video's
    /// path, with those found only as hearing-impaired subtitles. Nothing is recorded for a job
    /// that did not succeed, that changed nothing, or whose video's identity could not be read.
    pub fn record_download(
        &mut self,
        video_path: &str,
        identity: Option<FileIdentity>,
        status: &JobStatus,
        changed_paths: &[String],
        requested: &[String],
    )
        ensures
            (status is Success && changed_paths@.len() > 0 && identity is Some && recorded_languages(
                video_path@,
                texts(changed_paths@),
                texts(requested@),
            ).len() > 0) ==> final(self)@ == old(self)@.insert(
                video_path@,
                merge_spec(
                    if old(self)@.contains_key(video_path@) {
                        Some(old(self)@[video_path@])
                    } else {
                        None
                    },
                    identity->0,
                    recorded_languages(video_path@, texts(changed_paths@), texts(requested@)),
                    recorded_hearing_impaired(video_path@, texts(changed_paths@), texts(requested@)),
                ),
            ) && final(self).is_dirty_spec(),
            !(status is Success && changed_paths@.len() > 0 && identity is Some && recorded_languages(
                video_path@,
                texts(changed_paths@),
                texts(requested@),
            ).len() > 0) ==> final(self)@ == old(self)@ && final(self).is_dirty_spec() == old(
                self,
            ).is_dirty_spec(),
    {
        let succeeded = match status {
            JobStatus::Success => true,
            _ => false,
        };
        if !succeeded || changed_paths.len() == 0 || identity.is_none() {
            return;
        }
        let covered = Self::covered_langs(video_path, changed_paths, requested);
        let langs = if covered.len() == 0 {
            clone_strings_slice(requested)
        } else {
            covered
        };
        if langs.len() == 0 {
            return;
        }
        let hi = Self::hearing_impaired_langs(video_path, changed_paths, langs.as_slice());
        self.record_success(video_path, identity, langs.as_slice(), hi.as_slice());
    }

    /// Whether every selected language is among the recorded ones (and some language is
    /// selected).
    pub fn covers_languages(recorded: &[String], selected: &[String]) -> (r: bool)
        ensures
            r == covers_spec(texts(recorded@), texts(selected@)),
    {
        if selected.len() == 0 {
            return false;
        }
        let mut i: usize = 0;
        while i < selected.len()
            invariant
                0 <= i <= selected@.len(),
                forall|j: int| 0 <= j < i ==> texts(recorded@).contains(#[trigger] texts(selected@)[j]),
            decreases selected.len() - i,
        {
            if !slice_contains(recorded, &selected[i]) {
                assert(!texts(recorded@).contains(texts(selected@)[i as int]));
                return false;
            }
            i = i + 1;
        }
        true
    }

    /// The requested languages (in order) that some of the subtitles match.
    pub fn covered_langs(video_path: &str, subtitle_paths: &[String], requested: &[String]) -> (r: Vec<String>)
        ensures
            texts(r@) == texts(requested@).filter(|l: Seq<char>| has_language(video_path@, texts(subtitle_paths@), l)),
    {
        let ghost pred = |l: Seq<char>| has_language(video_path@, texts(subtitle_paths@), l);
        let v = chars_of(video_path);
        let mut r: Vec<String> = Vec::new();
        let mut k: usize = 0;
        proof {
            crate::text::lemma_filter_empty(pred);
            assert(texts(requested@).take(0) =~= Seq::<Seq<char>>::empty());
        }
        while k < requested.len()
            invariant
                0 <= k <= requested@.len(),
                v@ == video_path@,
                pred == (|l: Seq<char>| has_language(video_path@, texts(subtitle_paths@), l)),
                texts(r@) == texts(requested@).take(k as int).filter(pred),
            decreases requested.len() - k,
        {
            let item = &requested[k];
            let lc = chars_of(item.as_str());
            let mut found = false;
            let mut i: usize = 0;
            while i < subtitle_paths.len()
                invariant
                    0 <= i <= subtitle_paths@.len(),
                    v@ == video_path@,
                    found == exists|j: int|
                        0 <= j < i && matches_language_spec(video_path@, #[trigger] texts(subtitle_paths@)[j], lc@),
                decreases subtitle_paths.len() - i,
            {
                let pc = chars_of(subtitle_paths[i].as_str());
                assert(texts(subtitle_paths@)[i as int] == pc@);
                if matches_language_chars(&v, &pc, &lc) {
                    found = true;
                }
                i = i + 1;
            }
            assert(found == pred(item@));
            proof {
                assert(texts(requested@).take(k + 1) =~= texts(requested@).take(k as int).push(item@));
                lemma_filter_push(texts(requested@).take(k as int), pred, item@);
            }
            if found {
                let ghost old_r = r@;
                r.push(item.clone());
                assert(texts(r@) =~= texts(old_r).push(item@));
            }
            k = k + 1;
        }
        assert(texts(requested@).take(requested.len() as int) =~= texts(requested@));
        r
    }

    /// The requested languages (in order) for which only hearing-impaired subtitles are present.
    pub fn hearing_impaired_langs(video_path: &str, subtitle_paths: &[String], requested: &[String]) -> (r: Vec<String>)
        ensures
            texts(r@) == texts(requested@).filter(|l: Seq<char>| only_hearing_impaired(video_path@, texts(subtitle_paths@), l)),
    {
        let ghost subs = texts(subtitle_paths@);
        let ghost pred = |l: Seq<char>| only_hearing_impaired(video_path@, subs, l);
        let v = chars_of(video_path);
        let vstem = file_stem_chars(&v);
        let mut generic_hi = false;
        let mut i: usize = 0;
        while i < subtitle_paths.len()
            invariant
                0 <= i <= subtitle_paths@.len(),
                v@ == video_path@,
                subs == texts(subtitle_paths@),
                match vstem {
                    Some(s) => file_stem(v@) == Some(s@),
                    None => file_stem(v@) is None,
                },
                generic_hi == exists|j: int|
                    0 <= j < i && generic_subtitle(video_path@, #[trigger] subs[j]) && hearing_impaired_spec(video_path@, subs[j]),
            decreases subtitle_paths.len() - i,
        {
            let pc = chars_of(subtitle_paths[i].as_str());
            assert(subs[i as int] == pc@);
            let generic = match (file_stem_chars(&pc), &vstem) {
                (Some(s), Some(st)) => eq_ignore_case_chars(&s, st),
                _ => false,
            };
            if generic && hearing_impaired_chars(&v, &pc) {
                generic_hi = true;
            }
            i = i + 1;
        }
        let mut r: Vec<String> = Vec::new();
        let mut k: usize = 0;
        proof {
            crate::text::lemma_filter_empty(pred);
            assert(texts(requested@).take(0) =~= Seq::<Seq<char>>::empty());
        }
        while k < requested.len()
            invariant
                0 <= k <= requested@.len(),
                v@ == video_path@,
                subs == texts(subtitle_paths@),
                generic_hi == generic_is_hearing_impaired(video_path@, subs),
                pred == (|l: Seq<char>| only_hearing_impaired(video_path@, subs, l)),
                texts(r@) == texts(requested@).take(k as int).filter(pred),
            decreases requested.len() - k,
        {
            let item = &requested[k];
            let lc = chars_of(item.as_str());
            let mut has_regular = false;
            let mut has_hi = generic_hi;
            let mut any_hi = false;
            let mut i: usize = 0;
            while i < subtitle_paths.len()
                invariant
                    0 <= i <= subtitle_paths@.len(),
                    v@ == video_path@,
                    subs == texts(subtitle_paths@),
                    has_hi == (generic_hi || any_hi),
                    any_hi == exists|j: int|
                        0 <= j < i && matches_language_spec(video_path@, #[trigger] subs[j], lc@)
                            && hearing_impaired_spec(video_path@, subs[j]),
                    has_regular == exists|j: int|
                        0 <= j < i && matches_language_spec(video_path@, #[trigger] subs[j], lc@)
                            && !hearing_impaired_spec(video_path@, subs[j]),
                decreases subtitle_paths.len() - i,
            {
                let pc = chars_of(subtitle_paths[i].as_str());
                assert(subs[i as int] == pc@);
                if matches_language_chars(&v, &pc, &lc) {
                    if hearing_impaired_chars(&v, &pc) {
                        has_hi = true;
                        any_hi = true;
                    } else {
                        has_regular = true;
                    }
                }
                i = i + 1;
            }
            let keep = has_hi && !has_regular;
            assert(keep == pred(item@));
            proof {
                assert(texts(requested@).take(k + 1) =~= texts(requested@).take(k as int).push(item@));
                lemma_filter_push(texts(requested@).take(k as int), pred, item@);
            }
            if keep {
                let ghost old_r = r@;
                r.push(item.clone());
                assert(texts(r@) =~= texts(old_r).push(item@));
            }
            k = k + 1;
        }
        assert(texts(requested@).take(requested.len() as int) =~= texts(requested@));
        r
    }
}

impl Default for ScanHistory {
    fn default() -> (r: Self)
        ensures
            r@ == Map::<Seq<char>, ScanRecordModel>::empty(),
            !r.is_dirty_spec(),
    {
        ScanHistory::new()
    }
}

proof fn lemma_entries_map_len(v: Seq<(String, ScanRecord)>)
    requires
        unique_keys(v),
    ensures
        entries_map(v).len() == v.len(),
        entries_map(v).dom().finite(),
    decreases v.len(),
{
    if v.len() > 0 {
        let w = v.drop_last();
        assert(unique_keys(w)) by {
            assert forall|i: int, j: int| 0 <= i < j < w.len() implies (#[trigger] w[i]).0@ != (#[trigger] w[j]).0@ by {
                assert(w[i] == v[i] && w[j] == v[j]);
            }
        }
        lemma_entries_map_len(w);
        lemma_entries_map(w);
        assert(!entries_map(w).contains_key(v.last().0@)) by {
            if entries_map(w).contains_key(v.last().0@) {
                let i = choose|i: int| 0 <= i < w.len() && (#[trigger] w[i]).0@ == v.last().0@;
                assert(v[i] == w[i]);
            }
        }
    }
}

/// Adding languages to a record keeps every language it had and gains every added one, and
/// nothing else.
pub proof fn lemma_add_missing_contains(base: Seq<Seq<char>>, add: Seq<Seq<char>>, t: Seq<char>)
    ensures
        add_missing(base, add).contains(t) <==> (base.contains(t) || add.contains(t)),
    decreases add.len(),
{
    if add.len() > 0 {
        let w = add.drop_last();
        lemma_add_missing_contains(base, w, t);
        assert(add =~= w.push(add.last()));
        lemma_push_contains(w, add.last(), t);
        lemma_push_contains(add_missing(base, w), add.last(), t);
    }
}

/// After a download, a refreshed language is marked hearing-impaired exactly when it is among
/// the download's hearing-impaired languages; the other languages keep their mark.
pub proof fn lemma_update_hearing_impaired(base: Seq<Seq<char>>, langs: Seq<Seq<char>>, hi: Seq<Seq<char>>, t: Seq<char>)
    ensures
        langs.contains(t) ==> (update_hearing_impaired(base, langs, hi).contains(t) <==> hi.contains(t)),
        !langs.contains(t) ==> (update_hearing_impaired(base, langs, hi).contains(t) <==> base.contains(t)),
    decreases langs.len(),
{
    if langs.len() > 0 {
        let w = langs.drop_last();
        let l = langs.last();
        let b = update_hearing_impaired(base, w, hi);
        lemma_update_hearing_impaired(base, w, hi, t);
        assert(langs =~= w.push(l));
        lemma_push_contains(w, l, t);
        if hi.contains(l) {
            lemma_push_contains(b, l, t);
        } else {
            lemma_filter_contains_iff(b, |x: Seq<char>| x != l, t);
        }
    }
}

/// A successful download recorded for some languages lets a later scan of the same, unchanged
/// file skip it for any non-empty selection of those languages; when none of the selected
/// languages was found only as a hearing-impaired subtitle, this holds even when
/// hearing-impaired subtitles are excluded.
pub proof fn lemma_recorded_success_allows_skip(
    history: Map<Seq<char>, ScanRecordModel>,
    key: Seq<char>,
    id: FileIdentity,
    langs: Seq<Seq<char>>,
    hi: Seq<Seq<char>>,
    selected: Seq<Seq<char>>,
    exclude_hearing_impaired: bool,
)
    requires
        selected.len() > 0,
        forall|i: int| 0 <= i < selected.len() ==> langs.contains(#[trigger] selected[i]),
        exclude_hearing_impaired ==> forall|i: int| 0 <= i < selected.len() ==> !hi.contains(#[trigger] selected[i]),
    ensures
        skip_spec(
            history.insert(
                key,
                merge_spec(if history.contains_key(key) { Some(history[key]) } else { None }, id, langs, hi),
            ),
            key,
            Some(id),
            selected,
            exclude_hearing_impaired,
        ),
{
    let existing = if history.contains_key(key) { Some(history[key]) } else { None };
    let m = merge_spec(existing, id, langs, hi);
    let same = same_identity(existing, id);
    let base_langs = if same { existing->0.langs } else { Seq::empty() };
    let base_hi = if same {
        if existing->0.hearing_impaired_langs.len() == 0 && existing->0.contains_hearing_impaired {
            existing->0.langs
        } else {
            existing->0.hearing_impaired_langs
        }
    } else {
        Seq::empty()
    };
    assert forall|i: int| 0 <= i < selected.len() implies m.langs.contains(#[trigger] selected[i]) by {
        lemma_add_missing_contains(base_langs, langs, selected[i]);
    }
    if exclude_hearing_impaired {
        assert forall|i: int| 0 <= i < selected.len() implies !m.hearing_impaired_langs.contains(#[trigger] selected[i]) by {
            lemma_update_hearing_impaired(base_hi, langs, hi, selected[i]);
        }
    }
}

/// A download recorded for a file whose identity changed forgets the languages recorded before:
/// the record then lists exactly the downloaded languages, without repeats.
pub proof fn lemma_changed_identity_discards_languages(
    existing: ScanRecordModel,
    id: FileIdentity,
    langs: Seq<Seq<char>>,
    hi: Seq<Seq<char>>,
    t: Seq<char>,
)
    requires
        !same_identity(Some(existing), id),
    ensures
        merge_spec(Some(existing), id, langs, hi).langs.contains(t) <==> langs.contains(t),
        identity_matches(merge_spec(Some(existing), id, langs, hi), id),
{
    lemma_add_missing_contains(Seq::empty(), langs, t);
}

/// Some subtitle of `subs` is a `lang` sidecar of the video.
pub open spec fn some_subtitle_in(video: Seq<char>, subs: Seq<Seq<char>>, lang: Seq<char>) -> bool {
    exists|i: int| 0 <= i < subs.len() && matches_language_spec(video, #[trigger] subs[i], lang)
}

/// A successful download records requested languages only. When one of the changed subtitle
/// files is a sidecar in some requested language, it records exactly the requested languages
/// that one of the changed files is a sidecar in (so a language without a new subtitle is never
/// recorded, and a later scan for it does not skip the video); when none is, it records every
/// requested language.
pub proof fn lemma_recorded_languages_are_downloaded(
    video: Seq<char>,
    changed: Seq<Seq<char>>,
    requested: Seq<Seq<char>>,
    l: Seq<char>,
)
    ensures
        recorded_languages(video, changed, requested).contains(l) ==> requested.contains(l),
        (exists|j: int| 0 <= j < requested.len() && some_subtitle_in(video, changed, #[trigger] requested[j]))
            ==> (recorded_languages(video, changed, requested).contains(l) <==> (requested.contains(l)
            && some_subtitle_in(video, changed, l))),
        (forall|j: int| 0 <= j < requested.len() ==> !some_subtitle_in(video, changed, #[trigger] requested[j]))
            ==> recorded_languages(video, changed, requested) == requested,
{
    let pred = |x: Seq<char>| has_language(video, changed, x);
    let covered = requested.filter(pred);
    lemma_filter_contains_iff(requested, pred, l);
    if exists|j: int| 0 <= j < requested.len() && some_subtitle_in(video, changed, #[trigger] requested[j]) {
        let j = choose|j: int| 0 <= j < requested.len() && some_subtitle_in(video, changed, #[trigger] requested[j]);
        lemma_filter_contains_iff(requested, pred, requested[j]);
        assert(requested.contains(requested[j]));
        assert(covered.contains(requested[j]));
        assert(covered.len() > 0);
    }
    if forall|j: int| 0 <= j < requested.len() ==> !some_subtitle_in(video, changed, #[trigger] requested[j]) {
        if covered.len() > 0 {
            let x = covered[0];
            assert(covered.contains(x));
            lemma_filter_contains_iff(requested, pred, x);
            let j = choose|j: int| 0 <= j < requested.len() && requested[j] == x;
            assert(!some_subtitle_in(video, changed, requested[j]));
        }
    }
}

} // verus!
