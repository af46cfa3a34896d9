//! Subtitle sidecar files: which subtitle belongs to which video, in which language, and
//! whether it is a hearing-impaired (SDH / caption) track.

use vstd::prelude::*;
use crate::paths::{file_name, file_name_chars, file_stem, file_stem_chars};
use crate::sorted::{insert_sorted, strictly_sorted};
use crate::text::{
    chars_is, chars_is_ignore_case, chars_of, eq_ignore_case, eq_ignore_case_chars, lemma_filter_push, lower_chars,
    lower_seq, push_str, split_chars, split_seq, string_of, strings_of, subvec, texts, trim_brackets,
    trim_brackets_chars, views,
};

verus! {

/// Subtitle file utilities.
pub struct SubtitleUtils;

/// The part of a subtitle's stem after the video's stem (and the dot that follows it); `None`
/// when the subtitle's stem does not start with the video's stem.
pub open spec fn sidecar_suffix_spec(video: Seq<char>, path: Seq<char>) -> Option<Seq<char>> {
    match (file_stem(video), file_stem(path)) {
        (Some(v), Some(s)) => {
            if s.len() >= v.len() && eq_ignore_case(s.take(v.len() as int), v) {
                let suffix = s.skip(v.len() as int);
                if suffix.len() == 0 {
                    Some(suffix)
                } else if suffix[0] == '.' {
                    Some(suffix.drop_first())
                } else {
                    None
                }
            } else {
                None
            }
        },
        _ => None,
    }
}

/// A dot-separated part that marks a hearing-impaired track: `hi`, `sdh`, `cc`, `caption` or
/// `captions`, in any ASCII case and possibly wrapped in brackets or parentheses.
pub open spec fn caption_marker_spec(part: Seq<char>) -> bool {
    let l = lower_seq(trim_brackets(part));
    l == "hi"@ || l == "sdh"@ || l == "cc"@ || l == "caption"@ || l == "captions"@
}

/// The subtitle is a sidecar of the video whose suffix parts are exactly one part equal to
/// `language` (ignoring ASCII case) and otherwise only caption markers.
pub open spec fn matches_language_spec(video: Seq<char>, path: Seq<char>, language: Seq<char>) -> bool {
    match sidecar_suffix_spec(video, path) {
        None => false,
        Some(suffix) => {
            let parts = split_seq(suffix, '.');
            exists|i: int|
                0 <= i < parts.len() && eq_ignore_case(#[trigger] parts[i], language) && (forall|j: int|
                    0 <= j < parts.len() && j != i ==> caption_marker_spec(parts[j]))
        },
    }
}

/// The subtitle is a sidecar of the video whose suffix has at least two parts, one of which is a
/// caption marker.
pub open spec fn hearing_impaired_spec(video: Seq<char>, path: Seq<char>) -> bool {
    match sidecar_suffix_spec(video, path) {
        None => false,
        Some(suffix) => {
            let parts = split_seq(suffix, '.');
            (exists|k: int| 0 <= k < suffix.len() && suffix[k] == '.') && (exists|j: int|
                0 <= j < parts.len() && caption_marker_spec(#[trigger] parts[j]))
        },
    }
}

/// The sidecar suffix of `path` relative to `video`.
pub fn sidecar_suffix_chars(video: &Vec<char>, path: &Vec<char>) -> (r: Option<Vec<char>>)
    ensures
        match r {
            Some(s) => sidecar_suffix_spec(video@, path@) == Some(s@),
            None => sidecar_suffix_spec(video@, path@) is None,
        },
{
    let v = match file_stem_chars(video) {
        Some(v) => v,
        None => return None,
    };
    let s = match file_stem_chars(path) {
        Some(s) => s,
        None => return None,
    };
    if s.len() < v.len() {
        return None;
    }
    let prefix = subvec(&s, 0, v.len());
    assert(prefix@ == s@.take(v.len() as int));
    if !eq_ignore_case_chars(&prefix, &v) {
        return None;
    }
    let suffix = subvec(&s, v.len(), s.len());
    assert(suffix@ == s@.skip(v.len() as int));
    if suffix.len() == 0 {
        Some(suffix)
    } else if suffix[0] == '.' {
        let rest = subvec(&suffix, 1, suffix.len());
        assert(rest@ == suffix@.drop_first());
        Some(rest)
    } else {
        None
    }
}

/// Whether a part of a suffix is a caption marker.
pub fn caption_marker_chars(part: &Vec<char>) -> (r: bool)
    ensures
        r == caption_marker_spec(part@),
{
    let t = trim_brackets_chars(part);
    let l = lower_chars(&t);
    chars_is(&l, "hi") || chars_is(&l, "sdh") || chars_is(&l, "cc") || chars_is(&l, "caption")
        || chars_is(&l, "captions")
}

/// Whether all parts except the one at `skip` are caption markers.
fn others_are_markers(parts: &Vec<Vec<char>>, skip: usize) -> (r: bool)
    ensures
        r == (forall|j: int|
            0 <= j < parts@.len() && j != skip ==> caption_marker_spec(#[trigger] views(parts@)[j])),
{
    let mut j: usize = 0;
    while j < parts.len()
        invariant
            0 <= j <= parts.len(),
            forall|k: int| 0 <= k < j && k != skip ==> caption_marker_spec(#[trigger] views(parts@)[k]),
        decreases parts.len() - j,
    {
        if j != skip && !caption_marker_chars(&parts[j]) {
            assert(views(parts@)[j as int] == parts@[j as int]@);
            return false;
        }
        j = j + 1;
    }
    true
}

/// Whether `path` is a subtitle of `video` for `language`.
pub fn matches_language_chars(video: &Vec<char>, path: &Vec<char>, language: &Vec<char>) -> (r: bool)
    ensures
        r == matches_language_spec(video@, path@, language@),
{
    let suffix = match sidecar_suffix_chars(video, path) {
        Some(s) => s,
        None => return false,
    };
    let parts = split_chars(&suffix, '.');
    let ghost ps = split_seq(suffix@, '.');
    let mut i: usize = 0;
    while i < parts.len()
        invariant
            0 <= i <= parts.len(),
            views(parts@) == ps,
            ps == split_seq(suffix@, '.'),
            sidecar_suffix_spec(video@, path@) == Some(suffix@),
            forall|k: int|
                0 <= k < i ==> !(eq_ignore_case(#[trigger] ps[k], language@) && (forall|j: int|
                    0 <= j < ps.len() && j != k ==> caption_marker_spec(ps[j]))),
        decreases parts.len() - i,
    {
        assert(views(parts@)[i as int] == parts@[i as int]@);
        if eq_ignore_case_chars(&parts[i], language) && others_are_markers(&parts, i) {
            assert(eq_ignore_case(ps[i as int], language@));
            assert(forall|j: int| 0 <= j < ps.len() && j != i ==> caption_marker_spec(ps[j]));
            let ghost sfx = sidecar_suffix_spec(video@, path@)->0;
            assert(sfx == suffix@);
            assert(split_seq(sfx, '.') == ps);
            assert(0 <= i < ps.len() && eq_ignore_case(ps[i as int], language@) && (forall|j: int| 0 <= j < ps.len() && j != i ==> caption_marker_spec(ps[j])));
            assert(matches_language_spec(video@, path@, language@));
            return true;
        }
        i = i + 1;
    }
    false
}

/// Whether `path` is a hearing-impaired subtitle of `video`.
pub fn hearing_impaired_chars(video: &Vec<char>, path: &Vec<char>) -> (r: bool)
    ensures
        r == hearing_impaired_spec(video@, path@),
{
    let suffix = match sidecar_suffix_chars(video, path) {
        Some(s) => s,
        None => return false,
    };
    let mut has_dot = false;
    let mut k: usize = 0;
    while k < suffix.len()
        invariant
            0 <= k <= suffix.len(),
            has_dot == (exists|m: int| 0 <= m < k && suffix@[m] == '.'),
        decreases suffix.len() - k,
    {
        if suffix[k] == '.' {
            has_dot = true;
        }
        k = k + 1;
    }
    if !has_dot {
        return false;
    }
    let parts = split_chars(&suffix, '.');
    let ghost ps = split_seq(suffix@, '.');
    let mut j: usize = 0;
    while j < parts.len()
        invariant
            0 <= j <= parts.len(),
            views(parts@) == ps,
            ps == split_seq(suffix@, '.'),
            sidecar_suffix_spec(video@, path@) == Some(suffix@),
            exists|m: int| 0 <= m < suffix@.len() && suffix@[m] == '.',
            forall|m: int| 0 <= m < j ==> !caption_marker_spec(#[trigger] ps[m]),
        decreases parts.len() - j,
    {
        assert(views(parts@)[j as int] == parts@[j as int]@);
        if caption_marker_chars(&parts[j]) {
            assert(caption_marker_spec(ps[j as int]));
            let ghost sfx = sidecar_suffix_spec(video@, path@)->0;
            assert(sfx == suffix@);
            assert(split_seq(sfx, '.') == ps);
            assert(hearing_impaired_spec(video@, path@));
            return true;
        }
        j = j + 1;
    }
    false
}

/// The listing with index `i`, or an empty one when there is none.
pub open spec fn listing_at(listings: Seq<Vec<String>>, i: int) -> Seq<Seq<char>> {
    if 0 <= i < listings.len() {
        texts(listings[i]@)
    } else {
        Seq::empty()
    }
}

/// The videos (in scan order) that lack a subtitle for a selected language, each judged by
/// the listing of its folder, `listings[folder]`.
pub open spec fn videos_needing_spec(
    videos: Seq<(String, usize)>,
    listings: Seq<Vec<String>>,
    langs: Seq<Seq<char>>,
    exclude_hearing_impaired: bool,
) -> Seq<Seq<char>>
    decreases videos.len(),
{
    if videos.len() == 0 {
        Seq::empty()
    } else {
        let v = videos.last();
        videos_needing_spec(videos.drop_last(), listings, langs, exclude_hearing_impaired) + if video_missing_spec(
            v.0@,
            langs,
            exclude_hearing_impaired,
            listing_at(listings, v.1 as int),
        ) {
            seq![v.0@]
        } else {
            Seq::empty()
        }
    }
}

/// The videos of a pair list, in order.
pub open spec fn first_texts(videos: Seq<(String, usize)>) -> Seq<Seq<char>> {
    videos.map_values(|v: (String, usize)| v.0@)
}

/// A subtitle format that a folder listing keeps, by file extension in any ASCII case.
pub open spec fn is_subtitle_extension(ext: Seq<char>) -> bool {
    eq_ignore_case(ext, "srt"@) || eq_ignore_case(ext, "sub"@) || eq_ignore_case(ext, "ssa"@)
        || eq_ignore_case(ext, "ass"@) || eq_ignore_case(ext, "vtt"@)
}

/// The name of the `index`-th backup of a file: the name with `.bak`, then `.index` after the
/// first.
pub open spec fn backup_name_spec(file_name: Seq<char>, index: nat) -> Seq<char> {
    if index == 0 {
        file_name + ".bak"@
    } else {
        file_name + ".bak."@ + crate::downloads::decimal_spec(index)
    }
}

impl SubtitleUtils {
    /// The part of the subtitle's stem after the video's stem, if the subtitle belongs to it.
    pub fn sidecar_suffix(video_path: &str, path: &str) -> (r: Option<String>)
        ensures
            match r {
                Some(s) => sidecar_suffix_spec(video_path@, path@) == Some(s@),
                None => sidecar_suffix_spec(video_path@, path@) is None,
            },
    {
        let v = chars_of(video_path);
        let p = chars_of(path);
        match sidecar_suffix_chars(&v, &p) {
            Some(s) => Some(string_of(&s)),
            None => None,
        }
    }

    /// Whether a suffix part marks a hearing-impaired track.
    pub fn is_caption_marker(part: &str) -> (r: bool)
        ensures
            r == caption_marker_spec(part@),
    {
        let p = chars_of(part);
        caption_marker_chars(&p)
    }

    /// Whether `path` is a subtitle of `video_path` in `language`.
    pub fn matches_language(video_path: &str, path: &str, language: &str) -> (r: bool)
        ensures
            r == matches_language_spec(video_path@, path@, language@),
    {
        let v = chars_of(video_path);
        let p = chars_of(path);
        let l = chars_of(language);
        matches_language_chars(&v, &p, &l)
    }

    /// Whether `path` is a hearing-impaired subtitle of `video_path`, judged by its sidecar
    /// suffix and not by words in the video title.
    pub fn is_hearing_impaired_path(video_path: &str, path: &str) -> (r: bool)
        ensures
            r == hearing_impaired_spec(video_path@, path@),
    {
        let v = chars_of(video_path);
        let p = chars_of(path);
        hearing_impaired_chars(&v, &p)
    }
}

/// A file name that is the stem itself, or the stem, a dot and at least one more character
/// (ASCII case ignored).
pub open spec fn name_matches_stem(name: Seq<char>, stem: Seq<char>) -> bool {
    eq_ignore_case(name, stem) || (name.len() > stem.len() + 1 && name[stem.len() as int] == '.'
        && eq_ignore_case(name.take(stem.len() as int), stem))
}

/// The file at `path` is named after the video's stem.
pub open spec fn belongs_to_video(video: Seq<char>, path: Seq<char>) -> bool {
    match (file_stem(video), file_name(path)) {
        (Some(stem), Some(name)) => name_matches_stem(name, stem),
        _ => false,
    }
}

/// Kept when looking for a video's subtitles in the selected languages: a subtitle with the
/// video's exact stem, or one that matches one of the languages.
pub open spec fn keep_for_languages(video: Seq<char>, langs: Seq<Seq<char>>, path: Seq<char>) -> bool {
    sidecar_suffix_spec(video, path) == Some(Seq::<char>::empty()) || exists|k: int|
        0 <= k < langs.len() && matches_language_spec(video, path, #[trigger] langs[k])
}

/// A subtitle that counts for the video: named after it, and not hearing-impaired when those are
/// excluded.
pub open spec fn usable_subtitle(video: Seq<char>, path: Seq<char>, exclude_hearing_impaired: bool) -> bool {
    belongs_to_video(video, path) && (!exclude_hearing_impaired || !hearing_impaired_spec(
        video,
        path,
    ))
}

/// A subtitle whose stem is the video's stem (ASCII case ignored).
pub open spec fn generic_subtitle(video: Seq<char>, path: Seq<char>) -> bool {
    match (file_stem(video), file_stem(path)) {
        (Some(v), Some(s)) => eq_ignore_case(s, v),
        _ => false,
    }
}

/// Some usable subtitle of the listing matches `lang`.
pub open spec fn language_covered(
    video: Seq<char>,
    lang: Seq<char>,
    exclude_hearing_impaired: bool,
    listing: Seq<Seq<char>>,
) -> bool {
    exists|i: int|
        0 <= i < listing.len() && usable_subtitle(video, #[trigger] listing[i], exclude_hearing_impaired)
            && matches_language_spec(video, listing[i], lang)
}

/// Whether the video lacks a usable subtitle for some selected language: it has a stem, no usable
/// generic subtitle, and some language that no usable subtitle matches.
pub open spec fn video_missing_spec(
    video: Seq<char>,
    langs: Seq<Seq<char>>,
    exclude_hearing_impaired: bool,
    listing: Seq<Seq<char>>,
) -> bool {
    file_stem(video) is Some && !(exists|i: int|
        0 <= i < listing.len() && usable_subtitle(video, #[trigger] listing[i], exclude_hearing_impaired)
            && generic_subtitle(video, listing[i])) && exists|k: int|
        0 <= k < langs.len() && !language_covered(video, #[trigger] langs[k], exclude_hearing_impaired, listing)
}

/// Whether the file `path` is named after a video with stem `stem`.
fn belongs_chars(video: &Vec<char>, stem: &Option<Vec<char>>, path: &Vec<char>) -> (r: bool)
    requires
        match stem {
            Some(s) => file_stem(video@) == Some(s@),
            None => file_stem(video@) is None,
        },
    ensures
        r == belongs_to_video(video@, path@),
{
    let st = match stem {
        Some(s) => s,
        None => return false,
    };
    let name = match file_name_chars(path) {
        Some(n) => n,
        None => return false,
    };
    if eq_ignore_case_chars(&name, st) {
        return true;
    }
    if name.len() > st.len() && name.len() - st.len() > 1 && name[st.len()] == '.' {
        let prefix = subvec(&name, 0, st.len());
        assert(prefix@ == name@.take(st@.len() as int));
        eq_ignore_case_chars(&prefix, st)
    } else {
        false
    }
}

/// Whether `path` is a subtitle of `video` in one of `langs`.
fn any_language_matches(video: &Vec<char>, path: &Vec<char>, langs: &[String]) -> (r: bool)
    ensures
        r == exists|k: int|
            0 <= k < langs@.len() && matches_language_spec(video@, path@, #[trigger] texts(langs@)[k]),
{
    let mut k: usize = 0;
    while k < langs.len()
        invariant
            0 <= k <= langs@.len(),
            forall|m: int|
                0 <= m < k ==> !matches_language_spec(video@, path@, #[trigger] texts(langs@)[m]),
        decreases langs.len() - k,
    {
        let l = chars_of(langs[k].as_str());
        assert(texts(langs@)[k as int] == langs@[k as int]@);
        if matches_language_chars(video, path, &l) {
            return true;
        }
        k = k + 1;
    }
    false
}

impl SubtitleUtils {
    /// The files of a folder listing that are named after the video (its stem, or its stem and a
    /// dot followed by more), in listing order.
    pub fn subtitle_files_for_video_in_listing(video_path: &str, folder_subtitles: &[String]) -> (r: Vec<String>)
        ensures
            texts(r@) == texts(folder_subtitles@).filter(|p: Seq<char>| belongs_to_video(video_path@, p)),
    {
        let ghost pred = |p: Seq<char>| belongs_to_video(video_path@, p);
        let v = chars_of(video_path);
        let stem = file_stem_chars(&v);
        let mut r: Vec<String> = Vec::new();
        let mut i: usize = 0;
        proof {
            crate::text::lemma_filter_empty(pred);
            assert(texts(folder_subtitles@).take(0) =~= Seq::<Seq<char>>::empty());
        }
        while i < folder_subtitles.len()
            invariant
                0 <= i <= folder_subtitles@.len(),
                v@ == video_path@,
                match stem {
                    Some(s) => file_stem(v@) == Some(s@),
                    None => file_stem(v@) is None,
                },
                pred == (|p: Seq<char>| belongs_to_video(video_path@, p)),
                texts(r@) == texts(folder_subtitles@).take(i as int).filter(pred),
            decreases folder_subtitles.len() - i,
        {
            let item = &folder_subtitles[i];
            let pc = chars_of(item.as_str());
            let keep = belongs_chars(&v, &stem, &pc);
            proof {
                assert(texts(folder_subtitles@).take(i + 1) =~= texts(folder_subtitles@).take(
                    i as int,
                ).push(item@));
                lemma_filter_push(texts(folder_subtitles@).take(i as int), pred, item@);
            }
            if keep {
                let ghost old_r = r@;
                r.push(item.clone());
                assert(texts(r@) =~= texts(old_r).push(item@));
            }
            i = i + 1;
        }
        assert(texts(folder_subtitles@).take(folder_subtitles.len() as int) =~= texts(
            folder_subtitles@,
        ));
        r
    }

    /// The subtitles of a folder listing to treat as the video's subtitles in the selected
    /// languages (its exact-stem subtitle and every language match), sorted and without
    /// repeats.
    pub fn find_all_subtitle_files_in_listing(video_path: &str, langs: &[String], folder_subtitles: &[String]) -> (r: Vec<String>)
        ensures
            strictly_sorted(texts(r@)),
            forall|t: Seq<char>|
                #[trigger] texts(r@).contains(t) <==> (texts(folder_subtitles@).contains(t)
                    && keep_for_languages(video_path@, texts(langs@), t)),
    {
        let v = chars_of(video_path);
        let mut out: Vec<Vec<char>> = Vec::new();
        let mut i: usize = 0;
        while i < folder_subtitles.len()
            invariant
                0 <= i <= folder_subtitles@.len(),
                v@ == video_path@,
                strictly_sorted(views(out@)),
                forall|t: Seq<char>|
                    #[trigger] views(out@).contains(t) <==> (exists|j: int|
                        0 <= j < i && texts(folder_subtitles@)[j] == t) && keep_for_languages(
                        video_path@,
                        texts(langs@),
                        t,
                    ),
            decreases folder_subtitles.len() - i,
        {
            let item = &folder_subtitles[i];
            let pc = chars_of(item.as_str());
            assert(texts(folder_subtitles@)[i as int] == pc@);
            let generic = match sidecar_suffix_chars(&v, &pc) {
                Some(s) => s.len() == 0,
                None => false,
            };
            let keep = generic || any_language_matches(&v, &pc, langs);
            assert(keep == keep_for_languages(video_path@, texts(langs@), pc@)) by {
                if generic {
                    assert(sidecar_suffix_spec(v@, pc@)->0 =~= Seq::<char>::empty());
                }
            }
            let ghost before = views(out@);
            if keep {
                insert_sorted(&mut out, pc);
            }
            assert forall|t: Seq<char>|
                #[trigger] views(out@).contains(t) <==> (exists|j: int|
                    0 <= j < i + 1 && texts(folder_subtitles@)[j] == t) && keep_for_languages(
                    video_path@,
                    texts(langs@),
                    t,
                ) by {
                if exists|j: int| 0 <= j < i + 1 && texts(folder_subtitles@)[j] == t {
                    let j = choose|j: int| 0 <= j < i + 1 && texts(folder_subtitles@)[j] == t;
                    if j < i {
                        assert(exists|j: int| 0 <= j < i && texts(folder_subtitles@)[j] == t);
                    }
                }
                if exists|j: int| 0 <= j < i && texts(folder_subtitles@)[j] == t {
                    assert(exists|j: int| 0 <= j < i + 1 && texts(folder_subtitles@)[j] == t);
                }
            }
            i = i + 1;
        }
        let r = strings_of(&out);
        assert forall|t: Seq<char>|
            #[trigger] texts(r@).contains(t) <==> (texts(folder_subtitles@).contains(t)
                && keep_for_languages(video_path@, texts(langs@), t)) by {
            if texts(folder_subtitles@).contains(t) {
                let j = choose|j: int| 0 <= j < texts(folder_subtitles@).len() && texts(folder_subtitles@)[j] == t;
                assert(0 <= j < folder_subtitles@.len() && texts(folder_subtitles@)[j] == t);
            }
        }
        r
    }

    /// Whether the video lacks a subtitle for a selected language, given the subtitle files of
    /// its folder.
    pub fn video_missing_subtitle_in_listing(
        video_path: &str,
        selected_languages: &[String],
        exclude_hearing_impaired: bool,
        folder_subtitles: &[String],
    ) -> (r: bool)
        ensures
            r == video_missing_spec(
                video_path@,
                texts(selected_languages@),
                exclude_hearing_impaired,
                texts(folder_subtitles@),
            ),
    {
        let v = chars_of(video_path);
        let stem = file_stem_chars(&v);
        if stem.is_none() {
            return false;
        }
        let ghost ls = texts(folder_subtitles@);
        let mut subs: Vec<Vec<char>> = Vec::new();
        let mut usable: Vec<bool> = Vec::new();
        let mut has_generic = false;
        let mut i: usize = 0;
        while i < folder_subtitles.len()
            invariant
                0 <= i <= folder_subtitles@.len(),
                v@ == video_path@,
                ls == texts(folder_subtitles@),
                match stem {
                    Some(s) => file_stem(v@) == Some(s@),
                    None => file_stem(v@) is None,
                },
                subs@.len() == i,
                usable@.len() == i,
                forall|j: int| 0 <= j < i ==> #[trigger] subs@[j]@ == ls[j],
                forall|j: int|
                    0 <= j < i ==> #[trigger] usable@[j] == usable_subtitle(
                        video_path@,
                        ls[j],
                        exclude_hearing_impaired,
                    ),
                has_generic == exists|j: int|
                    0 <= j < i && usable_subtitle(video_path@, #[trigger] ls[j], exclude_hearing_impaired)
                        && generic_subtitle(video_path@, ls[j]),
            decreases folder_subtitles.len() - i,
        {
            let pc = chars_of(folder_subtitles[i].as_str());
            assert(ls[i as int] == pc@);
            let ok = belongs_chars(&v, &stem, &pc) && (!exclude_hearing_impaired
                || !hearing_impaired_chars(&v, &pc));
            if ok {
                let generic = match (file_stem_chars(&pc), &stem) {
                    (Some(s), Some(st)) => eq_ignore_case_chars(&s, st),
                    _ => false,
                };
                if generic {
                    has_generic = true;
                }
            }
            subs.push(pc);
            usable.push(ok);
            i = i + 1;
        }
        if has_generic {
            return false;
        }
        let mut k: usize = 0;
        while k < selected_languages.len()
            invariant
                0 <= k <= selected_languages@.len(),
                v@ == video_path@,
                ls == texts(folder_subtitles@),
                subs@.len() == ls.len(),
                usable@.len() == ls.len(),
                forall|j: int| 0 <= j < ls.len() ==> #[trigger] subs@[j]@ == ls[j],
                forall|j: int|
                    0 <= j < ls.len() ==> #[trigger] usable@[j] == usable_subtitle(
                        video_path@,
                        ls[j],
                        exclude_hearing_impaired,
                    ),
                file_stem(video_path@) is Some,
                !(exists|j: int|
                    0 <= j < ls.len() && usable_subtitle(video_path@, #[trigger] ls[j], exclude_hearing_impaired)
                        && generic_subtitle(video_path@, ls[j])),
                forall|m: int|
                    0 <= m < k ==> language_covered(video_path@, #[trigger] texts(selected_languages@)[m], exclude_hearing_impaired, ls),
            decreases selected_languages.len() - k,
        {
            let l = chars_of(selected_languages[k].as_str());
            assert(texts(selected_languages@)[k as int] == l@);
            let mut found = false;
            let mut j: usize = 0;
            while j < subs.len()
                invariant
                    0 <= j <= subs@.len(),
                    subs@.len() == ls.len(),
                    usable@.len() == ls.len(),
                    v@ == video_path@,
                    forall|x: int| 0 <= x < ls.len() ==> #[trigger] subs@[x]@ == ls[x],
                    forall|x: int|
                        0 <= x < ls.len() ==> #[trigger] usable@[x] == usable_subtitle(
                            video_path@,
                            ls[x],
                            exclude_hearing_impaired,
                        ),
                    found == exists|x: int|
                        0 <= x < j && usable_subtitle(video_path@, #[trigger] ls[x], exclude_hearing_impaired)
                            && matches_language_spec(video_path@, ls[x], l@),
                decreases subs.len() - j,
            {
                if usable[j] && matches_language_chars(&v, &subs[j], &l) {
                    assert(usable_subtitle(video_path@, ls[j as int], exclude_hearing_impaired));
                    found = true;
                }
                j = j + 1;
            }
            if !found {
                assert(!language_covered(video_path@, texts(selected_languages@)[k as int], exclude_hearing_impaired, ls));
                return true;
            }
            k = k + 1;
        }
        false
    }

    /// The videos of a scan that need subtitles: all of them when existing subtitles are to be
    /// overwritten, otherwise (in scan order) those that lack a subtitle for a selected
    /// language. Each video comes with the index of its folder's subtitle listing.
    pub fn videos_needing_subtitles(
        videos: &Vec<(String, usize)>,
        listings: &Vec<Vec<String>>,
        selected_languages: &[String],
        exclude_hearing_impaired: bool,
        overwrite_existing: bool,
    ) -> (r: Vec<String>)
        ensures
            texts(r@) == if overwrite_existing {
                first_texts(videos@)
            } else {
                videos_needing_spec(videos@, listings@, texts(selected_languages@), exclude_hearing_impaired)
            },
    {
        let mut r: Vec<String> = Vec::new();
        let mut i: usize = 0;
        while i < videos.len()
            invariant
                0 <= i <= videos@.len(),
                texts(r@) == if overwrite_existing {
                    first_texts(videos@.take(i as int))
                } else {
                    videos_needing_spec(videos@.take(i as int), listings@, texts(selected_languages@), exclude_hearing_impaired)
                },
            decreases videos.len() - i,
        {
            let ghost pre = videos@.take(i + 1);
            assert(pre.drop_last() =~= videos@.take(i as int));
            assert(pre.last() == videos@[i as int]);
            assert(first_texts(pre) =~= first_texts(videos@.take(i as int)).push(videos@[i as int].0@));
            let ghost old_r = texts(r@);
            let folder = videos[i].1;
            let keep = if overwrite_existing {
                true
            } else if folder < listings.len() {
                Self::video_missing_subtitle_in_listing(
                    videos[i].0.as_str(),
                    selected_languages,
                    exclude_hearing_impaired,
                    listings[folder].as_slice(),
                )
            } else {
                let empty: Vec<String> = Vec::new();
                assert(texts(empty@) =~= Seq::<Seq<char>>::empty());
                Self::video_missing_subtitle_in_listing(
                    videos[i].0.as_str(),
                    selected_languages,
                    exclude_hearing_impaired,
                    empty.as_slice(),
                )
            };
            if keep {
                r.push(videos[i].0.clone());
                assert(texts(r@) =~= old_r + seq![videos@[i as int].0@]);
            } else {
                assert(old_r + Seq::<Seq<char>>::empty() =~= old_r);
            }
            i = i + 1;
        }
        assert(videos@.take(videos.len() as int) =~= videos@);
        r
    }


    /// Whether a path names a subtitle file: its extension is `srt`, `sub`, `ssa`, `ass` or
    /// `vtt`, in any ASCII case.
    pub fn is_subtitle_file(path: &str) -> (r: bool)
        ensures
            r == match crate::paths::extension(path@) {
                Some(e) => is_subtitle_extension(e),
                None => false,
            },
    {
        let p = chars_of(path);
        match crate::paths::extension_chars(&p) {
            None => false,
            Some(e) => chars_is_ignore_case(&e, "srt") || chars_is_ignore_case(&e, "sub")
                || chars_is_ignore_case(&e, "ssa") || chars_is_ignore_case(&e, "ass")
                || chars_is_ignore_case(&e, "vtt"),
        }
    }

    /// The file name of the `index`-th backup of a subtitle named `file_name` (see
    /// `backup_name_spec`).
    pub fn backup_file_name(file_name: &str, index: u64) -> (r: String)
        ensures
            r@ == backup_name_spec(file_name@, index as nat),
    {
        let mut r = file_name.to_owned();
        if index == 0 {
            push_str(&mut r, ".bak");
        } else {
            push_str(&mut r, ".bak.");
            let n = crate::downloads::decimal_string(index);
            push_str(&mut r, n.as_str());
        }
        r
    }

}

/// A video misses subtitles for a selection of languages exactly when it misses them for one of
/// the selected languages taken alone: one uncovered language is enough, so adding a language to
/// the selection never turns a missing video into a complete one, and an empty selection misses
/// nothing.
pub proof fn lemma_missing_for_some_language(
    video: Seq<char>,
    langs: Seq<Seq<char>>,
    exclude_hearing_impaired: bool,
    listing: Seq<Seq<char>>,
    extra: Seq<char>,
)
    ensures
        video_missing_spec(video, langs, exclude_hearing_impaired, listing) <==> exists|k: int|
            0 <= k < langs.len() && video_missing_spec(
                video,
                seq![#[trigger] langs[k]],
                exclude_hearing_impaired,
                listing,
            ),
        video_missing_spec(video, langs, exclude_hearing_impaired, listing) ==> video_missing_spec(
            video,
            langs.push(extra),
            exclude_hearing_impaired,
            listing,
        ),
        langs.len() == 0 ==> !video_missing_spec(video, langs, exclude_hearing_impaired, listing),
{
    if video_missing_spec(video, langs, exclude_hearing_impaired, listing) {
        let k = choose|k: int|
            0 <= k < langs.len() && !language_covered(video, #[trigger] langs[k], exclude_hearing_impaired, listing);
        let one = seq![langs[k]];
        assert(one[0] == langs[k]);
        assert(video_missing_spec(video, one, exclude_hearing_impaired, listing));
        let more = langs.push(extra);
        assert(more[k] == langs[k]);
    }
    if exists|k: int|
        0 <= k < langs.len() && video_missing_spec(video, seq![#[trigger] langs[k]], exclude_hearing_impaired, listing) {
        let k = choose|k: int|
            0 <= k < langs.len() && video_missing_spec(video, seq![#[trigger] langs[k]], exclude_hearing_impaired, listing);
        let one = seq![langs[k]];
        let m = choose|m: int| 0 <= m < one.len() && !language_covered(video, #[trigger] one[m], exclude_hearing_impaired, listing);
        assert(m == 0);
        assert(!language_covered(video, langs[k], exclude_hearing_impaired, listing));
    }
}

} // verus!
