//! Settings kept between sessions, and their normalization after loading.

use vstd::prelude::*;
use crate::commands::other_than;
use crate::helpers::{DEFAULT_CONCURRENT_DOWNLOADS, MAX_CONCURRENT_DOWNLOADS};
use crate::scan_history::clone_strings;
use crate::text::{chars_is, chars_of, lemma_filter_idempotent, lemma_filter_push, texts};

verus! {

/// Settings persisted between sessions.
pub struct Settings {
    pub selected_languages: Vec<String>,
    pub skip_scanned_media: bool,
    pub force_download: bool,
    pub overwrite_existing: bool,
    pub concurrent_downloads: usize,
    pub ignore_local_extras: bool,
    pub providers: Vec<String>,
    pub refiners: Vec<String>,
    pub minimum_score: u8,
    pub exclude_hearing_impaired: bool,
    pub matching_options_open: bool,
    pub opensubtitles_max_pages: Option<u8>,
    pub opensubtitlescom_username: String,
    pub opensubtitlescom_password: String,
    pub opensubtitlescom_apikey: String,
}

/// The content of [`Settings`].
pub struct SettingsModel {
    pub selected_languages: Seq<Seq<char>>,
    pub skip_scanned_media: bool,
    pub force_download: bool,
    pub overwrite_existing: bool,
    pub concurrent_downloads: usize,
    pub ignore_local_extras: bool,
    pub providers: Seq<Seq<char>>,
    pub refiners: Seq<Seq<char>>,
    pub minimum_score: u8,
    pub exclude_hearing_impaired: bool,
    pub matching_options_open: bool,
    pub opensubtitles_max_pages: Option<u8>,
    pub opensubtitlescom_username: Seq<char>,
    pub opensubtitlescom_password: Seq<char>,
    pub opensubtitlescom_apikey: Seq<char>,
}

impl View for Settings {
    type V = SettingsModel;

    open spec fn view(&self) -> SettingsModel {
        SettingsModel {
            selected_languages: texts(self.selected_languages@),
            skip_scanned_media: self.skip_scanned_media,
            force_download: self.force_download,
            overwrite_existing: self.overwrite_existing,
            concurrent_downloads: self.concurrent_downloads,
            ignore_local_extras: self.ignore_local_extras,
            providers: texts(self.providers@),
            refiners: texts(self.refiners@),
            minimum_score: self.minimum_score,
            exclude_hearing_impaired: self.exclude_hearing_impaired,
            matching_options_open: self.matching_options_open,
            opensubtitles_max_pages: self.opensubtitles_max_pages,
            opensubtitlescom_username: self.opensubtitlescom_username@,
            opensubtitlescom_password: self.opensubtitlescom_password@,
            opensubtitlescom_apikey: self.opensubtitlescom_apikey@,
        }
    }
}

/// A subtitle provider that Subliminal knows.
pub open spec fn is_known_provider(p: Seq<char>) -> bool {
    p == "addic7ed"@ || p == "gestdown"@ || p == "napiprojekt"@ || p == "opensubtitles"@ || p
        == "opensubtitlescom"@ || p == "podnapisi"@ || p == "tvsubtitles"@
}

/// A refiner that Subliminal knows.
pub open spec fn is_known_refiner(r: Seq<char>) -> bool {
    r == "hash"@ || r == "metadata"@ || r == "tmdb"@ || r == "tvdb"@
}

/// Settings with unknown providers and refiners dropped and out-of-range numbers reset to their
/// defaults.
pub open spec fn normalize_spec(s: SettingsModel) -> SettingsModel {
    SettingsModel {
        providers: s.providers.filter(|p: Seq<char>| is_known_provider(p)),
        refiners: s.refiners.filter(|r: Seq<char>| is_known_refiner(r)),
        concurrent_downloads: if 1 <= s.concurrent_downloads <= MAX_CONCURRENT_DOWNLOADS {
            s.concurrent_downloads
        } else {
            DEFAULT_CONCURRENT_DOWNLOADS
        },
        minimum_score: if s.minimum_score > 100 {
            0
        } else {
            s.minimum_score
        },
        opensubtitles_max_pages: match s.opensubtitles_max_pages {
            Some(p) => if 1 <= p <= 20 {
                Some(p)
            } else {
                Some(3)
            },
            None => None,
        },
        ..s
    }
}

/// The default providers, in order.
pub open spec fn default_providers_spec() -> Seq<Seq<char>> {
    seq![
        "addic7ed"@,
        "gestdown"@,
        "napiprojekt"@,
        "opensubtitles"@,
        "opensubtitlescom"@,
        "podnapisi"@,
        "tvsubtitles"@,
    ]
}

/// The default refiners, in order.
pub open spec fn default_refiners_spec() -> Seq<Seq<char>> {
    seq!["hash"@, "metadata"@, "tmdb"@, "tvdb"@]
}

/// A flag that defaults to on.
pub fn default_true() -> (r: bool)
    ensures
        r,
{
    true
}

/// English is selected by default.
pub fn default_selected_languages() -> (r: Vec<String>)
    ensures
        texts(r@) == seq!["en"@],
{
    let r = vec!["en".to_owned()];
    assert(texts(r@) =~= seq!["en"@]);
    r
}

/// The default number of concurrent downloads.
pub fn default_concurrent_downloads() -> (r: usize)
    ensures
        r == DEFAULT_CONCURRENT_DOWNLOADS,
{
    DEFAULT_CONCURRENT_DOWNLOADS
}

/// The default refiners.
pub fn default_refiners() -> (r: Vec<String>)
    ensures
        texts(r@) == default_refiners_spec(),
{
    let r = vec!["hash".to_owned(), "metadata".to_owned(), "tmdb".to_owned(), "tvdb".to_owned()];
    assert(texts(r@) =~= default_refiners_spec());
    r
}

/// OpenSubtitles.com searches three result pages by default.
pub fn default_max_pages() -> (r: Option<u8>)
    ensures
        r == Some(3u8),
{
    Some(3)
}

/// The default providers.
pub fn default_providers() -> (r: Vec<String>)
    ensures
        texts(r@) == default_providers_spec(),
{
    let r = vec![
        "addic7ed".to_owned(),
        "gestdown".to_owned(),
        "napiprojekt".to_owned(),
        "opensubtitles".to_owned(),
        "opensubtitlescom".to_owned(),
        "podnapisi".to_owned(),
        "tvsubtitles".to_owned(),
    ];
    assert(texts(r@) =~= default_providers_spec());
    r
}

fn known_provider(p: &String) -> (r: bool)
    ensures
        r == is_known_provider(p@),
{
    let c = chars_of(p.as_str());
    chars_is(&c, "addic7ed") || chars_is(&c, "gestdown") || chars_is(&c, "napiprojekt")
        || chars_is(&c, "opensubtitles") || chars_is(&c, "opensubtitlescom") || chars_is(
        &c,
        "podnapisi",
    ) || chars_is(&c, "tvsubtitles")
}

fn known_refiner(r: &String) -> (b: bool)
    ensures
        b == is_known_refiner(r@),
{
    let c = chars_of(r.as_str());
    chars_is(&c, "hash") || chars_is(&c, "metadata") || chars_is(&c, "tmdb") || chars_is(&c, "tvdb")
}

/// The known providers of a list, in order.
fn retain_providers(v: Vec<String>) -> (r: Vec<String>)
    ensures
        texts(r@) == texts(v@).filter(|p: Seq<char>| is_known_provider(p)),
{
    let ghost pred = |p: Seq<char>| is_known_provider(p);
    let mut r: Vec<String> = Vec::new();
    let mut i: usize = 0;
    proof {
        crate::text::lemma_filter_empty(pred);
        assert(texts(v@).take(0) =~= Seq::<Seq<char>>::empty());
    }
    while i < v.len()
        invariant
            0 <= i <= v.len(),
            pred == (|p: Seq<char>| is_known_provider(p)),
            texts(r@) == texts(v@).take(i as int).filter(pred),
        decreases v.len() - i,
    {
        let item = &v[i];
        proof {
            assert(texts(v@).take(i + 1) =~= texts(v@).take(i as int).push(item@));
            lemma_filter_push(texts(v@).take(i as int), pred, item@);
        }
        if known_provider(item) {
            let ghost old_r = r@;
            r.push(item.clone());
            assert(texts(r@) =~= texts(old_r).push(item@));
        }
        i = i + 1;
    }
    assert(texts(v@).take(v.len() as int) =~= texts(v@));
    r
}

/// The known refiners of a list, in order.
fn retain_refiners(v: Vec<String>) -> (r: Vec<String>)
    ensures
        texts(r@) == texts(v@).filter(|x: Seq<char>| is_known_refiner(x)),
{
    let ghost pred = |x: Seq<char>| is_known_refiner(x);
    let mut r: Vec<String> = Vec::new();
    let mut i: usize = 0;
    proof {
        crate::text::lemma_filter_empty(pred);
        assert(texts(v@).take(0) =~= Seq::<Seq<char>>::empty());
    }
    while i < v.len()
        invariant
            0 <= i <= v.len(),
            pred == (|x: Seq<char>| is_known_refiner(x)),
            texts(r@) == texts(v@).take(i as int).filter(pred),
        decreases v.len() - i,
    {
        let item = &v[i];
        proof {
            assert(texts(v@).take(i + 1) =~= texts(v@).take(i as int).push(item@));
            lemma_filter_push(texts(v@).take(i as int), pred, item@);
        }
        if known_refiner(item) {
            let ghost old_r = r@;
            r.push(item.clone());
            assert(texts(r@) =~= texts(old_r).push(item@));
        }
        i = i + 1;
    }
    assert(texts(v@).take(v.len() as int) =~= texts(v@));
    r
}

impl Settings {
    /// Drop unknown providers and refiners and reset out-of-range numbers: concurrent downloads
    /// outside 1..=100 become 25, a minimum score above 100 becomes 0, and a page limit outside
    /// 1..=20 becomes 3.
    pub fn normalize(self) -> (r: Self)
        ensures
            r@ == normalize_spec(self@),
    {
        let Settings {
            selected_languages,
            skip_scanned_media,
            force_download,
            overwrite_existing,
            concurrent_downloads,
            ignore_local_extras,
            providers,
            refiners,
            minimum_score,
            exclude_hearing_impaired,
            matching_options_open,
            opensubtitles_max_pages,
            opensubtitlescom_username,
            opensubtitlescom_password,
            opensubtitlescom_apikey,
        } = self;
        let providers = retain_providers(providers);
        let refiners = retain_refiners(refiners);
        let concurrent_downloads = if 1 <= concurrent_downloads && concurrent_downloads
            <= MAX_CONCURRENT_DOWNLOADS {
            concurrent_downloads
        } else {
            DEFAULT_CONCURRENT_DOWNLOADS
        };
        let minimum_score = if minimum_score > 100 {
            0
        } else {
            minimum_score
        };
        let opensubtitles_max_pages = match opensubtitles_max_pages {
            Some(p) => if 1 <= p && p <= 20 {
                Some(p)
            } else {
                Some(3)
            },
            None => None,
        };
        Settings {
            selected_languages,
            skip_scanned_media,
            force_download,
            overwrite_existing,
            concurrent_downloads,
            ignore_local_extras,
            providers,
            refiners,
            minimum_score,
            exclude_hearing_impaired,
            matching_options_open,
            opensubtitles_max_pages,
            opensubtitlescom_username,
            opensubtitlescom_password,
            opensubtitlescom_apikey,
        }
    }

    /// Where credentials are kept.
    pub fn credentials_storage_blurb() -> (r: &'static str)
        ensures
            r@ == "Stored locally in settings.json in your rustitles config folder (XDG on Linux/macOS) and synced to subliminal.toml for Subliminal. No key is baked into the app."@,
    {
        "Stored locally in settings.json in your rustitles config folder (XDG on Linux/macOS) and synced to subliminal.toml for Subliminal. No key is baked into the app."
    }

    /// A copy of the settings.
    pub fn clone_settings(&self) -> (r: Self)
        ensures
            r@ == self@,
    {
        Settings {
            selected_languages: clone_strings(&self.selected_languages),
            skip_scanned_media: self.skip_scanned_media,
            force_download: self.force_download,
            overwrite_existing: self.overwrite_existing,
            concurrent_downloads: self.concurrent_downloads,
            ignore_local_extras: self.ignore_local_extras,
            providers: clone_strings(&self.providers),
            refiners: clone_strings(&self.refiners),
            minimum_score: self.minimum_score,
            exclude_hearing_impaired: self.exclude_hearing_impaired,
            matching_options_open: self.matching_options_open,
            opensubtitles_max_pages: self.opensubtitles_max_pages,
            opensubtitlescom_username: self.opensubtitlescom_username.clone(),
            opensubtitlescom_password: self.opensubtitlescom_password.clone(),
            opensubtitlescom_apikey: self.opensubtitlescom_apikey.clone(),
        }
    }
}

impl Default for Settings {
    fn default() -> (r: Self)
        ensures
            texts(r.selected_languages@) == seq!["en"@],
            r.skip_scanned_media,
            r.force_download,
            r.overwrite_existing,
            r.concurrent_downloads == DEFAULT_CONCURRENT_DOWNLOADS,
            r.ignore_local_extras,
            texts(r.providers@) == default_providers_spec(),
            texts(r.refiners@) == default_refiners_spec(),
            r.minimum_score == 0,
            !r.exclude_hearing_impaired,
            r.matching_options_open,
            r.opensubtitles_max_pages == Some(3u8),
            r.opensubtitlescom_username@.len() == 0,
            r.opensubtitlescom_password@.len() == 0,
            r.opensubtitlescom_apikey@.len() == 0,
    {
        Settings {
            selected_languages: default_selected_languages(),
            skip_scanned_media: true,
            force_download: true,
            overwrite_existing: true,
            concurrent_downloads: DEFAULT_CONCURRENT_DOWNLOADS,
            ignore_local_extras: true,
            providers: default_providers(),
            refiners: default_refiners(),
            minimum_score: 0,
            exclude_hearing_impaired: false,
            matching_options_open: true,
            opensubtitles_max_pages: Some(3),
            opensubtitlescom_username: String::new(),
            opensubtitlescom_password: String::new(),
            opensubtitlescom_apikey: String::new(),
        }
    }
}

/// Normalizing twice is normalizing once, and normalized settings are in range: every provider
/// and refiner is known, 1 <= concurrent downloads <= 100, the minimum score is at most 100 and a
/// page limit lies in 1..=20.
pub proof fn lemma_normalize_idempotent(s: SettingsModel)
    ensures
        normalize_spec(normalize_spec(s)) == normalize_spec(s),
        forall|i: int|
            0 <= i < normalize_spec(s).providers.len() ==> is_known_provider(
                #[trigger] normalize_spec(s).providers[i],
            ),
        forall|i: int|
            0 <= i < normalize_spec(s).refiners.len() ==> is_known_refiner(
                #[trigger] normalize_spec(s).refiners[i],
            ),
        1 <= normalize_spec(s).concurrent_downloads <= MAX_CONCURRENT_DOWNLOADS,
        normalize_spec(s).minimum_score <= 100,
        match normalize_spec(s).opensubtitles_max_pages {
            Some(p) => 1 <= p <= 20,
            None => true,
        },
{
    let pp = |p: Seq<char>| is_known_provider(p);
    let pr = |r: Seq<char>| is_known_refiner(r);
    lemma_filter_idempotent(s.providers, pp);
    lemma_filter_idempotent(s.refiners, pr);
    assert forall|i: int| 0 <= i < normalize_spec(s).providers.len() implies is_known_provider(
        #[trigger] normalize_spec(s).providers[i],
    ) by {
        crate::text::lemma_filter_all(s.providers, pp, i);
    }
    assert forall|i: int| 0 <= i < normalize_spec(s).refiners.len() implies is_known_refiner(
        #[trigger] normalize_spec(s).refiners[i],
    ) by {
        crate::text::lemma_filter_all(s.refiners, pr, i);
    }
}

/// A list of choices after a checkbox for `code` was set or cleared: a newly chosen code goes
/// last, a cleared one is removed wherever it stands.
pub open spec fn toggled_spec(list: Seq<Seq<char>>, code: Seq<char>, selected: bool) -> Seq<Seq<char>> {
    if selected {
        if list.contains(code) {
            list
        } else {
            list.push(code)
        }
    } else {
        list.filter(other_than(code))
    }
}

/// Sets or clears the choice of `code` in a list of languages, providers or refiners.
pub fn toggle_choice(list: &mut Vec<String>, code: &str, selected: bool)
    ensures
        texts(final(list)@) == toggled_spec(texts(old(list)@), code@, selected),
{
    let c = code.to_owned();
    if selected {
        if !crate::scan_history::contains_string(list, &c) {
            let ghost before = texts(list@);
            list.push(c);
            assert(texts(list@) =~= before.push(code@));
        }
        return;
    }
    let ghost pred = other_than(code@);
    let ghost all = texts(list@);
    let mut kept: Vec<String> = Vec::new();
    let mut i: usize = 0;
    let cc = chars_of(code);
    proof {
        crate::text::lemma_filter_empty(pred);
        assert(all.take(0) =~= Seq::<Seq<char>>::empty());
    }
    while i < list.len()
        invariant
            0 <= i <= list@.len(),
            all == texts(list@),
            cc@ == code@,
            pred == other_than(code@),
            texts(kept@) == all.take(i as int).filter(pred),
        decreases list.len() - i,
    {
        proof {
            assert(all.take(i + 1) =~= all.take(i as int).push(list@[i as int]@));
            lemma_filter_push(all.take(i as int), pred, list@[i as int]@);
        }
        let ic = chars_of(list[i].as_str());
        if !crate::text::chars_eq(&ic, &cc) {
            let ghost old_kept = texts(kept@);
            kept.push(list[i].clone());
            assert(texts(kept@) =~= old_kept.push(list@[i as int]@));
        }
        i = i + 1;
    }
    assert(all.take(list.len() as int) =~= all);
    *list = kept;
}

/// A minimum score typed by the user: a number from 0 to 100, written as `u8::from_str`
/// accepts it.
pub open spec fn score_from_text_spec(text: Seq<char>) -> Option<u8> {
    match crate::text::parse_u32(text) {
        Some(v) => if v <= 100 {
            Some(v as u8)
        } else {
            None
        },
        None => None,
    }
}

/// The minimum score typed by the user, if it is one (see `score_from_text_spec`).
pub fn minimum_score_from_text(text: &str) -> (r: Option<u8>)
    ensures
        r == score_from_text_spec(text@),
{
    let t = chars_of(text);
    match crate::text::parse_u32_chars(&t) {
        Some(v) => if v <= 100 {
            Some(v as u8)
        } else {
            None
        },
        None => None,
    }
}

/// A page limit typed by the user: blank means no limit (`Some(None)`), a number from 1 to 20
/// sets it, anything else changes nothing (`None`).
pub open spec fn max_pages_from_text_spec(text: Seq<char>) -> Option<Option<u8>> {
    let t = crate::text::trim(text);
    if t.len() == 0 {
        Some(None)
    } else {
        match crate::text::parse_u32(t) {
            Some(v) => if 1 <= v <= 20 {
                Some(Some(v as u8))
            } else {
                None
            },
            None => None,
        }
    }
}

/// The page limit typed by the user (see `max_pages_from_text_spec`).
pub fn max_pages_from_text(text: &str) -> (r: Option<Option<u8>>)
    ensures
        r == max_pages_from_text_spec(text@),
{
    let c = chars_of(text);
    let t = crate::text::trim_chars(&c);
    if t.len() == 0 {
        return Some(None);
    }
    match crate::text::parse_u32_chars(&t) {
        Some(v) => if 1 <= v && v <= 20 {
            Some(Some(v as u8))
        } else {
            None
        },
        None => None,
    }
}

/// A number of concurrent downloads typed by the user: a number from 1 to
/// `MAX_CONCURRENT_DOWNLOADS`.
pub open spec fn concurrency_from_text_spec(text: Seq<char>) -> Option<usize> {
    match crate::text::parse_u32(text) {
        Some(v) => if 1 <= v <= MAX_CONCURRENT_DOWNLOADS {
            Some(v as usize)
        } else {
            None
        },
        None => None,
    }
}

/// The number of concurrent downloads typed by the user (see `concurrency_from_text_spec`).
pub fn concurrent_downloads_from_text(text: &str) -> (r: Option<usize>)
    ensures
        r == concurrency_from_text_spec(text@),
{
    let t = chars_of(text);
    match crate::text::parse_u32_chars(&t) {
        Some(v) => if 1 <= v && v <= 100 {
            Some(v as usize)
        } else {
            None
        },
        None => None,
    }
}

/// After a checkbox is set its code is chosen, after it is cleared it is not, and setting or
/// clearing it again changes nothing.
pub proof fn lemma_toggle_settles(list: Seq<Seq<char>>, code: Seq<char>, selected: bool)
    ensures
        toggled_spec(list, code, selected).contains(code) == selected,
        toggled_spec(toggled_spec(list, code, selected), code, selected) == toggled_spec(
            list,
            code,
            selected,
        ),
{
    let pred = other_than(code);
    if selected {
        if !list.contains(code) {
            assert(list.push(code)[list.len() as int] == code);
            assert(list.push(code).contains(code));
        }
    } else {
        crate::text::lemma_filter_contains_iff(list, pred, code);
        crate::text::lemma_filter_idempotent(list, pred);
    }
}

/// Normalizing keeps a provider exactly when it is one of the seven providers Subliminal offers
/// (addic7ed, gestdown, napiprojekt, opensubtitles, opensubtitlescom, podnapisi, tvsubtitles:
/// the default list), and a refiner exactly when it is one of the four default refiners (hash,
/// metadata, tmdb, tvdb); it adds none.
pub proof fn lemma_normalize_keeps_subliminal_choices(s: SettingsModel, p: Seq<char>, r: Seq<char>)
    ensures
        normalize_spec(s).providers.contains(p) <==> (s.providers.contains(p)
            && default_providers_spec().contains(p)),
        normalize_spec(s).refiners.contains(r) <==> (s.refiners.contains(r)
            && default_refiners_spec().contains(r)),
{
    crate::text::lemma_filter_contains_iff(s.providers, |p: Seq<char>| is_known_provider(p), p);
    crate::text::lemma_filter_contains_iff(s.refiners, |r: Seq<char>| is_known_refiner(r), r);
    let d = default_providers_spec();
    assert(is_known_provider(p) <==> d.contains(p)) by {
        if d.contains(p) {
            let i = choose|i: int| 0 <= i < d.len() && d[i] == p;
            assert(is_known_provider(d[i]));
        }
        if p == "addic7ed"@ { assert(d[0] == p); }
        if p == "gestdown"@ { assert(d[1] == p); }
        if p == "napiprojekt"@ { assert(d[2] == p); }
        if p == "opensubtitles"@ { assert(d[3] == p); }
        if p == "opensubtitlescom"@ { assert(d[4] == p); }
        if p == "podnapisi"@ { assert(d[5] == p); }
        if p == "tvsubtitles"@ { assert(d[6] == p); }
    }
    let e = default_refiners_spec();
    assert(is_known_refiner(r) <==> e.contains(r)) by {
        if e.contains(r) {
            let i = choose|i: int| 0 <= i < e.len() && e[i] == r;
            assert(is_known_refiner(e[i]));
        }
        if r == "hash"@ { assert(e[0] == r); }
        if r == "metadata"@ { assert(e[1] == r); }
        if r == "tmdb"@ { assert(e[2] == r); }
        if r == "tvdb"@ { assert(e[3] == r); }
    }
}

} // verus!
