//! Language codes: display names, normalization of ISO 639-2 codes, and the subtitle languages
//! that a video already carries in its streams.

use vstd::prelude::*;
use crate::subtitles::SubtitleUtils;
use crate::text::{
    chars_is, chars_of, lemma_filter_push, lines_chars, lines_seq, lower_chars, lower_seq,
    string_of, subvec, texts, trim, trim_chars, views,
};

verus! {

/// The display name of a language code (the code itself when unknown).
pub open spec fn language_name_spec(code: Seq<char>) -> Seq<char> {
    if code == "en"@ {
        "English"@
    } else if code == "en-us"@ {
        "English (US)"@
    } else if code == "en-gb"@ {
        "English (UK)"@
    } else if code == "fr"@ {
        "French"@
    } else if code == "fr-ca"@ {
        "French (Canada)"@
    } else if code == "es"@ {
        "Spanish"@
    } else if code == "es-mx"@ {
        "Spanish (Mexico)"@
    } else if code == "es-es"@ {
        "Spanish (Spain)"@
    } else if code == "de"@ {
        "German"@
    } else if code == "de-at"@ {
        "German (Austria)"@
    } else if code == "de-ch"@ {
        "German (Switzerland)"@
    } else if code == "it"@ {
        "Italian"@
    } else if code == "it-ch"@ {
        "Italian (Switzerland)"@
    } else if code == "pt"@ {
        "Portuguese"@
    } else if code == "pt-br"@ {
        "Portuguese (Brazil)"@
    } else if code == "pt-pt"@ {
        "Portuguese (Portugal)"@
    } else if code == "nl"@ {
        "Dutch"@
    } else if code == "nl-be"@ {
        "Dutch (Belgium)"@
    } else if code == "pl"@ {
        "Polish"@
    } else if code == "ru"@ {
        "Russian"@
    } else if code == "sr"@ {
        "Serbian"@
    } else if code == "sv"@ {
        "Swedish"@
    } else if code == "fi"@ {
        "Finnish"@
    } else if code == "da"@ {
        "Danish"@
    } else if code == "no"@ {
        "Norwegian"@
    } else if code == "cs"@ {
        "Czech"@
    } else if code == "hu"@ {
        "Hungarian"@
    } else if code == "ro"@ {
        "Romanian"@
    } else if code == "bg"@ {
        "Bulgarian"@
    } else if code == "hr"@ {
        "Croatian"@
    } else if code == "et"@ {
        "Estonian"@
    } else if code == "el"@ {
        "Greek"@
    } else if code == "is"@ {
        "Icelandic"@
    } else if code == "lv"@ {
        "Latvian"@
    } else if code == "lt"@ {
        "Lithuanian"@
    } else if code == "mt"@ {
        "Maltese"@
    } else if code == "sk"@ {
        "Slovak"@
    } else if code == "sl"@ {
        "Slovenian"@
    } else if code == "tr"@ {
        "Turkish"@
    } else if code == "uk"@ {
        "Ukrainian"@
    } else if code == "he"@ {
        "Hebrew"@
    } else if code == "ar"@ {
        "Arabic"@
    } else if code == "ja"@ {
        "Japanese"@
    } else if code == "ko"@ {
        "Korean"@
    } else if code == "zh"@ {
        "Chinese"@
    } else if code == "zh-cn"@ {
        "Chinese (Simplified)"@
    } else if code == "zh-tw"@ {
        "Chinese (Traditional)"@
    } else if code == "th"@ {
        "Thai"@
    } else if code == "vi"@ {
        "Vietnamese"@
    } else if code == "id"@ {
        "Indonesian"@
    } else if code == "ms"@ {
        "Malay"@
    } else if code == "fil"@ {
        "Filipino/Tagalog"@
    } else if code == "bn"@ {
        "Bengali"@
    } else if code == "hi"@ {
        "Hindi"@
    } else if code == "ur"@ {
        "Urdu"@
    } else if code == "fa"@ {
        "Persian/Farsi"@
    } else if code == "af"@ {
        "Afrikaans"@
    } else if code == "sw"@ {
        "Swahili"@
    } else if code == "zu"@ {
        "Zulu"@
    } else if code == "xh"@ {
        "Xhosa"@
    } else if code == "ku"@ {
        "Kurdish"@
    } else if code == "az"@ {
        "Azerbaijani"@
    } else if code == "ka"@ {
        "Georgian"@
    } else if code == "am"@ {
        "Amharic"@
    } else if code == "ta"@ {
        "Tamil"@
    } else if code == "te"@ {
        "Telugu"@
    } else if code == "kn"@ {
        "Kannada"@
    } else if code == "ml"@ {
        "Malayalam"@
    } else if code == "gu"@ {
        "Gujarati"@
    } else if code == "pa"@ {
        "Punjabi"@
    } else if code == "or"@ {
        "Odia"@
    } else if code == "mn"@ {
        "Mongolian"@
    } else if code == "my"@ {
        "Burmese"@
    } else if code == "lo"@ {
        "Lao"@
    } else if code == "km"@ {
        "Khmer"@
    } else {
        code
    }
}

/// The two-letter code for an ISO 639-2 code, in lower case; other codes are lower-cased.
pub open spec fn normalize_language_spec(code: Seq<char>) -> Seq<char> {
    let lower = lower_seq(code);
    if lower == "eng"@ {
        "en"@
    } else if lower == "fra"@ || lower == "fre"@ {
        "fr"@
    } else if lower == "spa"@ {
        "es"@
    } else if lower == "deu"@ || lower == "ger"@ {
        "de"@
    } else if lower == "ita"@ {
        "it"@
    } else if lower == "por"@ {
        "pt"@
    } else if lower == "nld"@ || lower == "dut"@ {
        "nl"@
    } else if lower == "pol"@ {
        "pl"@
    } else if lower == "rus"@ {
        "ru"@
    } else if lower == "srp"@ {
        "sr"@
    } else if lower == "swe"@ {
        "sv"@
    } else if lower == "fin"@ {
        "fi"@
    } else if lower == "dan"@ {
        "da"@
    } else if lower == "nor"@ {
        "no"@
    } else if lower == "ces"@ || lower == "cze"@ {
        "cs"@
    } else if lower == "hun"@ {
        "hu"@
    } else if lower == "ron"@ || lower == "rum"@ {
        "ro"@
    } else if lower == "bul"@ {
        "bg"@
    } else if lower == "hrv"@ {
        "hr"@
    } else if lower == "est"@ {
        "et"@
    } else if lower == "ell"@ || lower == "gre"@ {
        "el"@
    } else if lower == "isl"@ || lower == "ice"@ {
        "is"@
    } else if lower == "lav"@ {
        "lv"@
    } else if lower == "lit"@ {
        "lt"@
    } else if lower == "mlt"@ {
        "mt"@
    } else if lower == "slk"@ || lower == "slo"@ {
        "sk"@
    } else if lower == "slv"@ {
        "sl"@
    } else if lower == "tur"@ {
        "tr"@
    } else if lower == "ukr"@ {
        "uk"@
    } else if lower == "heb"@ {
        "he"@
    } else if lower == "ara"@ {
        "ar"@
    } else if lower == "jpn"@ {
        "ja"@
    } else if lower == "kor"@ {
        "ko"@
    } else if lower == "zho"@ || lower == "chi"@ {
        "zh"@
    } else if lower == "tha"@ {
        "th"@
    } else if lower == "vie"@ {
        "vi"@
    } else if lower == "ind"@ {
        "id"@
    } else if lower == "msa"@ || lower == "may"@ {
        "ms"@
    } else if lower == "ben"@ {
        "bn"@
    } else if lower == "hin"@ {
        "hi"@
    } else if lower == "urd"@ {
        "ur"@
    } else if lower == "fas"@ || lower == "per"@ {
        "fa"@
    } else if lower == "afr"@ {
        "af"@
    } else if lower == "swa"@ {
        "sw"@
    } else if lower == "zul"@ {
        "zu"@
    } else if lower == "xho"@ {
        "xh"@
    } else if lower == "kur"@ {
        "ku"@
    } else if lower == "aze"@ {
        "az"@
    } else if lower == "kat"@ || lower == "geo"@ {
        "ka"@
    } else if lower == "amh"@ {
        "am"@
    } else if lower == "tam"@ {
        "ta"@
    } else if lower == "tel"@ {
        "te"@
    } else if lower == "kan"@ {
        "kn"@
    } else if lower == "mal"@ {
        "ml"@
    } else if lower == "guj"@ {
        "gu"@
    } else if lower == "pan"@ {
        "pa"@
    } else if lower == "ori"@ {
        "or"@
    } else if lower == "mon"@ {
        "mn"@
    } else if lower == "mya"@ || lower == "bur"@ {
        "my"@
    } else if lower == "lao"@ {
        "lo"@
    } else if lower == "khm"@ {
        "km"@
    } else {
        lower
    }
}

/// The display name of a language code.
fn language_name_chars(c: &Vec<char>) -> (r: String)
    ensures
        r@ == language_name_spec(c@),
{
    if chars_is(c, "en") {
        return "English".to_owned();
    }
    if chars_is(c, "en-us") {
        return "English (US)".to_owned();
    }
    if chars_is(c, "en-gb") {
        return "English (UK)".to_owned();
    }
    if chars_is(c, "fr") {
        return "French".to_owned();
    }
    if chars_is(c, "fr-ca") {
        return "French (Canada)".to_owned();
    }
    if chars_is(c, "es") {
        return "Spanish".to_owned();
    }
    if chars_is(c, "es-mx") {
        return "Spanish (Mexico)".to_owned();
    }
    if chars_is(c, "es-es") {
        return "Spanish (Spain)".to_owned();
    }
    if chars_is(c, "de") {
        return "German".to_owned();
    }
    if chars_is(c, "de-at") {
        return "German (Austria)".to_owned();
    }
    if chars_is(c, "de-ch") {
        return "German (Switzerland)".to_owned();
    }
    if chars_is(c, "it") {
        return "Italian".to_owned();
    }
    if chars_is(c, "it-ch") {
        return "Italian (Switzerland)".to_owned();
    }
    if chars_is(c, "pt") {
        return "Portuguese".to_owned();
    }
    if chars_is(c, "pt-br") {
        return "Portuguese (Brazil)".to_owned();
    }
    if chars_is(c, "pt-pt") {
        return "Portuguese (Portugal)".to_owned();
    }
    if chars_is(c, "nl") {
        return "Dutch".to_owned();
    }
    if chars_is(c, "nl-be") {
        return "Dutch (Belgium)".to_owned();
    }
    if chars_is(c, "pl") {
        return "Polish".to_owned();
    }
    if chars_is(c, "ru") {
        return "Russian".to_owned();
    }
    if chars_is(c, "sr") {
        return "Serbian".to_owned();
    }
    if chars_is(c, "sv") {
        return "Swedish".to_owned();
    }
    if chars_is(c, "fi") {
        return "Finnish".to_owned();
    }
    if chars_is(c, "da") {
        return "Danish".to_owned();
    }
    if chars_is(c, "no") {
        return "Norwegian".to_owned();
    }
    if chars_is(c, "cs") {
        return "Czech".to_owned();
    }
    if chars_is(c, "hu") {
        return "Hungarian".to_owned();
    }
    if chars_is(c, "ro") {
        return "Romanian".to_owned();
    }
    if chars_is(c, "bg") {
        return "Bulgarian".to_owned();
    }
    if chars_is(c, "hr") {
        return "Croatian".to_owned();
    }
    if chars_is(c, "et") {
        return "Estonian".to_owned();
    }
    if chars_is(c, "el") {
        return "Greek".to_owned();
    }
    if chars_is(c, "is") {
        return "Icelandic".to_owned();
    }
    if chars_is(c, "lv") {
        return "Latvian".to_owned();
    }
    if chars_is(c, "lt") {
        return "Lithuanian".to_owned();
    }
    if chars_is(c, "mt") {
        return "Maltese".to_owned();
    }
    if chars_is(c, "sk") {
        return "Slovak".to_owned();
    }
    if chars_is(c, "sl") {
        return "Slovenian".to_owned();
    }
    if chars_is(c, "tr") {
        return "Turkish".to_owned();
    }
    if chars_is(c, "uk") {
        return "Ukrainian".to_owned();
    }
    if chars_is(c, "he") {
        return "Hebrew".to_owned();
    }
    if chars_is(c, "ar") {
        return "Arabic".to_owned();
    }
    if chars_is(c, "ja") {
        return "Japanese".to_owned();
    }
    if chars_is(c, "ko") {
        return "Korean".to_owned();
    }
    if chars_is(c, "zh") {
        return "Chinese".to_owned();
    }
    if chars_is(c, "zh-cn") {
        return "Chinese (Simplified)".to_owned();
    }
    if chars_is(c, "zh-tw") {
        return "Chinese (Traditional)".to_owned();
    }
    if chars_is(c, "th") {
        return "Thai".to_owned();
    }
    if chars_is(c, "vi") {
        return "Vietnamese".to_owned();
    }
    if chars_is(c, "id") {
        return "Indonesian".to_owned();
    }
    if chars_is(c, "ms") {
        return "Malay".to_owned();
    }
    if chars_is(c, "fil") {
        return "Filipino/Tagalog".to_owned();
    }
    if chars_is(c, "bn") {
        return "Bengali".to_owned();
    }
    if chars_is(c, "hi") {
        return "Hindi".to_owned();
    }
    if chars_is(c, "ur") {
        return "Urdu".to_owned();
    }
    if chars_is(c, "fa") {
        return "Persian/Farsi".to_owned();
    }
    if chars_is(c, "af") {
        return "Afrikaans".to_owned();
    }
    if chars_is(c, "sw") {
        return "Swahili".to_owned();
    }
    if chars_is(c, "zu") {
        return "Zulu".to_owned();
    }
    if chars_is(c, "xh") {
        return "Xhosa".to_owned();
    }
    if chars_is(c, "ku") {
        return "Kurdish".to_owned();
    }
    if chars_is(c, "az") {
        return "Azerbaijani".to_owned();
    }
    if chars_is(c, "ka") {
        return "Georgian".to_owned();
    }
    if chars_is(c, "am") {
        return "Amharic".to_owned();
    }
    if chars_is(c, "ta") {
        return "Tamil".to_owned();
    }
    if chars_is(c, "te") {
        return "Telugu".to_owned();
    }
    if chars_is(c, "kn") {
        return "Kannada".to_owned();
    }
    if chars_is(c, "ml") {
        return "Malayalam".to_owned();
    }
    if chars_is(c, "gu") {
        return "Gujarati".to_owned();
    }
    if chars_is(c, "pa") {
        return "Punjabi".to_owned();
    }
    if chars_is(c, "or") {
        return "Odia".to_owned();
    }
    if chars_is(c, "mn") {
        return "Mongolian".to_owned();
    }
    if chars_is(c, "my") {
        return "Burmese".to_owned();
    }
    if chars_is(c, "lo") {
        return "Lao".to_owned();
    }
    if chars_is(c, "km") {
        return "Khmer".to_owned();
    }
    string_of(c)
}

/// The normalized form of a language code, as characters.
pub fn normalize_language_chars(code: &Vec<char>) -> (r: Vec<char>)
    ensures
        r@ == normalize_language_spec(code@),
{
    let lower = lower_chars(code);
    if chars_is(&lower, "eng") {
        return chars_of("en");
    }
    if chars_is(&lower, "fra") || chars_is(&lower, "fre") {
        return chars_of("fr");
    }
    if chars_is(&lower, "spa") {
        return chars_of("es");
    }
    if chars_is(&lower, "deu") || chars_is(&lower, "ger") {
        return chars_of("de");
    }
    if chars_is(&lower, "ita") {
        return chars_of("it");
    }
    if chars_is(&lower, "por") {
        return chars_of("pt");
    }
    if chars_is(&lower, "nld") || chars_is(&lower, "dut") {
        return chars_of("nl");
    }
    if chars_is(&lower, "pol") {
        return chars_of("pl");
    }
    if chars_is(&lower, "rus") {
        return chars_of("ru");
    }
    if chars_is(&lower, "srp") {
        return chars_of("sr");
    }
    if chars_is(&lower, "swe") {
        return chars_of("sv");
    }
    if chars_is(&lower, "fin") {
        return chars_of("fi");
    }
    if chars_is(&lower, "dan") {
        return chars_of("da");
    }
    if chars_is(&lower, "nor") {
        return chars_of("no");
    }
    if chars_is(&lower, "ces") || chars_is(&lower, "cze") {
        return chars_of("cs");
    }
    if chars_is(&lower, "hun") {
        return chars_of("hu");
    }
    if chars_is(&lower, "ron") || chars_is(&lower, "rum") {
        return chars_of("ro");
    }
    if chars_is(&lower, "bul") {
        return chars_of("bg");
    }
    if chars_is(&lower, "hrv") {
        return chars_of("hr");
    }
    if chars_is(&lower, "est") {
        return chars_of("et");
    }
    if chars_is(&lower, "ell") || chars_is(&lower, "gre") {
        return chars_of("el");
    }
    if chars_is(&lower, "isl") || chars_is(&lower, "ice") {
        return chars_of("is");
    }
    if chars_is(&lower, "lav") {
        return chars_of("lv");
    }
    if chars_is(&lower, "lit") {
        return chars_of("lt");
    }
    if chars_is(&lower, "mlt") {
        return chars_of("mt");
    }
    if chars_is(&lower, "slk") || chars_is(&lower, "slo") {
        return chars_of("sk");
    }
    if chars_is(&lower, "slv") {
        return chars_of("sl");
    }
    if chars_is(&lower, "tur") {
        return chars_of("tr");
    }
    if chars_is(&lower, "ukr") {
        return chars_of("uk");
    }
    if chars_is(&lower, "heb") {
        return chars_of("he");
    }
    if chars_is(&lower, "ara") {
        return chars_of("ar");
    }
    if chars_is(&lower, "jpn") {
        return chars_of("ja");
    }
    if chars_is(&lower, "kor") {
        return chars_of("ko");
    }
    if chars_is(&lower, "zho") || chars_is(&lower, "chi") {
        return chars_of("zh");
    }
    if chars_is(&lower, "tha") {
        return chars_of("th");
    }
    if chars_is(&lower, "vie") {
        return chars_of("vi");
    }
    if chars_is(&lower, "ind") {
        return chars_of("id");
    }
    if chars_is(&lower, "msa") || chars_is(&lower, "may") {
        return chars_of("ms");
    }
    if chars_is(&lower, "ben") {
        return chars_of("bn");
    }
    if chars_is(&lower, "hin") {
        return chars_of("hi");
    }
    if chars_is(&lower, "urd") {
        return chars_of("ur");
    }
    if chars_is(&lower, "fas") || chars_is(&lower, "per") {
        return chars_of("fa");
    }
    if chars_is(&lower, "afr") {
        return chars_of("af");
    }
    if chars_is(&lower, "swa") {
        return chars_of("sw");
    }
    if chars_is(&lower, "zul") {
        return chars_of("zu");
    }
    if chars_is(&lower, "xho") {
        return chars_of("xh");
    }
    if chars_is(&lower, "kur") {
        return chars_of("ku");
    }
    if chars_is(&lower, "aze") {
        return chars_of("az");
    }
    if chars_is(&lower, "kat") || chars_is(&lower, "geo") {
        return chars_of("ka");
    }
    if chars_is(&lower, "amh") {
        return chars_of("am");
    }
    if chars_is(&lower, "tam") {
        return chars_of("ta");
    }
    if chars_is(&lower, "tel") {
        return chars_of("te");
    }
    if chars_is(&lower, "kan") {
        return chars_of("kn");
    }
    if chars_is(&lower, "mal") {
        return chars_of("ml");
    }
    if chars_is(&lower, "guj") {
        return chars_of("gu");
    }
    if chars_is(&lower, "pan") {
        return chars_of("pa");
    }
    if chars_is(&lower, "ori") {
        return chars_of("or");
    }
    if chars_is(&lower, "mon") {
        return chars_of("mn");
    }
    if chars_is(&lower, "mya") || chars_is(&lower, "bur") {
        return chars_of("my");
    }
    if chars_is(&lower, "lao") {
        return chars_of("lo");
    }
    if chars_is(&lower, "khm") {
        return chars_of("km");
    }
    lower
}

/// Position of the first `c` in `s`, or -1.
pub open spec fn first_index(s: Seq<char>, c: char) -> int
    decreases s.len(),
{
    if s.len() == 0 {
        -1
    } else {
        let r = first_index(s.drop_last(), c);
        if r >= 0 {
            r
        } else if s.last() == c {
            s.len() - 1
        } else {
            -1
        }
    }
}

pub proof fn lemma_first_index(s: Seq<char>, c: char)
    ensures
        -1 <= first_index(s, c) < s.len(),
        first_index(s, c) >= 0 ==> s[first_index(s, c)] == c,
        forall|j: int| 0 <= j < s.len() && (first_index(s, c) < 0 || j < first_index(s, c)) ==> s[j] != c,
    decreases s.len(),
{
    if s.len() > 0 {
        lemma_first_index(s.drop_last(), c);
        assert forall|j: int| 0 <= j < s.len() - 1 implies s.drop_last()[j] == s[j] by {}
    }
}

/// The normalized language of one `index,language` line of ffprobe's CSV output.
pub open spec fn stream_language(line: Seq<char>) -> Option<Seq<char>> {
    let p = first_index(line, ',');
    if p < 0 {
        None
    } else {
        Some(normalize_language_spec(trim(line.skip(p + 1))))
    }
}

/// Some line of the output names a stream in `code`.
pub open spec fn output_has_language(output: Seq<char>, code: Seq<char>) -> bool {
    exists|i: int|
        0 <= i < lines_seq(output).len() && stream_language(#[trigger] lines_seq(output)[i]) == Some(code)
}

/// The requested languages (in order) that the ffprobe output lists, comparing normalized codes.
pub open spec fn embedded_languages_spec(output: Seq<char>, langs: Seq<Seq<char>>) -> Seq<Seq<char>> {
    langs.filter(|l: Seq<char>| output_has_language(output, normalize_language_spec(l)))
}

/// The language named after the first comma of a line, if it has one.
fn stream_language_chars(line: &Vec<char>) -> (r: Option<Vec<char>>)
    ensures
        match r {
            Some(c) => stream_language(line@) == Some(c@),
            None => stream_language(line@) is None,
        },
{
    proof {
        lemma_first_index(line@, ',');
    }
    let mut p: usize = 0;
    while p < line.len() && line[p] != ','
        invariant
            0 <= p <= line.len(),
            forall|j: int| 0 <= j < p ==> line@[j] != ',',
        decreases line.len() - p,
    {
        p = p + 1;
    }
    if p == line.len() {
        assert(first_index(line@, ',') < 0);
        return None;
    }
    assert(first_index(line@, ',') == p);
    let rest = subvec(line, p + 1, line.len());
    assert(rest@ == line@.skip(p + 1));
    let t = trim_chars(&rest);
    Some(normalize_language_chars(&t))
}

impl SubtitleUtils {
    /// The display name of a language code, or the code itself when it is not known.
    pub fn language_code_to_name(code: &str) -> (r: String)
        ensures
            r@ == language_name_spec(code@),
    {
        let c = chars_of(code);
        language_name_chars(&c)
    }

    /// The two-letter form of a language code (ISO 639-2 codes map to ISO 639-1), lower-cased.
    pub fn normalize_language(code: &str) -> (r: String)
        ensures
            r@ == normalize_language_spec(code@),
    {
        let c = chars_of(code);
        let n = normalize_language_chars(&c);
        string_of(&n)
    }

    /// The requested languages that ffprobe's `index,language` output lists.
    pub fn parse_embedded_languages(output: &str, langs: &[String]) -> (r: Vec<String>)
        ensures
            texts(r@) == embedded_languages_spec(output@, texts(langs@)),
    {
        let out = chars_of(output);
        let lines = lines_chars(&out);
        let ghost ls = lines_seq(output@);
        let mut embedded: Vec<Vec<char>> = Vec::new();
        let mut i: usize = 0;
        while i < lines.len()
            invariant
                0 <= i <= lines.len(),
                views(lines@) == ls,
                forall|t: Seq<char>|
                    #[trigger] views(embedded@).contains(t) <==> exists|j: int|
                        0 <= j < i && stream_language(#[trigger] ls[j]) == Some(t),
            decreases lines.len() - i,
        {
            assert(views(lines@)[i as int] == lines@[i as int]@);
            let ghost before = views(embedded@);
            match stream_language_chars(&lines[i]) {
                Some(code) => {
                    let ghost cv = code@;
                    embedded.push(code);
                    assert(views(embedded@) =~= before.push(cv));
                    assert forall|t: Seq<char>|
                        #[trigger] views(embedded@).contains(t) <==> exists|j: int|
                            0 <= j < i + 1 && stream_language(#[trigger] ls[j]) == Some(t) by {
                        if views(embedded@).contains(t) {
                            let k = choose|k: int| 0 <= k < views(embedded@).len() && views(embedded@)[k] == t;
                            if k < before.len() {
                                assert(before.contains(t));
                            } else {
                                assert(stream_language(ls[i as int]) == Some(t));
                            }
                        }
                        if exists|j: int| 0 <= j < i + 1 && stream_language(#[trigger] ls[j]) == Some(t) {
                            let j = choose|j: int| 0 <= j < i + 1 && stream_language(#[trigger] ls[j]) == Some(t);
                            if j < i {
                                assert(before.contains(t));
                                let k = choose|k: int| 0 <= k < before.len() && before[k] == t;
                                assert(views(embedded@)[k] == t);
                            } else {
                                assert(views(embedded@)[before.len() as int] == t);
                            }
                        }
                    }
                },
                None => {
                    assert forall|t: Seq<char>|
                        #[trigger] views(embedded@).contains(t) <==> exists|j: int|
                            0 <= j < i + 1 && stream_language(#[trigger] ls[j]) == Some(t) by {
                        if exists|j: int| 0 <= j < i + 1 && stream_language(#[trigger] ls[j]) == Some(t) {
                            let j = choose|j: int| 0 <= j < i + 1 && stream_language(#[trigger] ls[j]) == Some(t);
                            assert(j < i);
                        }
                    }
                },
            }
            i = i + 1;
        }
        let ghost pred = |l: Seq<char>| output_has_language(output@, normalize_language_spec(l));
        let mut r: Vec<String> = Vec::new();
        let mut k: usize = 0;
        proof {
            crate::text::lemma_filter_empty(pred);
            assert(texts(langs@).take(0) =~= Seq::<Seq<char>>::empty());
        }
        while k < langs.len()
            invariant
                0 <= k <= langs@.len(),
                views(lines@) == ls,
                ls == lines_seq(output@),
                pred == (|l: Seq<char>| output_has_language(output@, normalize_language_spec(l))),
                forall|t: Seq<char>|
                    #[trigger] views(embedded@).contains(t) <==> exists|j: int|
                        0 <= j < lines@.len() && stream_language(#[trigger] ls[j]) == Some(t),
                texts(r@) == texts(langs@).take(k as int).filter(pred),
            decreases langs.len() - k,
        {
            let item = &langs[k];
            let lc = chars_of(item.as_str());
            let n = normalize_language_chars(&lc);
            let mut found = false;
            let mut j: usize = 0;
            while j < embedded.len()
                invariant
                    0 <= j <= embedded.len(),
                    found == exists|x: int| 0 <= x < j && embedded@[x]@ == n@,
                decreases embedded.len() - j,
            {
                if crate::text::chars_eq(&embedded[j], &n) {
                    found = true;
                }
                j = j + 1;
            }
            assert(found == views(embedded@).contains(n@)) by {
                if found {
                    let x = choose|x: int| 0 <= x < embedded.len() && embedded@[x]@ == n@;
                    assert(views(embedded@)[x] == n@);
                }
                if views(embedded@).contains(n@) {
                    let x = choose|x: int| 0 <= x < views(embedded@).len() && views(embedded@)[x] == n@;
                    assert(embedded@[x]@ == n@);
                }
            }
            assert(found == pred(item@));
            proof {
                assert(texts(langs@).take(k + 1) =~= texts(langs@).take(k as int).push(item@));
                lemma_filter_push(texts(langs@).take(k as int), pred, item@);
            }
            if found {
                let ghost old_r = r@;
                r.push(item.clone());
                assert(texts(r@) =~= texts(old_r).push(item@));
            }
            k = k + 1;
        }
        assert(texts(langs@).take(langs.len() as int) =~= texts(langs@));
        r
    }
}

/// Each ISO 639-2 code that ffprobe reports, in any ASCII case, becomes its two-letter code:
/// `eng` is `en`, `fra` and `fre` are `fr`, `deu` and `ger` are `de`, and so on for every
/// language of the table below.
pub proof fn lemma_iso639_2_codes(code: Seq<char>)
    ensures
        lower_seq(code) == "eng"@ ==> normalize_language_spec(code) == "en"@,
        lower_seq(code) == "fra"@ ==> normalize_language_spec(code) == "fr"@,
        lower_seq(code) == "fre"@ ==> normalize_language_spec(code) == "fr"@,
        lower_seq(code) == "spa"@ ==> normalize_language_spec(code) == "es"@,
        lower_seq(code) == "deu"@ ==> normalize_language_spec(code) == "de"@,
        lower_seq(code) == "ger"@ ==> normalize_language_spec(code) == "de"@,
        lower_seq(code) == "ita"@ ==> normalize_language_spec(code) == "it"@,
        lower_seq(code) == "por"@ ==> normalize_language_spec(code) == "pt"@,
        lower_seq(code) == "nld"@ ==> normalize_language_spec(code) == "nl"@,
        lower_seq(code) == "dut"@ ==> normalize_language_spec(code) == "nl"@,
        lower_seq(code) == "pol"@ ==> normalize_language_spec(code) == "pl"@,
        lower_seq(code) == "rus"@ ==> normalize_language_spec(code) == "ru"@,
        lower_seq(code) == "srp"@ ==> normalize_language_spec(code) == "sr"@,
        lower_seq(code) == "swe"@ ==> normalize_language_spec(code) == "sv"@,
        lower_seq(code) == "fin"@ ==> normalize_language_spec(code) == "fi"@,
        lower_seq(code) == "dan"@ ==> normalize_language_spec(code) == "da"@,
        lower_seq(code) == "nor"@ ==> normalize_language_spec(code) == "no"@,
        lower_seq(code) == "ces"@ ==> normalize_language_spec(code) == "cs"@,
        lower_seq(code) == "cze"@ ==> normalize_language_spec(code) == "cs"@,
        lower_seq(code) == "hun"@ ==> normalize_language_spec(code) == "hu"@,
        lower_seq(code) == "ron"@ ==> normalize_language_spec(code) == "ro"@,
        lower_seq(code) == "rum"@ ==> normalize_language_spec(code) == "ro"@,
        lower_seq(code) == "bul"@ ==> normalize_language_spec(code) == "bg"@,
        lower_seq(code) == "hrv"@ ==> normalize_language_spec(code) == "hr"@,
        lower_seq(code) == "est"@ ==> normalize_language_spec(code) == "et"@,
        lower_seq(code) == "ell"@ ==> normalize_language_spec(code) == "el"@,
        lower_seq(code) == "gre"@ ==> normalize_language_spec(code) == "el"@,
        lower_seq(code) == "isl"@ ==> normalize_language_spec(code) == "is"@,
        lower_seq(code) == "ice"@ ==> normalize_language_spec(code) == "is"@,
        lower_seq(code) == "lav"@ ==> normalize_language_spec(code) == "lv"@,
        lower_seq(code) == "lit"@ ==> normalize_language_spec(code) == "lt"@,
        lower_seq(code) == "mlt"@ ==> normalize_language_spec(code) == "mt"@,
        lower_seq(code) == "slk"@ ==> normalize_language_spec(code) == "sk"@,
        lower_seq(code) == "slo"@ ==> normalize_language_spec(code) == "sk"@,
        lower_seq(code) == "slv"@ ==> normalize_language_spec(code) == "sl"@,
        lower_seq(code) == "tur"@ ==> normalize_language_spec(code) == "tr"@,
        lower_seq(code) == "ukr"@ ==> normalize_language_spec(code) == "uk"@,
        lower_seq(code) == "heb"@ ==> normalize_language_spec(code) == "he"@,
        lower_seq(code) == "ara"@ ==> normalize_language_spec(code) == "ar"@,
        lower_seq(code) == "jpn"@ ==> normalize_language_spec(code) == "ja"@,
        lower_seq(code) == "kor"@ ==> normalize_language_spec(code) == "ko"@,
        lower_seq(code) == "zho"@ ==> normalize_language_spec(code) == "zh"@,
        lower_seq(code) == "chi"@ ==> normalize_language_spec(code) == "zh"@,
        lower_seq(code) == "tha"@ ==> normalize_language_spec(code) == "th"@,
        lower_seq(code) == "vie"@ ==> normalize_language_spec(code) == "vi"@,
        lower_seq(code) == "ind"@ ==> normalize_language_spec(code) == "id"@,
        lower_seq(code) == "msa"@ ==> normalize_language_spec(code) == "ms"@,
        lower_seq(code) == "may"@ ==> normalize_language_spec(code) == "ms"@,
        lower_seq(code) == "ben"@ ==> normalize_language_spec(code) == "bn"@,
        lower_seq(code) == "hin"@ ==> normalize_language_spec(code) == "hi"@,
        lower_seq(code) == "urd"@ ==> normalize_language_spec(code) == "ur"@,
        lower_seq(code) == "fas"@ ==> normalize_language_spec(code) == "fa"@,
        lower_seq(code) == "per"@ ==> normalize_language_spec(code) == "fa"@,
        lower_seq(code) == "afr"@ ==> normalize_language_spec(code) == "af"@,
        lower_seq(code) == "swa"@ ==> normalize_language_spec(code) == "sw"@,
        lower_seq(code) == "zul"@ ==> normalize_language_spec(code) == "zu"@,
        lower_seq(code) == "xho"@ ==> normalize_language_spec(code) == "xh"@,
        lower_seq(code) == "kur"@ ==> normalize_language_spec(code) == "ku"@,
        lower_seq(code) == "aze"@ ==> normalize_language_spec(code) == "az"@,
        lower_seq(code) == "kat"@ ==> normalize_language_spec(code) == "ka"@,
        lower_seq(code) == "geo"@ ==> normalize_language_spec(code) == "ka"@,
        lower_seq(code) == "amh"@ ==> normalize_language_spec(code) == "am"@,
        lower_seq(code) == "tam"@ ==> normalize_language_spec(code) == "ta"@,
        lower_seq(code) == "tel"@ ==> normalize_language_spec(code) == "te"@,
        lower_seq(code) == "kan"@ ==> normalize_language_spec(code) == "kn"@,
        lower_seq(code) == "mal"@ ==> normalize_language_spec(code) == "ml"@,
        lower_seq(code) == "guj"@ ==> normalize_language_spec(code) == "gu"@,
        lower_seq(code) == "pan"@ ==> normalize_language_spec(code) == "pa"@,
        lower_seq(code) == "ori"@ ==> normalize_language_spec(code) == "or"@,
        lower_seq(code) == "mon"@ ==> normalize_language_spec(code) == "mn"@,
        lower_seq(code) == "mya"@ ==> normalize_language_spec(code) == "my"@,
        lower_seq(code) == "bur"@ ==> normalize_language_spec(code) == "my"@,
        lower_seq(code) == "lao"@ ==> normalize_language_spec(code) == "lo"@,
        lower_seq(code) == "khm"@ ==> normalize_language_spec(code) == "km"@,
{
    reveal_strlit("af");
    reveal_strlit("afr");
    reveal_strlit("am");
    reveal_strlit("amh");
    reveal_strlit("ar");
    reveal_strlit("ara");
    reveal_strlit("az");
    reveal_strlit("aze");
    reveal_strlit("ben");
    reveal_strlit("bg");
    reveal_strlit("bn");
    reveal_strlit("bul");
    reveal_strlit("bur");
    reveal_strlit("ces");
    reveal_strlit("chi");
    reveal_strlit("cs");
    reveal_strlit("cze");
    reveal_strlit("da");
    reveal_strlit("dan");
    reveal_strlit("de");
    reveal_strlit("deu");
    reveal_strlit("dut");
    reveal_strlit("el");
    reveal_strlit("ell");
    reveal_strlit("en");
    reveal_strlit("eng");
    reveal_strlit("es");
    reveal_strlit("est");
    reveal_strlit("et");
    reveal_strlit("fa");
    reveal_strlit("fas");
    reveal_strlit("fi");
    reveal_strlit("fin");
    reveal_strlit("fr");
    reveal_strlit("fra");
    reveal_strlit("fre");
    reveal_strlit("geo");
    reveal_strlit("ger");
    reveal_strlit("gre");
    reveal_strlit("gu");
    reveal_strlit("guj");
    reveal_strlit("he");
    reveal_strlit("heb");
    reveal_strlit("hi");
    reveal_strlit("hin");
    reveal_strlit("hr");
    reveal_strlit("hrv");
    reveal_strlit("hu");
    reveal_strlit("hun");
    reveal_strlit("ice");
    reveal_strlit("id");
    reveal_strlit("ind");
    reveal_strlit("is");
    reveal_strlit("isl");
    reveal_strlit("it");
    reveal_strlit("ita");
    reveal_strlit("ja");
    reveal_strlit("jpn");
    reveal_strlit("ka");
    reveal_strlit("kan");
    reveal_strlit("kat");
    reveal_strlit("khm");
    reveal_strlit("km");
    reveal_strlit("kn");
    reveal_strlit("ko");
    reveal_strlit("kor");
    reveal_strlit("ku");
    reveal_strlit("kur");
    reveal_strlit("lao");
    reveal_strlit("lav");
    reveal_strlit("lit");
    reveal_strlit("lo");
    reveal_strlit("lt");
    reveal_strlit("lv");
    reveal_strlit("mal");
    reveal_strlit("may");
    reveal_strlit("ml");
    reveal_strlit("mlt");
    reveal_strlit("mn");
    reveal_strlit("mon");
    reveal_strlit("ms");
    reveal_strlit("msa");
    reveal_strlit("mt");
    reveal_strlit("my");
    reveal_strlit("mya");
    reveal_strlit("nl");
    reveal_strlit("nld");
    reveal_strlit("no");
    reveal_strlit("nor");
    reveal_strlit("or");
    reveal_strlit("ori");
    reveal_strlit("pa");
    reveal_strlit("pan");
    reveal_strlit("per");
    reveal_strlit("pl");
    reveal_strlit("pol");
    reveal_strlit("por");
    reveal_strlit("pt");
    reveal_strlit("ro");
    reveal_strlit("ron");
    reveal_strlit("ru");
    reveal_strlit("rum");
    reveal_strlit("rus");
    reveal_strlit("sk");
    reveal_strlit("sl");
    reveal_strlit("slk");
    reveal_strlit("slo");
    reveal_strlit("slv");
    reveal_strlit("spa");
    reveal_strlit("sr");
    reveal_strlit("srp");
    reveal_strlit("sv");
    reveal_strlit("sw");
    reveal_strlit("swa");
    reveal_strlit("swe");
    reveal_strlit("ta");
    reveal_strlit("tam");
    reveal_strlit("te");
    reveal_strlit("tel");
    reveal_strlit("th");
    reveal_strlit("tha");
    reveal_strlit("tr");
    reveal_strlit("tur");
    reveal_strlit("uk");
    reveal_strlit("ukr");
    reveal_strlit("ur");
    reveal_strlit("urd");
    reveal_strlit("vi");
    reveal_strlit("vie");
    reveal_strlit("xh");
    reveal_strlit("xho");
    reveal_strlit("zh");
    reveal_strlit("zho");
    reveal_strlit("zu");
    reveal_strlit("zul");
    assert("eng"@[0] == 'e' && "eng"@[1] == 'n' && "eng"@[2] == 'g');
    assert("fra"@[0] == 'f' && "fra"@[1] == 'r' && "fra"@[2] == 'a');
    assert("fre"@[0] == 'f' && "fre"@[1] == 'r' && "fre"@[2] == 'e');
    assert("spa"@[0] == 's' && "spa"@[1] == 'p' && "spa"@[2] == 'a');
    assert("deu"@[0] == 'd' && "deu"@[1] == 'e' && "deu"@[2] == 'u');
    assert("ger"@[0] == 'g' && "ger"@[1] == 'e' && "ger"@[2] == 'r');
    assert("ita"@[0] == 'i' && "ita"@[1] == 't' && "ita"@[2] == 'a');
    assert("por"@[0] == 'p' && "por"@[1] == 'o' && "por"@[2] == 'r');
    assert("nld"@[0] == 'n' && "nld"@[1] == 'l' && "nld"@[2] == 'd');
    assert("dut"@[0] == 'd' && "dut"@[1] == 'u' && "dut"@[2] == 't');
    assert("pol"@[0] == 'p' && "pol"@[1] == 'o' && "pol"@[2] == 'l');
    assert("rus"@[0] == 'r' && "rus"@[1] == 'u' && "rus"@[2] == 's');
    assert("srp"@[0] == 's' && "srp"@[1] == 'r' && "srp"@[2] == 'p');
    assert("swe"@[0] == 's' && "swe"@[1] == 'w' && "swe"@[2] == 'e');
    assert("fin"@[0] == 'f' && "fin"@[1] == 'i' && "fin"@[2] == 'n');
    assert("dan"@[0] == 'd' && "dan"@[1] == 'a' && "dan"@[2] == 'n');
    assert("nor"@[0] == 'n' && "nor"@[1] == 'o' && "nor"@[2] == 'r');
    assert("ces"@[0] == 'c' && "ces"@[1] == 'e' && "ces"@[2] == 's');
    assert("cze"@[0] == 'c' && "cze"@[1] == 'z' && "cze"@[2] == 'e');
    assert("hun"@[0] == 'h' && "hun"@[1] == 'u' && "hun"@[2] == 'n');
    assert("ron"@[0] == 'r' && "ron"@[1] == 'o' && "ron"@[2] == 'n');
    assert("rum"@[0] == 'r' && "rum"@[1] == 'u' && "rum"@[2] == 'm');
    assert("bul"@[0] == 'b' && "bul"@[1] == 'u' && "bul"@[2] == 'l');
    assert("hrv"@[0] == 'h' && "hrv"@[1] == 'r' && "hrv"@[2] == 'v');
    assert("est"@[0] == 'e' && "est"@[1] == 's' && "est"@[2] == 't');
    assert("ell"@[0] == 'e' && "ell"@[1] == 'l' && "ell"@[2] == 'l');
    assert("gre"@[0] == 'g' && "gre"@[1] == 'r' && "gre"@[2] == 'e');
    assert("isl"@[0] == 'i' && "isl"@[1] == 's' && "isl"@[2] == 'l');
    assert("ice"@[0] == 'i' && "ice"@[1] == 'c' && "ice"@[2] == 'e');
    assert("lav"@[0] == 'l' && "lav"@[1] == 'a' && "lav"@[2] == 'v');
    assert("lit"@[0] == 'l' && "lit"@[1] == 'i' && "lit"@[2] == 't');
    assert("mlt"@[0] == 'm' && "mlt"@[1] == 'l' && "mlt"@[2] == 't');
    assert("slk"@[0] == 's' && "slk"@[1] == 'l' && "slk"@[2] == 'k');
    assert("slo"@[0] == 's' && "slo"@[1] == 'l' && "slo"@[2] == 'o');
    assert("slv"@[0] == 's' && "slv"@[1] == 'l' && "slv"@[2] == 'v');
    assert("tur"@[0] == 't' && "tur"@[1] == 'u' && "tur"@[2] == 'r');
    assert("ukr"@[0] == 'u' && "ukr"@[1] == 'k' && "ukr"@[2] == 'r');
    assert("heb"@[0] == 'h' && "heb"@[1] == 'e' && "heb"@[2] == 'b');
    assert("ara"@[0] == 'a' && "ara"@[1] == 'r' && "ara"@[2] == 'a');
    assert("jpn"@[0] == 'j' && "jpn"@[1] == 'p' && "jpn"@[2] == 'n');
    assert("kor"@[0] == 'k' && "kor"@[1] == 'o' && "kor"@[2] == 'r');
    assert("zho"@[0] == 'z' && "zho"@[1] == 'h' && "zho"@[2] == 'o');
    assert("chi"@[0] == 'c' && "chi"@[1] == 'h' && "chi"@[2] == 'i');
    assert("tha"@[0] == 't' && "tha"@[1] == 'h' && "tha"@[2] == 'a');
    assert("vie"@[0] == 'v' && "vie"@[1] == 'i' && "vie"@[2] == 'e');
    assert("ind"@[0] == 'i' && "ind"@[1] == 'n' && "ind"@[2] == 'd');
    assert("msa"@[0] == 'm' && "msa"@[1] == 's' && "msa"@[2] == 'a');
    assert("may"@[0] == 'm' && "may"@[1] == 'a' && "may"@[2] == 'y');
    assert("ben"@[0] == 'b' && "ben"@[1] == 'e' && "ben"@[2] == 'n');
    assert("hin"@[0] == 'h' && "hin"@[1] == 'i' && "hin"@[2] == 'n');
    assert("urd"@[0] == 'u' && "urd"@[1] == 'r' && "urd"@[2] == 'd');
    assert("fas"@[0] == 'f' && "fas"@[1] == 'a' && "fas"@[2] == 's');
    assert("per"@[0] == 'p' && "per"@[1] == 'e' && "per"@[2] == 'r');
    assert("afr"@[0] == 'a' && "afr"@[1] == 'f' && "afr"@[2] == 'r');
    assert("swa"@[0] == 's' && "swa"@[1] == 'w' && "swa"@[2] == 'a');
    assert("zul"@[0] == 'z' && "zul"@[1] == 'u' && "zul"@[2] == 'l');
    assert("xho"@[0] == 'x' && "xho"@[1] == 'h' && "xho"@[2] == 'o');
    assert("kur"@[0] == 'k' && "kur"@[1] == 'u' && "kur"@[2] == 'r');
    assert("aze"@[0] == 'a' && "aze"@[1] == 'z' && "aze"@[2] == 'e');
    assert("kat"@[0] == 'k' && "kat"@[1] == 'a' && "kat"@[2] == 't');
    assert("geo"@[0] == 'g' && "geo"@[1] == 'e' && "geo"@[2] == 'o');
    assert("amh"@[0] == 'a' && "amh"@[1] == 'm' && "amh"@[2] == 'h');
    assert("tam"@[0] == 't' && "tam"@[1] == 'a' && "tam"@[2] == 'm');
    assert("tel"@[0] == 't' && "tel"@[1] == 'e' && "tel"@[2] == 'l');
    assert("kan"@[0] == 'k' && "kan"@[1] == 'a' && "kan"@[2] == 'n');
    assert("mal"@[0] == 'm' && "mal"@[1] == 'a' && "mal"@[2] == 'l');
    assert("guj"@[0] == 'g' && "guj"@[1] == 'u' && "guj"@[2] == 'j');
    assert("pan"@[0] == 'p' && "pan"@[1] == 'a' && "pan"@[2] == 'n');
    assert("ori"@[0] == 'o' && "ori"@[1] == 'r' && "ori"@[2] == 'i');
    assert("mon"@[0] == 'm' && "mon"@[1] == 'o' && "mon"@[2] == 'n');
    assert("mya"@[0] == 'm' && "mya"@[1] == 'y' && "mya"@[2] == 'a');
    assert("bur"@[0] == 'b' && "bur"@[1] == 'u' && "bur"@[2] == 'r');
    assert("lao"@[0] == 'l' && "lao"@[1] == 'a' && "lao"@[2] == 'o');
    assert("khm"@[0] == 'k' && "khm"@[1] == 'h' && "khm"@[2] == 'm');
}

} // verus!
