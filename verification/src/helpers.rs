//! Small helpers: file names for display, text truncation, recognizing video files and Plex
//! local-extras folders, and validating user input.

use vstd::prelude::*;
use crate::paths::{extension, extension_chars, file_name, file_name_chars};
use crate::downloads::join_spec;
use crate::text::{
    chars_eq, chars_is, chars_is_ignore_case, chars_of, eq_ignore_case, push_char, push_str, string_from,
    string_of, texts,
};

verus! {

/// The current application version.
pub const APP_VERSION: &'static str = "2.4.0";

/// Default number of concurrent downloads.
pub const DEFAULT_CONCURRENT_DOWNLOADS: usize = 25;

/// Maximum number of concurrent downloads.
pub const MAX_CONCURRENT_DOWNLOADS: usize = 100;

/// An extension of a video file that scans look for (ASCII case ignored).
pub open spec fn is_video_extension(ext: Seq<char>) -> bool {
    eq_ignore_case("mp4"@, ext) ||
    eq_ignore_case("mkv"@, ext) ||
    eq_ignore_case("avi"@, ext) ||
    eq_ignore_case("mov"@, ext) ||
    eq_ignore_case("wmv"@, ext) ||
    eq_ignore_case("flv"@, ext) ||
    eq_ignore_case("mpeg"@, ext) ||
    eq_ignore_case("mpg"@, ext) ||
    eq_ignore_case("webm"@, ext) ||
    eq_ignore_case("m4v"@, ext) ||
    eq_ignore_case("3gp"@, ext) ||
    eq_ignore_case("3g2"@, ext) ||
    eq_ignore_case("asf"@, ext) ||
    eq_ignore_case("mts"@, ext) ||
    eq_ignore_case("m2ts"@, ext) ||
    eq_ignore_case("ts"@, ext) ||
    eq_ignore_case("vob"@, ext) ||
    eq_ignore_case("ogv"@, ext) ||
    eq_ignore_case("rm"@, ext) ||
    eq_ignore_case("rmvb"@, ext) ||
    eq_ignore_case("divx"@, ext) ||
    eq_ignore_case("f4v"@, ext) ||
    eq_ignore_case("mxf"@, ext) ||
    eq_ignore_case("mp2"@, ext) ||
    eq_ignore_case("mpv"@, ext) ||
    eq_ignore_case("dat"@, ext) ||
    eq_ignore_case("tod"@, ext) ||
    eq_ignore_case("vro"@, ext) ||
    eq_ignore_case("drc"@, ext) ||
    eq_ignore_case("mng"@, ext) ||
    eq_ignore_case("qt"@, ext) ||
    eq_ignore_case("yuv"@, ext) ||
    eq_ignore_case("viv"@, ext) ||
    eq_ignore_case("amv"@, ext) ||
    eq_ignore_case("nsv"@, ext) ||
    eq_ignore_case("svi"@, ext) ||
    eq_ignore_case("mpe"@, ext) ||
    eq_ignore_case("mpv2"@, ext) ||
    eq_ignore_case("m2v"@, ext) ||
    eq_ignore_case("m1v"@, ext) ||
    eq_ignore_case("m2p"@, ext) ||
    eq_ignore_case("trp"@, ext) ||
    eq_ignore_case("tp"@, ext) ||
    eq_ignore_case("ps"@, ext) ||
    eq_ignore_case("evo"@, ext) ||
    eq_ignore_case("ogm"@, ext) ||
    eq_ignore_case("ogx"@, ext) ||
    eq_ignore_case("mod"@, ext) ||
    eq_ignore_case("rec"@, ext) ||
    eq_ignore_case("dvr-ms"@, ext) ||
    eq_ignore_case("pva"@, ext) ||
    eq_ignore_case("wtv"@, ext) ||
    eq_ignore_case("m4p"@, ext) ||
    eq_ignore_case("3gpp"@, ext) ||
    eq_ignore_case("3gpp2"@, ext)
}

/// The name of a Plex local-extras folder (ASCII case ignored).
pub open spec fn is_extras_folder_name(name: Seq<char>) -> bool {
    eq_ignore_case("Behind The Scenes"@, name) ||
    eq_ignore_case("Deleted Scenes"@, name) ||
    eq_ignore_case("Featurettes"@, name) ||
    eq_ignore_case("Interviews"@, name) ||
    eq_ignore_case("Scenes"@, name) ||
    eq_ignore_case("Shorts"@, name) ||
    eq_ignore_case("Trailers"@, name) ||
    eq_ignore_case("Other"@, name)
}

/// The file name shown for a path: its file name, or `Unknown`.
pub open spec fn display_file_name(path: Seq<char>) -> Seq<char> {
    match file_name(path) {
        Some(n) => n,
        None => "Unknown"@,
    }
}

/// A text cut to at most `max_len` characters; when cut and there is room, the last three
/// characters kept are replaced by `...`.
pub open spec fn truncate_spec(s: Seq<char>, max_len: nat) -> Seq<char> {
    if s.len() <= max_len {
        s
    } else if max_len <= 3 {
        s.take(max_len as int)
    } else {
        s.take(max_len - 3) + "..."@
    }
}

/// Whether a path names an existing file system entry (`Path::exists`).
#[verifier::external_body]
fn path_exists(path: &str) -> bool {
    std::path::Path::new(path).exists()
}

/// Whether a path names an existing directory (`Path::is_dir`).
#[verifier::external_body]
fn path_is_dir(path: &str) -> bool {
    std::path::Path::new(path).is_dir()
}

/// Common utility functions.
pub struct Utils;

impl Utils {
    /// The file name of a path, or `Unknown` when it has none.
    pub fn get_file_name(path: &str) -> (r: String)
        ensures
            r@ == display_file_name(path@),
    {
        let p = chars_of(path);
        match file_name_chars(&p) {
            Some(n) => string_of(&n),
            None => "Unknown".to_owned(),
        }
    }

    /// Cut a text to at most `max_len` characters, ending with `...` when cut.
    pub fn truncate_string(s: &str, max_len: usize) -> (r: String)
        ensures
            r@ == truncate_spec(s@, max_len as nat),
    {
        let c = chars_of(s);
        if c.len() <= max_len {
            s.to_owned()
        } else if max_len <= 3 {
            let r = string_from(&c, 0, max_len);
            assert(c@.subrange(0, max_len as int) == c@.take(max_len as int));
            r
        } else {
            let mut r = string_from(&c, 0, max_len - 3);
            assert(c@.subrange(0, max_len - 3) == c@.take(max_len - 3));
            push_str(&mut r, "...");
            r
        }
    }

    /// Whether the path's extension is a known video extension.
    pub fn is_video_file(path: &str) -> (r: bool)
        ensures
            r == match extension(path@) {
                Some(e) => is_video_extension(e),
                None => false,
            },
    {
        let p = chars_of(path);
        match extension_chars(&p) {
            Some(e) => {
                chars_is_ignore_case(&e, "mp4") ||
                chars_is_ignore_case(&e, "mkv") ||
                chars_is_ignore_case(&e, "avi") ||
                chars_is_ignore_case(&e, "mov") ||
                chars_is_ignore_case(&e, "wmv") ||
                chars_is_ignore_case(&e, "flv") ||
                chars_is_ignore_case(&e, "mpeg") ||
                chars_is_ignore_case(&e, "mpg") ||
                chars_is_ignore_case(&e, "webm") ||
                chars_is_ignore_case(&e, "m4v") ||
                chars_is_ignore_case(&e, "3gp") ||
                chars_is_ignore_case(&e, "3g2") ||
                chars_is_ignore_case(&e, "asf") ||
                chars_is_ignore_case(&e, "mts") ||
                chars_is_ignore_case(&e, "m2ts") ||
                chars_is_ignore_case(&e, "ts") ||
                chars_is_ignore_case(&e, "vob") ||
                chars_is_ignore_case(&e, "ogv") ||
                chars_is_ignore_case(&e, "rm") ||
                chars_is_ignore_case(&e, "rmvb") ||
                chars_is_ignore_case(&e, "divx") ||
                chars_is_ignore_case(&e, "f4v") ||
                chars_is_ignore_case(&e, "mxf") ||
                chars_is_ignore_case(&e, "mp2") ||
                chars_is_ignore_case(&e, "mpv") ||
                chars_is_ignore_case(&e, "dat") ||
                chars_is_ignore_case(&e, "tod") ||
                chars_is_ignore_case(&e, "vro") ||
                chars_is_ignore_case(&e, "drc") ||
                chars_is_ignore_case(&e, "mng") ||
                chars_is_ignore_case(&e, "qt") ||
                chars_is_ignore_case(&e, "yuv") ||
                chars_is_ignore_case(&e, "viv") ||
                chars_is_ignore_case(&e, "amv") ||
                chars_is_ignore_case(&e, "nsv") ||
                chars_is_ignore_case(&e, "svi") ||
                chars_is_ignore_case(&e, "mpe") ||
                chars_is_ignore_case(&e, "mpv2") ||
                chars_is_ignore_case(&e, "m2v") ||
                chars_is_ignore_case(&e, "m1v") ||
                chars_is_ignore_case(&e, "m2p") ||
                chars_is_ignore_case(&e, "trp") ||
                chars_is_ignore_case(&e, "tp") ||
                chars_is_ignore_case(&e, "ps") ||
                chars_is_ignore_case(&e, "evo") ||
                chars_is_ignore_case(&e, "ogm") ||
                chars_is_ignore_case(&e, "ogx") ||
                chars_is_ignore_case(&e, "mod") ||
                chars_is_ignore_case(&e, "rec") ||
                chars_is_ignore_case(&e, "dvr-ms") ||
                chars_is_ignore_case(&e, "pva") ||
                chars_is_ignore_case(&e, "wtv") ||
                chars_is_ignore_case(&e, "m4p") ||
                chars_is_ignore_case(&e, "3gpp") ||
                chars_is_ignore_case(&e, "3gpp2")
            },
            None => false,
        }
    }

    /// Whether a directory name is a Plex local-extras folder (ASCII case ignored).
    pub fn is_plex_extras_folder(name: &str) -> (r: bool)
        ensures
            r == is_extras_folder_name(name@),
    {
        let n = chars_of(name);
        chars_is_ignore_case(&n, "Behind The Scenes") ||
        chars_is_ignore_case(&n, "Deleted Scenes") ||
        chars_is_ignore_case(&n, "Featurettes") ||
        chars_is_ignore_case(&n, "Interviews") ||
        chars_is_ignore_case(&n, "Scenes") ||
        chars_is_ignore_case(&n, "Shorts") ||
        chars_is_ignore_case(&n, "Trailers") ||
        chars_is_ignore_case(&n, "Other")
    }
}

/// A path component that names something (not the root, `.` or `..`).
pub open spec fn is_named_component(c: Seq<char>) -> bool {
    c.len() > 0 && c != "/"@ && c != "."@ && c != ".."@
}

/// The parts of a video's path shown in the job list, given the components of the scanned
/// folder and of the video: the show folder (the grandparent) unless it is the scanned folder,
/// and the season folder (the parent), both only when the parent is not the scanned folder;
/// then the file name, or `Unknown` when the path has none.
pub open spec fn job_display_parts(root: Seq<Seq<char>>, video: Seq<Seq<char>>) -> Seq<Seq<char>> {
    let n = video.len() as int;
    let folders = if n >= 2 && video.take(n - 1) != root {
        let show = if n >= 3 && video.take(n - 2) != root && is_named_component(video[n - 3]) {
            seq![video[n - 3]]
        } else {
            Seq::empty()
        };
        let season = if is_named_component(video[n - 2]) {
            seq![video[n - 2]]
        } else {
            Seq::empty()
        };
        show + season
    } else {
        Seq::empty()
    };
    let name = if n >= 1 && is_named_component(video[n - 1]) {
        video[n - 1]
    } else {
        "Unknown"@
    };
    folders.push(name)
}

/// Whether the first `k` components of `video` are exactly `root`.
fn components_prefix_is(video: &Vec<String>, k: usize, root: &Vec<String>) -> (r: bool)
    requires
        k <= video@.len(),
    ensures
        r == (texts(video@).take(k as int) == texts(root@)),
{
    if k != root.len() {
        assert(texts(video@).take(k as int).len() != texts(root@).len());
        return false;
    }
    let mut i: usize = 0;
    while i < k
        invariant
            0 <= i <= k,
            k == root@.len(),
            k <= video@.len(),
            forall|j: int| 0 <= j < i ==> texts(video@)[j] == texts(root@)[j],
        decreases k - i,
    {
        let a = chars_of(video[i].as_str());
        let b = chars_of(root[i].as_str());
        if !chars_eq(&a, &b) {
            assert(texts(video@).take(k as int)[i as int] != texts(root@)[i as int]);
            return false;
        }
        i = i + 1;
    }
    assert(texts(video@).take(k as int) =~= texts(root@));
    true
}

/// Whether a component names something (see `is_named_component`).
fn named_component(c: &String) -> (r: bool)
    ensures
        r == is_named_component(c@),
{
    let v = chars_of(c.as_str());
    v.len() > 0 && !chars_is(&v, "/") && !chars_is(&v, ".") && !chars_is(&v, "..")
}

/// The texts joined by `sep`.
fn join_texts(items: &Vec<String>, sep: char) -> (r: String)
    ensures
        r@ == join_spec(texts(items@), seq![sep]),
{
    let mut r = String::new();
    let mut i: usize = 0;
    assert(texts(items@).take(0) =~= Seq::<Seq<char>>::empty());
    while i < items.len()
        invariant
            0 <= i <= items@.len(),
            r@ == join_spec(texts(items@).take(i as int), seq![sep]),
        decreases items.len() - i,
    {
        let ghost t = texts(items@).take(i + 1);
        assert(t.drop_last() =~= texts(items@).take(i as int));
        assert(t.last() == items@[i as int]@);
        if i > 0 {
            push_char(&mut r, sep);
        } else {
            assert(t =~= seq![items@[0]@]);
        }
        push_str(&mut r, items[i].as_str());
        i = i + 1;
    }
    assert(texts(items@).take(items@.len() as int) =~= texts(items@));
    r
}

/// The name a video is shown under in the job list: the parts of `job_display_parts`, given
/// the path components of the scanned folder and of the video, joined by `separator`.
pub fn job_display_name(root: &Vec<String>, video: &Vec<String>, separator: char) -> (r: String)
    ensures
        r@ == join_spec(job_display_parts(texts(root@), texts(video@)), seq![separator]),
{
    let n = video.len();
    let mut parts: Vec<String> = Vec::new();
    if n >= 2 && !components_prefix_is(video, n - 1, root) {
        if n >= 3 && !components_prefix_is(video, n - 2, root) && named_component(&video[n - 3]) {
            parts.push(video[n - 3].clone());
        }
        if named_component(&video[n - 2]) {
            parts.push(video[n - 2].clone());
        }
    }
    if n >= 1 && named_component(&video[n - 1]) {
        parts.push(video[n - 1].clone());
    } else {
        parts.push("Unknown".to_owned());
    }
    assert(texts(parts@) =~= job_display_parts(texts(root@), texts(video@)));
    join_texts(&parts, separator)
}

/// Input validation.
pub struct Validation;

impl Validation {
    /// Whether a path is non-empty and names an existing directory: the path is probed with
    /// `Path::exists` and `Path::is_dir`, whose answers come from the file system, and the
    /// answers are combined by `folder_check`.
    pub fn is_valid_folder(path: &str) -> (r: bool)
        ensures
            path@.len() == 0 ==> !r,
            r ==> path@.len() > 0,
    {
        if path.is_empty() {
            return false;
        }
        let exists = path_exists(path);
        let is_dir = exists && path_is_dir(path);
        Self::folder_check(path, exists, is_dir)
    }

    /// Whether a folder choice is valid, given what the file system said of the path: it is
    /// non-empty, exists and is a directory.
    pub fn folder_check(path: &str, exists: bool, is_dir: bool) -> (r: bool)
        ensures
            r == (path@.len() > 0 && exists && is_dir),
    {
        !path.is_empty() && exists && is_dir
    }

    /// Whether a concurrent download count is between 1 and the maximum.
    pub fn is_valid_concurrent_downloads(value: usize) -> (r: bool)
        ensures
            r == (0 < value <= MAX_CONCURRENT_DOWNLOADS),
    {
        value > 0 && value <= MAX_CONCURRENT_DOWNLOADS
    }
}

/// A truncated text never exceeds the limit, and keeps the text when it fits.
pub proof fn lemma_truncate_fits(s: Seq<char>, max_len: nat)
    ensures
        truncate_spec(s, max_len).len() <= max_len,
        s.len() <= max_len ==> truncate_spec(s, max_len) == s,
        s.len() > max_len ==> truncate_spec(s, max_len).len() == max_len,
{
    reveal_strlit("...");
}

} // verus!
