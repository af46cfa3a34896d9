//! Subliminal's TOML configuration: the OpenSubtitles.com credentials it keeps and the
//! settings that every download run overrides. The file is edited with `toml_edit`, so that
//! whatever else it holds is kept as it was written.

use vstd::prelude::*;
use crate::text::opt_text;

verus! {

/// A value written into the configuration.
pub enum TomlScalar {
    Text(Seq<char>),
    Flag(bool),
}

/// One step in the making of a configuration document.
pub enum TomlEdit {
    /// The document read from a text.
    Parse(Seq<char>),
    /// An empty table set under a key of the top-level table.
    TopTable(Seq<char>),
    /// An empty table set under the second key inside the top-level table named by the first.
    SubTable(Seq<char>, Seq<char>),
    /// A value set under a key in the table that the path of keys leads to.
    Insert(Seq<Seq<char>>, Seq<char>, TomlScalar),
    /// The entry under a key removed from the table that the path of keys leads to.
    Remove(Seq<Seq<char>>, Seq<char>),
}

/// A TOML document that keeps its formatting (`toml_edit::DocumentMut`).
#[verifier::external_type_specification]
#[verifier::external_body]
pub struct ExDocumentMut(toml_edit::DocumentMut);

/// Whether a text is a TOML document, as `DocumentMut`'s `FromStr` decides.
pub uninterp spec fn toml_parses(text: Seq<char>) -> bool;

/// What a document holds, given as the steps that made it: the text it was read from and the
/// edits made since. `toml_edit` is deterministic, so these steps decide everything about it.
pub uninterp spec fn toml_history(doc: toml_edit::DocumentMut) -> Seq<TomlEdit>;

/// The text of the document that a history makes (`DocumentMut`'s `Display`).
pub uninterp spec fn toml_rendered(history: Seq<TomlEdit>) -> Seq<char>;

/// Whether the top-level table holds an entry under `key` (`Table::get`).
pub uninterp spec fn toml_top_has(history: Seq<TomlEdit>, key: Seq<char>) -> bool;

/// Whether the entry under `key` of the top-level table is a table or an inline table
/// (`Item::is_table_like`).
pub uninterp spec fn toml_top_is_table(history: Seq<TomlEdit>, key: Seq<char>) -> bool;

/// Whether the table under `table` holds an entry under `key` (`TableLike::contains_key`).
pub uninterp spec fn toml_sub_has(history: Seq<TomlEdit>, table: Seq<char>, key: Seq<char>) -> bool;

/// Whether the entry under `key` in the table under `table` is a table or an inline table
/// (`TableLike::get`, then `Item::is_table_like`).
pub uninterp spec fn toml_sub_is_table(history: Seq<TomlEdit>, table: Seq<char>, key: Seq<char>) -> bool;

/// `text.parse::<DocumentMut>()`: the document, or `None` when the text is not TOML.
#[verifier::external_body]
fn parse_toml(text: &str) -> (r: Option<toml_edit::DocumentMut>)
    ensures
        r is Some == toml_parses(text@),
        r matches Some(d) ==> toml_history(d) == seq![TomlEdit::Parse(text@)],
{
    text.parse::<toml_edit::DocumentMut>().ok()
}

/// `DocumentMut::to_string`: the document's text.
#[verifier::external_body]
fn render_toml(doc: &toml_edit::DocumentMut) -> (r: String)
    ensures
        r@ == toml_rendered(toml_history(*doc)),
{
    doc.to_string()
}

/// `Table::get` on the top-level table: whether it holds an entry under `key`.
#[verifier::external_body]
fn top_has(doc: &toml_edit::DocumentMut, key: &str) -> (r: bool)
    ensures
        r == toml_top_has(toml_history(*doc), key@),
{
    doc.get(key).is_some()
}

/// `Item::is_table_like` on the entry under `key` of the top-level table.
#[verifier::external_body]
fn top_is_table(doc: &toml_edit::DocumentMut, key: &str) -> (r: bool)
    ensures
        r == toml_top_is_table(toml_history(*doc), key@),
{
    match doc.get(key) {
        Some(item) => item.is_table_like(),
        None => false,
    }
}

/// `doc[key] = toml_edit::table()`: an empty table under `key` of the top-level table, which
/// is then a table and holds no entry.
#[verifier::external_body]
fn set_top_table(doc: &mut toml_edit::DocumentMut, key: &str)
    ensures
        toml_history(*final(doc)) == toml_history(*old(doc)).push(TomlEdit::TopTable(key@)),
        toml_top_is_table(toml_history(*final(doc)), key@),
        forall|k: Seq<char>| !#[trigger] toml_sub_has(toml_history(*final(doc)), key@, k),
{
    doc[key] = toml_edit::table();
}

/// `TableLike::contains_key` on the table under `table`.
#[verifier::external_body]
fn sub_has(doc: &toml_edit::DocumentMut, table: &str, key: &str) -> (r: bool)
    requires
        toml_top_is_table(toml_history(*doc), table@),
    ensures
        r == toml_sub_has(toml_history(*doc), table@, key@),
{
    match doc.get(table).and_then(toml_edit::Item::as_table_like) {
        Some(t) => t.contains_key(key),
        None => false,
    }
}

/// `TableLike::get` on the table under `table`, then `Item::is_table_like` on what is there.
#[verifier::external_body]
fn sub_is_table(doc: &toml_edit::DocumentMut, table: &str, key: &str) -> (r: bool)
    requires
        toml_top_is_table(toml_history(*doc), table@),
    ensures
        r == toml_sub_is_table(toml_history(*doc), table@, key@),
{
    match doc.get(table).and_then(toml_edit::Item::as_table_like) {
        Some(t) => t.get(key).is_some_and(toml_edit::Item::is_table_like),
        None => false,
    }
}

/// `TableLike::insert` of `toml_edit::table()` under `key` in the table under `table`. The
/// entry under `table` stays a table, and the entry under `key` in it is then a table.
#[verifier::external_body]
fn set_sub_table(doc: &mut toml_edit::DocumentMut, table: &str, key: &str)
    requires
        toml_top_is_table(toml_history(*old(doc)), table@),
    ensures
        toml_history(*final(doc)) == toml_history(*old(doc)).push(TomlEdit::SubTable(table@, key@)),
        toml_top_is_table(toml_history(*final(doc)), table@),
        toml_sub_is_table(toml_history(*final(doc)), table@, key@),
{
    if let Some(t) = doc.get_mut(table).and_then(toml_edit::Item::as_table_like_mut) {
        t.insert(key, toml_edit::table());
    }
}

/// `TableLike::insert` of the boolean `value` under `key` in the table under `table`. The
/// entry under `table` stays a table.
#[verifier::external_body]
fn top_insert_flag(doc: &mut toml_edit::DocumentMut, table: &str, key: &str, value: bool)
    requires
        toml_top_is_table(toml_history(*old(doc)), table@),
    ensures
        toml_history(*final(doc)) == toml_history(*old(doc)).push(
            TomlEdit::Insert(seq![table@], key@, TomlScalar::Flag(value)),
        ),
        toml_top_is_table(toml_history(*final(doc)), table@),
{
    if let Some(t) = doc.get_mut(table).and_then(toml_edit::Item::as_table_like_mut) {
        t.insert(key, toml_edit::value(value));
    }
}

/// `TableLike::insert` of the string `value` under `key` in the table under `table`. The
/// entry under `table` stays a table.
#[verifier::external_body]
fn top_insert_text(doc: &mut toml_edit::DocumentMut, table: &str, key: &str, value: &str)
    requires
        toml_top_is_table(toml_history(*old(doc)), table@),
    ensures
        toml_history(*final(doc)) == toml_history(*old(doc)).push(
            TomlEdit::Insert(seq![table@], key@, TomlScalar::Text(value@)),
        ),
        toml_top_is_table(toml_history(*final(doc)), table@),
{
    if let Some(t) = doc.get_mut(table).and_then(toml_edit::Item::as_table_like_mut) {
        t.insert(key, toml_edit::value(value));
    }
}

/// `TableLike::remove` of `key` from the table under `table`. The entry under `table` stays a
/// table.
#[verifier::external_body]
fn top_remove(doc: &mut toml_edit::DocumentMut, table: &str, key: &str)
    requires
        toml_top_is_table(toml_history(*old(doc)), table@),
    ensures
        toml_history(*final(doc)) == toml_history(*old(doc)).push(
            TomlEdit::Remove(seq![table@], key@),
        ),
        toml_top_is_table(toml_history(*final(doc)), table@),
{
    if let Some(t) = doc.get_mut(table).and_then(toml_edit::Item::as_table_like_mut) {
        t.remove(key);
    }
}

/// `TableLike::insert` of the string `value` under `key` in the table under `sub` inside the
/// table under `table`. Both stay tables.
#[verifier::external_body]
fn sub_insert_text(doc: &mut toml_edit::DocumentMut, table: &str, sub: &str, key: &str, value: &str)
    requires
        toml_top_is_table(toml_history(*old(doc)), table@),
        toml_sub_is_table(toml_history(*old(doc)), table@, sub@),
    ensures
        toml_history(*final(doc)) == toml_history(*old(doc)).push(
            TomlEdit::Insert(seq![table@, sub@], key@, TomlScalar::Text(value@)),
        ),
        toml_top_is_table(toml_history(*final(doc)), table@),
        toml_sub_is_table(toml_history(*final(doc)), table@, sub@),
{
    let outer = doc.get_mut(table).and_then(toml_edit::Item::as_table_like_mut);
    let inner = match outer {
        Some(t) => t.get_mut(sub).and_then(toml_edit::Item::as_table_like_mut),
        None => None,
    };
    if let Some(t) = inner {
        t.insert(key, toml_edit::value(value));
    }
}

/// `TableLike::remove` of `key` from the table under `sub` inside the table under `table`.
/// Both stay tables.
#[verifier::external_body]
fn sub_remove(doc: &mut toml_edit::DocumentMut, table: &str, sub: &str, key: &str)
    requires
        toml_top_is_table(toml_history(*old(doc)), table@),
        toml_sub_is_table(toml_history(*old(doc)), table@, sub@),
    ensures
        toml_history(*final(doc)) == toml_history(*old(doc)).push(
            TomlEdit::Remove(seq![table@, sub@], key@),
        ),
        toml_top_is_table(toml_history(*final(doc)), table@),
        toml_sub_is_table(toml_history(*final(doc)), table@, sub@),
{
    let outer = doc.get_mut(table).and_then(toml_edit::Item::as_table_like_mut);
    let inner = match outer {
        Some(t) => t.get_mut(sub).and_then(toml_edit::Item::as_table_like_mut),
        None => None,
    };
    if let Some(t) = inner {
        t.remove(key);
    }
}

/// A result with its texts as character sequences.
pub open spec fn result_text(r: Result<String, String>) -> Result<Seq<char>, Seq<char>> {
    match r {
        Ok(s) => Ok(s@),
        Err(e) => Err(e@),
    }
}

/// The history with an empty table under `key` added when the top-level table has no entry
/// there.
pub open spec fn with_top_table(h: Seq<TomlEdit>, key: Seq<char>) -> Seq<TomlEdit> {
    if toml_top_has(h, key) {
        h
    } else {
        h.push(TomlEdit::TopTable(key))
    }
}

/// What a download run sets in the `download` table: no forcing and no single-file naming (the
/// run's own options decide those), no output directory (subtitles go beside the video), and
/// two-letter language codes.
pub open spec fn session_edits() -> Seq<TomlEdit> {
    let d = seq!["download"@];
    seq![
        TomlEdit::Insert(d, "force"@, TomlScalar::Flag(false)),
        TomlEdit::Insert(d, "force_external_subtitles"@, TomlScalar::Flag(false)),
        TomlEdit::Insert(d, "force_embedded_subtitles"@, TomlScalar::Flag(false)),
        TomlEdit::Insert(d, "single"@, TomlScalar::Flag(false)),
        TomlEdit::Remove(d, "directory"@),
        TomlEdit::Insert(d, "language_format"@, TomlScalar::Text("alpha2"@)),
    ]
}

/// The configuration a download run uses, made from the user's configuration text.
pub open spec fn session_config_spec(content: Seq<char>) -> Result<Seq<char>, Seq<char>> {
    if !toml_parses(content) {
        Err("Invalid Subliminal configuration"@)
    } else {
        let h = with_top_table(seq![TomlEdit::Parse(content)], "download"@);
        if !toml_top_is_table(h, "download"@) {
            Err("Subliminal download configuration must be a table"@)
        } else {
            Ok(toml_rendered(h + session_edits()))
        }
    }
}

/// The configuration a download run uses: the user's configuration with the `download`
/// settings of `session_edits`, or why it cannot be made.
pub fn session_config(content: &str) -> (r: Result<String, String>)
    ensures
        result_text(r) == session_config_spec(content@),
        ({
            let h0 = seq![TomlEdit::Parse(content@)];
            toml_parses(content@) && (!toml_top_has(h0, "download"@) || toml_top_is_table(
                h0,
                "download"@,
            )) ==> r is Ok
        }),
{
    let mut doc = match parse_toml(content) {
        Some(d) => d,
        None => {
            return Err("Invalid Subliminal configuration".to_owned());
        },
    };
    if !top_has(&doc, "download") {
        set_top_table(&mut doc, "download");
    }
    let ghost h = toml_history(doc);
    if !top_is_table(&doc, "download") {
        return Err("Subliminal download configuration must be a table".to_owned());
    }
    top_insert_flag(&mut doc, "download", "force", false);
    top_insert_flag(&mut doc, "download", "force_external_subtitles", false);
    top_insert_flag(&mut doc, "download", "force_embedded_subtitles", false);
    top_insert_flag(&mut doc, "download", "single", false);
    top_remove(&mut doc, "download", "directory");
    top_insert_text(&mut doc, "download", "language_format", "alpha2");
    assert(toml_history(doc) =~= h + session_edits());
    Ok(render_toml(&doc))
}

/// A credential as the configuration keeps it: an empty one is removed.
pub open spec fn credential_value(v: Seq<char>) -> Option<Seq<char>> {
    if v.len() == 0 {
        None
    } else {
        Some(v)
    }
}

/// The credential entries to write: each name with its value, or `None` to remove it.
pub open spec fn credential_edits_spec(
    username: Seq<char>,
    password: Seq<char>,
    apikey: Seq<char>,
) -> Seq<(Seq<char>, Option<Seq<char>>)> {
    seq![
        ("username"@, credential_value(username)),
        ("password"@, credential_value(password)),
        ("apikey"@, credential_value(apikey)),
    ]
}

/// The credential entries to write (see `credential_edits_spec`).
pub fn credential_edits(username: &str, password: &str, apikey: &str) -> (r: Vec<(String, Option<String>)>)
    ensures
        r@.len() == 3,
        forall|i: int|
            0 <= i < 3 ==> (#[trigger] r@[i]).0@ == credential_edits_spec(username@, password@, apikey@)[i].0
                && opt_text(r@[i].1) == credential_edits_spec(username@, password@, apikey@)[i].1,
{
    let mut r: Vec<(String, Option<String>)> = Vec::new();
    let names = ["username", "password", "apikey"];
    let values = [username, password, apikey];
    let mut i: usize = 0;
    while i < 3
        invariant
            0 <= i <= 3,
            r@.len() == i,
            names@ == seq!["username", "password", "apikey"],
            values@ == seq![username, password, apikey],
            forall|j: int|
                0 <= j < i ==> (#[trigger] r@[j]).0@ == credential_edits_spec(username@, password@, apikey@)[j].0
                    && opt_text(r@[j].1) == credential_edits_spec(username@, password@, apikey@)[j].1,
        decreases 3 - i,
    {
        let v = values[i];
        let value = if v.is_empty() {
            None
        } else {
            Some(v.to_owned())
        };
        r.push((names[i].to_owned(), value));
        i = i + 1;
    }
    r
}

/// The edit that writes one credential entry into `[provider.opensubtitlescom]`.
pub open spec fn credential_op(e: (Seq<char>, Option<Seq<char>>)) -> TomlEdit {
    let p = seq!["provider"@, "opensubtitlescom"@];
    match e.1 {
        Some(v) => TomlEdit::Insert(p, e.0, TomlScalar::Text(v)),
        None => TomlEdit::Remove(p, e.0),
    }
}

/// The configuration text with the OpenSubtitles.com credentials written in, or why it cannot
/// be written.
pub open spec fn credentials_config_spec(
    content: Seq<char>,
    username: Seq<char>,
    password: Seq<char>,
    apikey: Seq<char>,
) -> Result<Seq<char>, Seq<char>> {
    if !toml_parses(content) {
        Err("Invalid Subliminal configuration; the existing file was not changed"@)
    } else {
        let h1 = with_top_table(seq![TomlEdit::Parse(content)], "provider"@);
        if !toml_top_is_table(h1, "provider"@) {
            Err("Subliminal provider configuration must be a table"@)
        } else {
            let h2 = if toml_sub_has(h1, "provider"@, "opensubtitlescom"@) {
                h1
            } else {
                h1.push(TomlEdit::SubTable("provider"@, "opensubtitlescom"@))
            };
            if !toml_sub_is_table(h2, "provider"@, "opensubtitlescom"@) {
                Err("OpenSubtitles.com configuration must be a table"@)
            } else {
                Ok(
                    toml_rendered(
                        h2 + credential_edits_spec(username, password, apikey).map_values(
                            |e: (Seq<char>, Option<Seq<char>>)| credential_op(e),
                        ),
                    ),
                )
            }
        }
    }
}

/// Subliminal's configuration text with the OpenSubtitles.com username, password and API key
/// written into `[provider.opensubtitlescom]` (an empty one removed), everything else kept.
pub fn credentials_config(content: &str, username: &str, password: &str, apikey: &str) -> (r: Result<String, String>)
    ensures
        result_text(r) == credentials_config_spec(content@, username@, password@, apikey@),
        ({
            let h0 = seq![TomlEdit::Parse(content@)];
            &&& toml_parses(content@)
            &&& !toml_top_has(h0, "provider"@) || toml_top_is_table(h0, "provider"@)
            &&& toml_top_has(h0, "provider"@) ==> (!toml_sub_has(h0, "provider"@, "opensubtitlescom"@)
                || toml_sub_is_table(h0, "provider"@, "opensubtitlescom"@))
        }) ==> r is Ok,
{
    let mut doc = match parse_toml(content) {
        Some(d) => d,
        None => {
            return Err("Invalid Subliminal configuration; the existing file was not changed".to_owned());
        },
    };
    if !top_has(&doc, "provider") {
        set_top_table(&mut doc, "provider");
    }
    if !top_is_table(&doc, "provider") {
        return Err("Subliminal provider configuration must be a table".to_owned());
    }
    if !sub_has(&doc, "provider", "opensubtitlescom") {
        set_sub_table(&mut doc, "provider", "opensubtitlescom");
    }
    if !sub_is_table(&doc, "provider", "opensubtitlescom") {
        return Err("OpenSubtitles.com configuration must be a table".to_owned());
    }
    let ghost h2 = toml_history(doc);
    let ghost ops = credential_edits_spec(username@, password@, apikey@).map_values(
        |e: (Seq<char>, Option<Seq<char>>)| credential_op(e),
    );
    let edits = credential_edits(username, password, apikey);
    let mut i: usize = 0;
    while i < edits.len()
        invariant
            0 <= i <= edits@.len(),
            edits@.len() == 3,
            forall|j: int|
                0 <= j < 3 ==> (#[trigger] edits@[j]).0@ == credential_edits_spec(username@, password@, apikey@)[j].0
                    && opt_text(edits@[j].1) == credential_edits_spec(username@, password@, apikey@)[j].1,
            ops == credential_edits_spec(username@, password@, apikey@).map_values(
                |e: (Seq<char>, Option<Seq<char>>)| credential_op(e),
            ),
            toml_history(doc) == h2 + ops.take(i as int),
            toml_top_is_table(toml_history(doc), "provider"@),
            toml_sub_is_table(toml_history(doc), "provider"@, "opensubtitlescom"@),
        decreases edits.len() - i,
    {
        let ghost before = toml_history(doc);
        let (name, value) = &edits[i];
        assert(ops[i as int] == credential_op(credential_edits_spec(username@, password@, apikey@)[i as int]));
        match value {
            Some(v) => sub_insert_text(&mut doc, "provider", "opensubtitlescom", name.as_str(), v.as_str()),
            None => sub_remove(&mut doc, "provider", "opensubtitlescom", name.as_str()),
        }
        assert(ops.take(i + 1) =~= ops.take(i as int).push(ops[i as int]));
        i = i + 1;
    }
    assert(ops.take(3) =~= ops);
    Ok(render_toml(&doc))
}

} // verus!
