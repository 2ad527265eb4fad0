//! User customizations: CSS and JavaScript injected into WhatsApp Web, their stored form,
//! and the scripts that inject them.

use vstd::prelude::*;

use crate::ids::{id_text, parse_id, uuid_parse, uuid_text};
use crate::paths::{file_name, file_name_of};
use crate::text::{chars_of, ends_with, ends_with_exec, push_str, same_text, starts_with, string_of};
use crate::userstyle::{extract_whatsapp_css, whatsapp_css};

verus! {

/// Customization content kind.
#[derive(Clone, Copy, Debug, Eq, PartialEq, Structural)]
pub enum CustomizationKind {
    /// CSS stylesheet.
    Css,
    /// JavaScript script.
    Js,
}

/// Customization source kind.
#[derive(Clone, Copy, Debug, Eq, PartialEq, Structural)]
pub enum CustomizationSource {
    /// Local file source.
    File,
    /// Remote HTTPS URL source.
    Url,
}

/// Persisted customization entry.
#[derive(Clone, Debug, Eq, PartialEq)]
pub struct CustomizationEntry {
    /// Stable customization ID.
    pub id: u128,
    /// Optional account override target.
    pub account_id: Option<u128>,
    /// Local cached file path.
    pub path: String,
    /// Content kind.
    pub kind: CustomizationKind,
    /// Whether this entry is enabled.
    pub enabled: bool,
    /// Source kind.
    pub source: CustomizationSource,
    /// Optional remote URL.
    pub url: Option<String>,
    /// Optional cached ETag.
    pub etag: Option<String>,
}

/// The database text of a kind.
pub open spec fn kind_text(kind: CustomizationKind) -> Seq<char> {
    match kind {
        CustomizationKind::Css => "css"@,
        CustomizationKind::Js => "js"@,
    }
}

/// The kind a database text names: `js` is JavaScript, anything else CSS.
pub open spec fn kind_of_text(text: Seq<char>) -> CustomizationKind {
    if text == "js"@ {
        CustomizationKind::Js
    } else {
        CustomizationKind::Css
    }
}

/// The database text of a source.
pub open spec fn source_text(source: CustomizationSource) -> Seq<char> {
    match source {
        CustomizationSource::File => "file"@,
        CustomizationSource::Url => "url"@,
    }
}

/// The source a database text names: `url` is a URL, anything else a file.
pub open spec fn source_of_text(text: Seq<char>) -> CustomizationSource {
    if text == "url"@ {
        CustomizationSource::Url
    } else {
        CustomizationSource::File
    }
}

/// The database text of a kind.
pub fn kind_to_db(kind: CustomizationKind) -> (r: &'static str)
    ensures
        r@ == kind_text(kind),
{
    match kind {
        CustomizationKind::Css => "css",
        CustomizationKind::Js => "js",
    }
}

/// The kind stored as `kind`.
pub fn kind_from_db(kind: &str) -> (r: CustomizationKind)
    ensures
        r == kind_of_text(kind@),
{
    if same_text(kind, "js") {
        CustomizationKind::Js
    } else {
        CustomizationKind::Css
    }
}

/// The database text of a source.
pub fn source_to_db(source: CustomizationSource) -> (r: &'static str)
    ensures
        r@ == source_text(source),
{
    match source {
        CustomizationSource::File => "file",
        CustomizationSource::Url => "url",
    }
}

/// The source stored as `source`.
pub fn source_from_db(source: &str) -> (r: CustomizationSource)
    ensures
        r == source_of_text(source@),
{
    if same_text(source, "url") {
        CustomizationSource::Url
    } else {
        CustomizationSource::File
    }
}

/// A kind or a source written to the database reads back unchanged.
pub proof fn lemma_kind_and_source_round_trip(kind: CustomizationKind, source: CustomizationSource)
    ensures
        kind_of_text(kind_text(kind)) == kind,
        source_of_text(source_text(source)) == source,
{
    reveal_strlit("css");
    reveal_strlit("js");
    reveal_strlit("file");
    reveal_strlit("url");
    if kind == CustomizationKind::Css {
        assert("css"@ != "js"@) by {
            assert("css"@.len() != "js"@.len());
        }
    }
    if source == CustomizationSource::File {
        assert("file"@ != "url"@) by {
            assert("file"@.len() != "url"@.len());
        }
    }
}

/// A customization entry as a database row.
#[derive(Clone, Debug, PartialEq, Eq)]
pub struct CustomizationRow {
    pub id: String,
    pub account_id: Option<String>,
    pub path: String,
    pub kind: String,
    pub enabled: bool,
    pub source: String,
    pub url: Option<String>,
    pub etag: Option<String>,
}

/// Parses a UUID column; an invalid value reports the column.
pub fn parse_uuid_column(value: &str, column: usize) -> (r: Result<u128, usize>)
    ensures
        match uuid_parse(value@) {
            Some(id) => r == Ok::<u128, usize>(id),
            None => r == Err::<u128, usize>(column),
        },
        forall|v: u128| value@ == uuid_text(v) ==> r == Ok::<u128, usize>(v),
{
    proof {
        assert forall|v: u128| value@ == uuid_text(v) implies uuid_parse(value@) == Some(v) by {
            crate::ids::lemma_uuid_text_parses(v);
        }
    }
    match parse_id(value) {
        Some(id) => Ok(id),
        None => Err(column),
    }
}

/// Whether `row` is the database row of `entry`: identifiers as hyphenated text, the kind
/// and source as their database words, everything else as it is.
pub open spec fn is_row_of(row: CustomizationRow, entry: CustomizationEntry) -> bool {
    &&& row.id@ == uuid_text(entry.id)
    &&& match entry.account_id {
        Some(a) => row.account_id matches Some(t) && t@ == uuid_text(a),
        None => row.account_id is None,
    }
    &&& row.path@ == entry.path@
    &&& row.kind@ == kind_text(entry.kind)
    &&& row.enabled == entry.enabled
    &&& row.source@ == source_text(entry.source)
    &&& row.url.deep_view() == entry.url.deep_view()
    &&& row.etag.deep_view() == entry.etag.deep_view()
}

/// Whether two entries hold the same values.
pub open spec fn same_entry(a: CustomizationEntry, b: CustomizationEntry) -> bool {
    &&& a.id == b.id
    &&& a.account_id == b.account_id
    &&& a.path@ == b.path@
    &&& a.kind == b.kind
    &&& a.enabled == b.enabled
    &&& a.source == b.source
    &&& a.url.deep_view() == b.url.deep_view()
    &&& a.etag.deep_view() == b.etag.deep_view()
}

/// The database row of an entry.
pub fn entry_to_row(entry: &CustomizationEntry) -> (r: CustomizationRow)
    ensures
        is_row_of(r, *entry),
{
    CustomizationRow {
        id: id_text(entry.id),
        account_id: match entry.account_id {
            Some(a) => Some(id_text(a)),
            None => None,
        },
        path: string_of(&chars_of(entry.path.as_str())),
        kind: kind_to_db(entry.kind).to_string(),
        enabled: entry.enabled,
        source: source_to_db(entry.source).to_string(),
        url: match &entry.url {
            Some(u) => Some(string_of(&chars_of(u.as_str()))),
            None => None,
        },
        etag: match &entry.etag {
            Some(e) => Some(string_of(&chars_of(e.as_str()))),
            None => None,
        },
    }
}

/// Whether an account identifier column is absent or parses as a UUID.
pub open spec fn account_column_parses(account_id: Option<String>) -> bool {
    match account_id {
        Some(a) => uuid_parse(a@) is Some,
        None => true,
    }
}

/// The entry a row holds. The identifier must parse (else column 0 is reported) and so
/// must a present account identifier (else column 1); an unknown kind reads as CSS and an
/// unknown source as a file.
pub fn row_to_entry(row: &CustomizationRow) -> (r: Result<CustomizationEntry, usize>)
    ensures
        uuid_parse(row.id@) is None ==> r == Err::<CustomizationEntry, usize>(0),
        uuid_parse(row.id@) is Some && !account_column_parses(row.account_id) ==> r == Err::<
            CustomizationEntry,
            usize,
        >(1),
        r matches Ok(e) ==> {
            &&& Some(e.id) == uuid_parse(row.id@)
            &&& match row.account_id {
                Some(a) => Some(e.account_id->0) == uuid_parse(a@) && e.account_id is Some,
                None => e.account_id is None,
            }
            &&& e.path@ == row.path@
            &&& e.kind == kind_of_text(row.kind@)
            &&& e.enabled == row.enabled
            &&& e.source == source_of_text(row.source@)
            &&& e.url.deep_view() == row.url.deep_view()
            &&& e.etag.deep_view() == row.etag.deep_view()
        },
        uuid_parse(row.id@) is Some && account_column_parses(row.account_id) ==> r is Ok,
        forall|e: CustomizationEntry| is_row_of(*row, e) ==> (r matches Ok(x) && same_entry(x, e)),
{
    let id = parse_uuid_column(row.id.as_str(), 0)?;
    let account_id = match &row.account_id {
        Some(text) => Some(parse_uuid_column(text.as_str(), 1)?),
        None => None,
    };
    proof {
        assert forall|e: CustomizationEntry| is_row_of(*row, e) implies id == e.id && account_id
            == e.account_id && kind_of_text(row.kind@) == e.kind && source_of_text(row.source@)
            == e.source by {
            lemma_kind_and_source_round_trip(e.kind, e.source);
        }
    }
    Ok(CustomizationEntry {
        id,
        account_id,
        path: string_of(&chars_of(row.path.as_str())),
        kind: kind_from_db(row.kind.as_str()),
        enabled: row.enabled,
        source: source_from_db(row.source.as_str()),
        url: match &row.url {
            Some(u) => Some(string_of(&chars_of(u.as_str()))),
            None => None,
        },
        etag: match &row.etag {
            Some(e) => Some(string_of(&chars_of(e.as_str()))),
            None => None,
        },
    })
}

/// Whether a path names a userstyle: its file name ends in `.user.css`.
pub open spec fn is_userstyle_path(p: Seq<char>) -> bool {
    file_name_of(p) matches Some(name) && ends_with(name, ".user.css"@)
}

/// Whether a customization file is a userstyle.
pub fn is_userstyle(path: &str) -> (r: bool)
    ensures
        r == is_userstyle_path(path@),
{
    match file_name(path) {
        Some(name) => {
            let n = chars_of(name.as_str());
            let suffix = chars_of(".user.css");
            ends_with_exec(&n, &suffix)
        },
        None => false,
    }
}

/// The content injected for a customization file: for a CSS userstyle, the CSS of its
/// WhatsApp block when it has one; otherwise the file content unchanged.
pub open spec fn injected_content(kind: CustomizationKind, path: Seq<char>, content: Seq<char>) -> Seq<
    char,
> {
    if kind == CustomizationKind::Css && is_userstyle_path(path) {
        match whatsapp_css(content) {
            Some(css) => css,
            None => content,
        }
    } else {
        content
    }
}

/// Loaded customization content.
pub struct LoadedCustomization {
    /// Content kind.
    pub kind: CustomizationKind,
    /// File content ready to inject.
    pub content: String,
}

/// The customization loaded from an entry whose file holds `content`.
pub fn load_entry(entry: &CustomizationEntry, content: String) -> (r: LoadedCustomization)
    ensures
        r.kind == entry.kind,
        r.content@ == injected_content(entry.kind, entry.path@, content@),
{
    let content = match entry.kind {
        CustomizationKind::Css => if is_userstyle(entry.path.as_str()) {
            match extract_whatsapp_css(content.as_str()) {
                Some(css) => css,
                None => content,
            }
        } else {
            content
        },
        CustomizationKind::Js => content,
    };
    LoadedCustomization { kind: entry.kind, content }
}

/// The JavaScript string-literal escape of one character.
pub open spec fn js_escape_char(c: char) -> Seq<char> {
    if c == '\\' {
        seq!['\\', '\\']
    } else if c == '"' {
        seq!['\\', '"']
    } else if c == '\n' {
        seq!['\\', 'n']
    } else if c == '\r' {
        seq!['\\', 'r']
    } else if c == '\t' {
        seq!['\\', 't']
    } else {
        seq![c]
    }
}

/// The JavaScript string-literal escape of a text.
pub open spec fn js_escape(s: Seq<char>) -> Seq<char>
    decreases s.len(),
{
    if s.len() == 0 {
        Seq::empty()
    } else {
        js_escape(s.drop_last()) + js_escape_char(s.last())
    }
}

/// The character an escape `\c` stands for in a JavaScript string literal: `n`, `r` and
/// `t` for a line feed, a carriage return and a tab; any other character for itself.
pub open spec fn js_unescaped_char(c: char) -> char {
    if c == 'n' {
        '\n'
    } else if c == 'r' {
        '\r'
    } else if c == 't' {
        '\t'
    } else {
        c
    }
}

/// The text that the body `t` of a double-quoted JavaScript string literal denotes.
pub open spec fn js_unescape(t: Seq<char>) -> Seq<char>
    decreases t.len(),
{
    if t.len() == 0 {
        Seq::empty()
    } else if t[0] == '\\' && t.len() >= 2 {
        seq![js_unescaped_char(t[1])] + js_unescape(t.skip(2))
    } else {
        seq![t[0]] + js_unescape(t.drop_first())
    }
}

/// Whether `t` can stand between double quotes as written: every backslash starts an
/// escape, and no double quote, line feed, carriage return or tab stands bare.
pub open spec fn is_escaped_body(t: Seq<char>) -> bool
    decreases t.len(),
{
    if t.len() == 0 {
        true
    } else if t[0] == '\\' {
        t.len() >= 2 && is_escaped_body(t.skip(2))
    } else {
        t[0] != '"' && t[0] != '\n' && t[0] != '\r' && t[0] != '\t' && is_escaped_body(
            t.drop_first(),
        )
    }
}

proof fn lemma_js_escape_concat(a: Seq<char>, b: Seq<char>)
    ensures
        js_escape(a + b) == js_escape(a) + js_escape(b),
    decreases b.len(),
{
    if b.len() == 0 {
        assert(a + b =~= a);
        assert(js_escape(a) + js_escape(b) =~= js_escape(a));
    } else {
        assert((a + b).drop_last() =~= a + b.drop_last());
        assert((a + b).last() == b.last());
        lemma_js_escape_concat(a, b.drop_last());
        assert(js_escape(a) + js_escape(b.drop_last()) + js_escape_char(b.last()) =~= js_escape(a)
            + (js_escape(b.drop_last()) + js_escape_char(b.last())));
    }
}

/// Escaping a text and reading the result back as the body of a double-quoted JavaScript
/// string gives the text back; the escaped text holds no bare double quote, line feed,
/// carriage return or tab, and no dangling backslash.
pub proof fn lemma_js_escape_round_trip(s: Seq<char>)
    ensures
        is_escaped_body(js_escape(s)),
        js_unescape(js_escape(s)) == s,
    decreases s.len(),
{
    if s.len() == 0 {
        assert(js_escape(s) =~= Seq::<char>::empty());
        assert(js_unescape(Seq::<char>::empty()) =~= s);
    } else {
        let c = s[0];
        let rest = s.drop_first();
        assert(s =~= seq![c] + rest);
        lemma_js_escape_concat(seq![c], rest);
        assert(seq![c].drop_last() =~= Seq::<char>::empty());
        assert(js_escape(Seq::<char>::empty()) =~= Seq::<char>::empty());
        assert(js_escape(seq![c]) =~= js_escape_char(c));
        lemma_js_escape_round_trip(rest);
        let e = js_escape_char(c);
        let t = e + js_escape(rest);
        assert(js_escape(s) == t);
        if e.len() == 2 {
            assert(t[0] == '\\');
            assert(t.skip(2) =~= js_escape(rest));
            assert(js_unescape(t) =~= seq![c] + rest);
        } else {
            assert(t.drop_first() =~= js_escape(rest));
            assert(js_unescape(t) =~= seq![c] + rest);
        }
    }
}

/// Appends the JavaScript string-literal escape of `s` to `out`.
pub fn push_js_escaped(s: &[char], out: &mut Vec<char>)
    ensures
        final(out)@ == old(out)@ + js_escape(s@),
{
    let ghost start = out@;
    let mut i: usize = 0;
    assert(s@.take(0) =~= Seq::<char>::empty());
    assert(out@ =~= start + js_escape(s@.take(0)));
    while i < s.len()
        invariant
            0 <= i <= s@.len(),
            out@ == start + js_escape(s@.take(i as int)),
        decreases s.len() - i,
    {
        let c = s[i];
        if c == '\\' {
            out.push('\\');
            out.push('\\');
        } else if c == '"' {
            out.push('\\');
            out.push('"');
        } else if c == '\n' {
            out.push('\\');
            out.push('n');
        } else if c == '\r' {
            out.push('\\');
            out.push('r');
        } else if c == '\t' {
            out.push('\\');
            out.push('t');
        } else {
            out.push(c);
        }
        assert(s@.take(i + 1).drop_last() =~= s@.take(i as int));
        assert(out@ =~= start + js_escape(s@.take(i + 1)));
        i = i + 1;
    }
    assert(s@.take(s@.len() as int) =~= s@);
}

/// Escapes a text for a double-quoted JavaScript string literal.
pub fn escape_js_string(value: &str) -> (r: String)
    ensures
        r@ == js_escape(value@),
{
    let mut out: Vec<char> = Vec::new();
    push_js_escaped(&chars_of(value), &mut out);
    assert(out@ =~= js_escape(value@));
    string_of(&out)
}

/// The script that adds `css` to the page in a `<style data-openwhatsapp>` element.
pub open spec fn css_injection_script(css: Seq<char>) -> Seq<char> {
    "(() => { const style = document.createElement('style'); style.dataset.openwhatsapp = 'true'; style.textContent = \""@
        + js_escape(css)
        + "\"; document.documentElement.appendChild(style); })();"@
}

/// The script that injects a CSS customization.
pub fn css_script(css: &str) -> (r: String)
    ensures
        r@ == css_injection_script(css@),
{
    let mut out: Vec<char> = Vec::new();
    push_str(
        &mut out,
        "(() => { const style = document.createElement('style'); style.dataset.openwhatsapp = 'true'; style.textContent = \"",
    );
    push_js_escaped(&chars_of(css), &mut out);
    push_str(&mut out, "\"; document.documentElement.appendChild(style); })();");
    string_of(&out)
}

/// The script run for a loaded customization: JavaScript as it is, CSS wrapped in the style
/// injection script.
pub fn injection_script(loaded: &LoadedCustomization) -> (r: String)
    ensures
        r@ == match loaded.kind {
            CustomizationKind::Css => css_injection_script(loaded.content@),
            CustomizationKind::Js => loaded.content@,
        },
{
    match loaded.kind {
        CustomizationKind::Css => css_script(loaded.content.as_str()),
        CustomizationKind::Js => string_of(&chars_of(loaded.content.as_str())),
    }
}

/// Whether a remote customization URL uses HTTPS, the only scheme fetched.
pub fn is_https_url(url: &str) -> (r: bool)
    ensures
        r == starts_with(url@, "https://"@),
{
    let u = chars_of(url);
    let p = chars_of("https://");
    crate::text::occurs_at_exec(&u, &p, 0)
}

/// Why a remote customization could not be fetched.
#[derive(Clone, Copy, Debug, PartialEq, Eq, Structural)]
pub enum FetchRefusal {
    /// The URL does not use HTTPS.
    NotHttps,
}

/// Checks a remote customization URL before it is fetched: only HTTPS URLs are.
pub fn check_fetch_url(url: &str) -> (r: Result<(), FetchRefusal>)
    ensures
        r is Ok <==> starts_with(url@, "https://"@),
        r matches Err(e) ==> e == FetchRefusal::NotHttps,
{
    if is_https_url(url) {
        Ok(())
    } else {
        Err(FetchRefusal::NotHttps)
    }
}

} // verus!
