//! Drag and drop: the URI list a drop carries, and the page event that announces it.

use vstd::prelude::*;

use crate::customizations::{js_escape, push_js_escaped};
use crate::spellcheck::strs;
use crate::text::{chars_of, push_str, split_chars, split_on, string_of, trim, trim_chars, views};

verus! {

/// Whether a trimmed line of a URI list names a URI: it is not blank and not a comment.
pub open spec fn is_uri_line(line: Seq<char>) -> bool {
    line.len() > 0 && line[0] != '#'
}

/// The URIs of the lines `lines`: each line trimmed, blank lines and `#` comments dropped.
pub open spec fn uris_of_lines(lines: Seq<Seq<char>>) -> Seq<Seq<char>>
    decreases lines.len(),
{
    if lines.len() == 0 {
        Seq::empty()
    } else {
        let rest = uris_of_lines(lines.drop_last());
        let t = trim(lines.last());
        if is_uri_line(t) {
            rest.push(t)
        } else {
            rest
        }
    }
}

/// The URIs in a `text/uri-list` text. Lines end at `\n`; a `\r` before it is whitespace
/// and goes with the trimming.
pub open spec fn uri_list(text: Seq<char>) -> Seq<Seq<char>> {
    uris_of_lines(split_on(text, '\n'))
}

/// Parses a URI list, ignoring blank lines and comments.
pub fn parse_uri_list(text: &str) -> (r: Vec<String>)
    ensures
        strs(r@) == uri_list(text@),
{
    let lines = split_chars(&chars_of(text), '\n');
    let mut out: Vec<String> = Vec::new();
    let mut i: usize = 0;
    assert(views(lines@).take(0) =~= Seq::<Seq<char>>::empty());
    while i < lines.len()
        invariant
            0 <= i <= lines@.len(),
            strs(out@) == uris_of_lines(views(lines@).take(i as int)),
        decreases lines.len() - i,
    {
        let t = trim_chars(&lines[i]);
        let ghost before = out@;
        assert(views(lines@).take(i + 1).drop_last() =~= views(lines@).take(i as int));
        assert(views(lines@).take(i + 1).last() == lines@[i as int]@);
        if t.len() > 0 && t[0] != '#' {
            let s = string_of(&t);
            out.push(s);
            assert(strs(out@) =~= strs(before).push(s@));
        }
        i = i + 1;
    }
    assert(views(lines@).take(lines@.len() as int) =~= views(lines@));
    out
}

proof fn lemma_uris_of_lines_filter(lines: Seq<Seq<char>>)
    ensures
        uris_of_lines(lines) == lines.map_values(|l: Seq<char>| trim(l)).filter(
            |t: Seq<char>| t.len() > 0 && t[0] != '#',
        ),
    decreases lines.len(),
{
    if lines.len() > 0 {
        lemma_uris_of_lines_filter(lines.drop_last());
        let m = lines.map_values(|l: Seq<char>| trim(l));
        let pred = |t: Seq<char>| t.len() > 0 && t[0] != '#';
        reveal(Seq::filter);
        assert(m.drop_last() =~= lines.drop_last().map_values(|l: Seq<char>| trim(l)));
        assert(m.last() == trim(lines.last()));
        assert(m.filter(pred) == if pred(m.last()) {
            m.drop_last().filter(pred).push(m.last())
        } else {
            m.drop_last().filter(pred)
        });
    } else {
        reveal(Seq::filter);
        assert(lines.map_values(|l: Seq<char>| trim(l)) =~= Seq::<Seq<char>>::empty());
    }
}

/// A URI list holds exactly the lines of the text, each trimmed, that are neither blank nor
/// comments (starting with `#`), in their order: every such line is kept, and nothing else.
pub proof fn lemma_uri_list_keeps_every_uri_line(text: Seq<char>)
    ensures
        uri_list(text) == split_on(text, '\n').map_values(|l: Seq<char>| trim(l)).filter(
            |t: Seq<char>| t.len() > 0 && t[0] != '#',
        ),
        forall|i: int|
            0 <= i < split_on(text, '\n').len() && trim(#[trigger] split_on(text, '\n')[i]).len()
                > 0 && trim(split_on(text, '\n')[i])[0] != '#' ==> uri_list(text).contains(
                trim(split_on(text, '\n')[i]),
            ),
        forall|i: int|
            0 <= i < uri_list(text).len() ==> (#[trigger] uri_list(text)[i]).len() > 0
                && uri_list(text)[i][0] != '#',
{
    let lines = split_on(text, '\n');
    let m = lines.map_values(|l: Seq<char>| trim(l));
    let pred = |t: Seq<char>| t.len() > 0 && t[0] != '#';
    lemma_uris_of_lines_filter(lines);
    assert forall|i: int|
        0 <= i < lines.len() && trim(#[trigger] lines[i]).len() > 0 && trim(lines[i])[0] != '#'
        implies uri_list(text).contains(trim(lines[i])) by {
        assert(m[i] == trim(lines[i]));
        m.lemma_filter_contains(pred, i);
    }
    assert forall|i: int| 0 <= i < uri_list(text).len() implies (#[trigger] uri_list(text)[i]).len()
        > 0 && uri_list(text)[i][0] != '#' by {
        m.lemma_filter_pred(pred, i);
    }
}

/// A URI as a double-quoted JavaScript string.
pub open spec fn quoted(uri: Seq<char>) -> Seq<char> {
    seq!['"'] + js_escape(uri) + seq!['"']
}

/// The URIs as a comma-separated list of JavaScript strings.
pub open spec fn quoted_list(uris: Seq<Seq<char>>) -> Seq<char>
    decreases uris.len(),
{
    if uris.len() == 0 {
        Seq::empty()
    } else if uris.len() == 1 {
        quoted(uris[0])
    } else {
        quoted_list(uris.drop_last()) + seq![','] + quoted(uris.last())
    }
}

/// The script that announces dropped files to the page.
pub open spec fn attach_event_script_of(uris: Seq<Seq<char>>) -> Seq<char> {
    "window.dispatchEvent(new CustomEvent('openwhatsapp-files-dropped', { detail: { uris: ["@
        + quoted_list(uris) + "] } }));"@
}

/// The script dispatching the `openwhatsapp-files-dropped` event with the dropped URIs.
pub fn attach_event_script(uris: &[String]) -> (r: String)
    ensures
        r@ == attach_event_script_of(strs(uris@)),
{
    let mut out: Vec<char> = Vec::new();
    push_str(
        &mut out,
        "window.dispatchEvent(new CustomEvent('openwhatsapp-files-dropped', { detail: { uris: [",
    );
    let ghost start = out@;
    let mut i: usize = 0;
    assert(strs(uris@).take(0) =~= Seq::<Seq<char>>::empty());
    while i < uris.len()
        invariant
            0 <= i <= uris@.len(),
            out@ == start + quoted_list(strs(uris@).take(i as int)),
        decreases uris.len() - i,
    {
        let ghost prev = strs(uris@).take(i as int);
        assert(strs(uris@).take(i + 1).drop_last() =~= prev);
        assert(strs(uris@).take(i + 1).last() == uris@[i as int]@);
        if i > 0 {
            out.push(',');
        }
        out.push('"');
        push_js_escaped(&chars_of(uris[i].as_str()), &mut out);
        out.push('"');
        proof {
            if i == 0 {
                assert(strs(uris@).take(1)[0] == uris@[0]@);
            }
        }
        assert(out@ =~= start + quoted_list(strs(uris@).take(i + 1)));
        i = i + 1;
    }
    assert(strs(uris@).take(uris@.len() as int) =~= strs(uris@));
    push_str(&mut out, "] } }));");
    string_of(&out)
}

} // verus!
