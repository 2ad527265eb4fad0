//! Spellcheck language rules: normalizing language lists, finding dictionary files, and
//! the names of the language menu actions.

use vstd::prelude::*;

use crate::config::SpellcheckConfig;
use crate::order::{insert_sorted, insert_unique, lemma_strictly_sorted_by_set, sorted, strictly_sorted};
use crate::paths::{extension, extension_of, file_stem, file_stem_of};
use crate::text::{chars_of, lemma_trim_idempotent, same_text, string_of, trim, trim_chars, views};

verus! {

/// The character sequences held by a list of strings.
pub open spec fn strs(v: Seq<String>) -> Seq<Seq<char>> {
    v.map_values(|s: String| s@)
}

/// The distinct non-empty trimmed entries of a language list.
pub open spec fn language_set(input: Seq<Seq<char>>) -> Set<Seq<char>> {
    Set::new(
        |x: Seq<char>| x.len() > 0 && exists|k: int| 0 <= k < input.len() && trim(#[trigger] input[k]) == x,
    )
}

fn strings_of(v: &Vec<Vec<char>>) -> (r: Vec<String>)
    ensures
        strs(r@) == views(v@),
{
    let mut out: Vec<String> = Vec::new();
    let mut i: usize = 0;
    while i < v.len()
        invariant
            0 <= i <= v@.len(),
            strs(out@) == views(v@).take(i as int),
        decreases v.len() - i,
    {
        let s = string_of(&v[i]);
        let ghost before = out@;
        out.push(s);
        assert(strs(out@) =~= views(v@).take(i + 1)) by {
            assert(strs(out@) =~= strs(before).push(s@));
        }
        i = i + 1;
    }
    assert(views(v@).take(v@.len() as int) =~= views(v@));
    out
}

/// Every entry of a normalized list is its own trimmed form.
proof fn lemma_normalized_entries_trimmed(input: Seq<Seq<char>>, once: Seq<Seq<char>>, k: int)
    requires
        once.to_set() == language_set(input),
        0 <= k < once.len(),
    ensures
        once[k].len() > 0,
        trim(once[k]) == once[k],
{
    assert(once.to_set().contains(once[k]));
    let j = choose|j: int| 0 <= j < input.len() && trim(#[trigger] input[j]) == once[k];
    lemma_trim_idempotent(input[j]);
}

/// Normalizing a normalized language list gives it back unchanged.
pub proof fn lemma_normalize_idempotent(
    input: Seq<Seq<char>>,
    once: Seq<Seq<char>>,
    twice: Seq<Seq<char>>,
)
    requires
        strictly_sorted(once),
        once.to_set() == language_set(input),
        strictly_sorted(twice),
        twice.to_set() == language_set(once),
    ensures
        twice == once,
{
    assert forall|x: Seq<char>| language_set(once).contains(x) <==> once.to_set().contains(x) by {
        if language_set(once).contains(x) {
            let k = choose|k: int| 0 <= k < once.len() && trim(#[trigger] once[k]) == x;
            lemma_normalized_entries_trimmed(input, once, k);
        }
        if once.to_set().contains(x) {
            let k = choose|k: int| 0 <= k < once.len() && once[k] == x;
            lemma_normalized_entries_trimmed(input, once, k);
            assert(trim(once[k]) == x);
        }
    }
    assert(language_set(once) =~= once.to_set());
    lemma_strictly_sorted_by_set(twice, once);
}

/// Trims every language, drops empty ones, and returns the rest sorted without duplicates.
pub fn normalize_languages(languages: &[String]) -> (r: Vec<String>)
    ensures
        strictly_sorted(strs(r@)),
        strs(r@).to_set() == language_set(strs(languages@)),
{
    let mut acc: Vec<Vec<char>> = Vec::new();
    let mut i: usize = 0;
    assert(views(acc@).to_set() =~= language_set(strs(languages@).take(0)));
    while i < languages.len()
        invariant
            0 <= i <= languages@.len(),
            strictly_sorted(views(acc@)),
            views(acc@).to_set() == language_set(strs(languages@).take(i as int)),
        decreases languages.len() - i,
    {
        let chars = chars_of(languages[i].as_str());
        let t = trim_chars(&chars);
        let ghost input = strs(languages@);
        let ghost before = views(acc@).to_set();
        let ghost tv = t@;
        assert(input[i as int] == languages@[i as int]@);
        if t.len() > 0 {
            insert_unique(&mut acc, t);
            assert(language_set(input.take(i + 1)) =~= before.insert(tv)) by {
                assert(input.take(i + 1)[i as int] == input[i as int]);
                assert forall|x: Seq<char>| language_set(input.take(i + 1)).contains(x) implies before.insert(
                    tv,
                ).contains(x) by {
                    let k = choose|k: int|
                        0 <= k < input.take(i + 1).len() && trim(#[trigger] input.take(i + 1)[k]) == x;
                    if k < i {
                        assert(input.take(i as int)[k] == input.take(i + 1)[k]);
                        assert(language_set(input.take(i as int)).contains(x));
                    }
                }
                assert forall|x: Seq<char>| before.insert(tv).contains(x) implies language_set(
                    input.take(i + 1),
                ).contains(x) by {
                    if x != tv {
                        assert(language_set(input.take(i as int)).contains(x));
                        let k = choose|k: int|
                            0 <= k < input.take(i as int).len() && trim(#[trigger] input.take(i as int)[k])
                                == x;
                        assert(input.take(i + 1)[k] == input.take(i as int)[k]);
                    }
                }
            }
        } else {
            assert(language_set(input.take(i + 1)) =~= before) by {
                assert forall|x: Seq<char>| language_set(input.take(i + 1)).contains(x) implies before.contains(
                    x,
                ) by {
                    let k = choose|k: int|
                        0 <= k < input.take(i + 1).len() && trim(#[trigger] input.take(i + 1)[k]) == x;
                    if k < i {
                        assert(input.take(i as int)[k] == input.take(i + 1)[k]);
                    }
                }
                assert forall|x: Seq<char>| before.contains(x) implies language_set(
                    input.take(i + 1),
                ).contains(x) by {
                    let k = choose|k: int|
                        0 <= k < input.take(i as int).len() && trim(#[trigger] input.take(i as int)[k]) == x;
                    assert(input.take(i + 1)[k] == input.take(i as int)[k]);
                }
            }
        }
        i = i + 1;
    }
    assert(strs(languages@).take(languages@.len() as int) =~= strs(languages@));
    strings_of(&acc)
}

/// The languages explicitly selected in the configuration, normalized; `None` when none
/// are selected, in which case the installed dictionaries are used.
pub fn resolve_languages(config: &SpellcheckConfig) -> (r: Option<Vec<String>>)
    ensures
        config.languages@.len() == 0 <==> r is None,
        r matches Some(langs) ==> strictly_sorted(strs(langs@)) && strs(langs@).to_set()
            == language_set(strs(config.languages@)),
{
    if config.languages.len() == 0 {
        None
    } else {
        Some(normalize_languages(config.languages.as_slice()))
    }
}

/// The installed languages: the dictionary languages the Enchant broker lists, followed by
/// those found in a custom dictionary folder, normalized.
pub fn installed_languages(broker_languages: &[String], custom_languages: &[String]) -> (r: Vec<
    String,
>)
    ensures
        strictly_sorted(strs(r@)),
        strs(r@).to_set() == language_set(strs(broker_languages@) + strs(custom_languages@)),
{
    let mut all: Vec<String> = Vec::new();
    let mut i: usize = 0;
    while i < broker_languages.len()
        invariant
            0 <= i <= broker_languages@.len(),
            strs(all@) == strs(broker_languages@).take(i as int),
        decreases broker_languages.len() - i,
    {
        let ghost before = all@;
        all.push(broker_languages[i].clone());
        assert(strs(all@) =~= strs(broker_languages@).take(i + 1)) by {
            assert(strs(all@) =~= strs(before).push(broker_languages@[i as int]@));
        }
        i = i + 1;
    }
    let mut j: usize = 0;
    assert(strs(broker_languages@).take(broker_languages@.len() as int) =~= strs(broker_languages@));
    while j < custom_languages.len()
        invariant
            0 <= j <= custom_languages@.len(),
            strs(all@) == strs(broker_languages@) + strs(custom_languages@).take(j as int),
        decreases custom_languages.len() - j,
    {
        let ghost before = all@;
        all.push(custom_languages[j].clone());
        assert(strs(all@) =~= strs(broker_languages@) + strs(custom_languages@).take(j + 1)) by {
            assert(strs(all@) =~= strs(before).push(custom_languages@[j as int]@));
        }
        j = j + 1;
    }
    assert(strs(custom_languages@).take(custom_languages@.len() as int) =~= strs(custom_languages@));
    normalize_languages(all.as_slice())
}

/// Whether a path names a Hunspell dictionary or affix file (`.dic` or `.aff`).
pub open spec fn is_dictionary_path(p: Seq<char>) -> bool {
    extension_of(p) == Some("dic"@) || extension_of(p) == Some("aff"@)
}

/// Whether `path` is a dictionary file by its extension.
pub fn is_dictionary_file(path: &str) -> (r: bool)
    ensures
        r == is_dictionary_path(path@),
{
    match extension(path) {
        Some(ext) => same_text(ext.as_str(), "dic") || same_text(ext.as_str(), "aff"),
        None => false,
    }
}

/// The languages named by dictionary files among `paths`, in order: the file stem of each
/// dictionary file.
pub open spec fn dictionary_stems(paths: Seq<Seq<char>>) -> Seq<Seq<char>>
    decreases paths.len(),
{
    if paths.len() == 0 {
        Seq::empty()
    } else {
        let rest = dictionary_stems(paths.drop_last());
        let p = paths.last();
        if is_dictionary_path(p) && file_stem_of(p) is Some {
            rest.push(file_stem_of(p)->0)
        } else {
            rest
        }
    }
}

/// The languages of the dictionary files among the entries of a custom dictionary folder,
/// sorted (a language with both a `.dic` and an `.aff` file appears twice).
pub fn custom_dictionary_languages(paths: &[String]) -> (r: Vec<String>)
    ensures
        sorted(strs(r@)),
        strs(r@).to_multiset() == dictionary_stems(strs(paths@)).to_multiset(),
{
    let mut acc: Vec<Vec<char>> = Vec::new();
    let mut i: usize = 0;
    assert(strs(paths@).take(0) =~= Seq::<Seq<char>>::empty());
    assert(views(acc@) =~= dictionary_stems(strs(paths@).take(0)));
    while i < paths.len()
        invariant
            0 <= i <= paths@.len(),
            sorted(views(acc@)),
            views(acc@).to_multiset() == dictionary_stems(strs(paths@).take(i as int)).to_multiset(),
        decreases paths.len() - i,
    {
        let ghost input = strs(paths@);
        assert(input.take(i + 1).drop_last() =~= input.take(i as int));
        assert(input.take(i + 1).last() == paths@[i as int]@);
        if is_dictionary_file(paths[i].as_str()) {
            match file_stem(paths[i].as_str()) {
                Some(stem) => {
                    let v = chars_of(stem.as_str());
                    insert_sorted(&mut acc, v);
                    proof {
                        vstd::seq_lib::to_multiset_build(
                            dictionary_stems(input.take(i as int)),
                            v@,
                        );
                    }
                },
                None => {},
            }
        }
        i = i + 1;
    }
    assert(strs(paths@).take(paths@.len() as int) =~= strs(paths@));
    strings_of(&acc)
}

/// Whether spell checking is switched on for a webview: it is enabled and some language
/// is available.
pub fn spell_checking_enabled(config: &SpellcheckConfig, languages: &[String]) -> (r: bool)
    ensures
        r == (config.enabled && languages@.len() > 0),
{
    config.enabled && languages.len() > 0
}

/// The action-name character for `c`: ASCII letters and digits lowercased, anything else `-`.
pub open spec fn action_char(c: char) -> char {
    if 'A' <= c <= 'Z' {
        ((c as u32) + 32) as char
    } else if 'a' <= c <= 'z' || '0' <= c <= '9' {
        c
    } else {
        '-'
    }
}

/// The `GSimpleAction` name for a spellcheck language.
pub open spec fn action_name_of(language: Seq<char>) -> Seq<char> {
    "spellcheck-"@ + language.map_values(|c: char| action_char(c))
}

/// The `GSimpleAction` name for a spellcheck language: `spellcheck-` and the language with
/// every character that is not an ASCII letter or digit replaced by `-`, lowercased.
pub fn action_name(language: &str) -> (r: String)
    ensures
        r@ == action_name_of(language@),
{
    let s = chars_of(language);
    let mut out = chars_of("spellcheck-");
    let ghost prefix = out@;
    let mut i: usize = 0;
    while i < s.len()
        invariant
            0 <= i <= s@.len(),
            out@ == prefix + s@.take(i as int).map_values(|c: char| action_char(c)),
        decreases s.len() - i,
    {
        let c = s[i];
        let mapped = if 'A' <= c && c <= 'Z' {
            (((c as u32) + 32) as u8) as char
        } else if ('a' <= c && c <= 'z') || ('0' <= c && c <= '9') {
            c
        } else {
            '-'
        };
        assert(mapped == action_char(c)) by {
            if 'A' <= c <= 'Z' {
                assert(((c as u32) + 32) < 256);
            }
        }
        out.push(mapped);
        assert(out@ =~= prefix + s@.take(i + 1).map_values(|c: char| action_char(c)));
        i = i + 1;
    }
    assert(s@.take(s@.len() as int) =~= s@);
    string_of(&out)
}

} // verus!
