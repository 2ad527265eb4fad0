//! Userstyle extraction: the CSS of the `@-moz-document` blocks aimed at WhatsApp Web.

use vstd::prelude::*;

use vstd::utf8::{encode_scalar, encode_utf8};

use crate::text::{chars_of, find_char_first, find_first, first_at, is_first_at, joined, occurs_at, string_of, sub_chars, trim, trim_chars};

verus! {

/// How a character changes the brace depth.
pub open spec fn brace_delta(c: char) -> int {
    if c == '{' {
        1
    } else if c == '}' {
        -1
    } else {
        0
    }
}

/// The brace depth reached by the characters `s[from..to]`.
pub open spec fn brace_depth(s: Seq<char>, from: int, to: int) -> int
    decreases to - from,
{
    if to <= from {
        0
    } else {
        brace_depth(s, from, to - 1) + brace_delta(s[to - 1])
    }
}

/// Whether the `}` at `k` brings the depth counted from `from` back to zero.
pub open spec fn closes_at(s: Seq<char>, from: int, k: int) -> bool {
    from <= k < s.len() && s[k] == '}' && brace_depth(s, from, k + 1) == 0
}

/// Whether `k` is the first position closing the block that opens at `from`.
pub open spec fn is_matching_brace(s: Seq<char>, from: int, k: int) -> bool {
    closes_at(s, from, k) && forall|j: int| from <= j < k ==> !closes_at(s, from, j)
}

/// The position of the brace that closes the block opened at `from`.
pub open spec fn matching_brace_of(s: Seq<char>, from: int) -> Option<int> {
    if exists|k: int| is_matching_brace(s, from, k) {
        Some(choose|k: int| is_matching_brace(s, from, k))
    } else {
        None
    }
}

/// The marker that opens a WhatsApp-targeted userstyle block.
pub open spec fn whatsapp_marker() -> Seq<char> {
    "@-moz-document domain(\"web.whatsapp.com\")"@
}

/// The trimmed CSS of the WhatsApp-targeted `@-moz-document` blocks of `s` from position
/// `from` on, in order, blank ones left out. The search stops at a marker with no `{`
/// after it or whose block is never closed.
pub open spec fn whatsapp_blocks(s: Seq<char>, from: int) -> Seq<Seq<char>>
    decreases s.len() - from,
{
    proof {
        lemma_first_at_after(s, whatsapp_marker(), from);
    }
    match first_at(s, whatsapp_marker(), from) {
        None => Seq::<Seq<char>>::empty(),
        Some(start) => {
            proof {
                lemma_first_at_after(s, seq!['{'], start);
            }
            match first_at(s, seq!['{'], start) {
                None => Seq::<Seq<char>>::empty(),
                Some(open) => {
                    proof {
                        lemma_matching_brace_of_is_matching(s, open);
                    }
                    match matching_brace_of(s, open) {
                        None => Seq::<Seq<char>>::empty(),
                        Some(close) => {
                            let css = trim(s.subrange(open + 1, close));
                            let rest = whatsapp_blocks(s, close + 1);
                            if css.len() == 0 {
                                rest
                            } else {
                                seq![css] + rest
                            }
                        },
                    }
                },
            }
        },
    }
}

/// The CSS inside the WhatsApp-targeted `@-moz-document` blocks of `s`: each block's
/// content trimmed, blank ones left out, joined with newlines; absent when no block holds
/// any.
pub open spec fn whatsapp_css(s: Seq<char>) -> Option<Seq<char>> {
    let blocks = whatsapp_blocks(s, 0);
    if blocks.len() == 0 {
        None
    } else {
        Some(joined(blocks, '\n'))
    }
}

pub proof fn lemma_first_at_after(s: Seq<char>, pat: Seq<char>, from: int)
    ensures
        first_at(s, pat, from) matches Some(i) ==> from <= i && occurs_at(s, pat, i),
{
    if exists|i: int| is_first_at(s, pat, from, i) {
        let k = choose|k: int| is_first_at(s, pat, from, k);
        assert(is_first_at(s, pat, from, k));
    }
}

pub proof fn lemma_matching_brace_of_is_matching(s: Seq<char>, from: int)
    ensures
        matching_brace_of(s, from) matches Some(k) ==> is_matching_brace(s, from, k),
{
    if exists|k: int| is_matching_brace(s, from, k) {
        let k = choose|k: int| is_matching_brace(s, from, k);
        assert(is_matching_brace(s, from, k));
    }
}

proof fn lemma_matching_some(s: Seq<char>, from: int, k: int)
    requires
        is_matching_brace(s, from, k),
    ensures
        matching_brace_of(s, from) == Some(k),
{
    let c = choose|c: int| is_matching_brace(s, from, c);
    assert(is_matching_brace(s, from, c));
    if c < k {
        assert(!closes_at(s, from, c));
    }
    if k < c {
        assert(!closes_at(s, from, k));
    }
}

proof fn lemma_matching_none(s: Seq<char>, from: int)
    requires
        forall|j: int| from <= j ==> !closes_at(s, from, j),
    ensures
        matching_brace_of(s, from) is None,
{
    if exists|k: int| is_matching_brace(s, from, k) {
        let c = choose|c: int| is_matching_brace(s, from, c);
        assert(closes_at(s, from, c));
    }
}

fn matching_brace_chars(s: &[char], from: usize) -> (r: Option<usize>)
    ensures
        match r {
            Some(k) => matching_brace_of(s@, from as int) == Some(k as int) && is_matching_brace(
                s@,
                from as int,
                k as int,
            ),
            None => matching_brace_of(s@, from as int) is None,
        },
{
    let n = s.len();
    let mut depth: i128 = 0;
    let mut i: usize = from;
    if from >= n {
        proof {
            lemma_matching_none(s@, from as int);
        }
        return None;
    }
    while i < n
        invariant
            from <= i <= n == s@.len(),
            depth == brace_depth(s@, from as int, i as int),
            -(i - from) <= depth <= i - from,
            forall|j: int| from <= j < i ==> !closes_at(s@, from as int, j),
        decreases n - i,
    {
        let c = s[i];
        if c == '{' {
            depth = depth + 1;
        } else if c == '}' {
            depth = depth - 1;
            if depth == 0 {
                proof {
                    assert(is_matching_brace(s@, from as int, i as int));
                    lemma_matching_some(s@, from as int, i as int);
                }
                return Some(i);
            }
        }
        i = i + 1;
    }
    proof {
        lemma_matching_none(s@, from as int);
    }
    None
}

/// The number of UTF-8 bytes that encode the first `k` characters of `s`: the byte
/// index at which character `k` starts.
pub open spec fn byte_offset(s: Seq<char>, k: int) -> int {
    encode_utf8(s.take(k)).len() as int
}

/// The first character, from position `k` on, that starts at or after byte `b` (the length
/// of `s` when none does).
pub open spec fn char_from_byte(s: Seq<char>, b: int, k: int) -> int
    decreases s.len() - k,
{
    if k >= s.len() || byte_offset(s, k) >= b {
        k
    } else {
        char_from_byte(s, b, k + 1)
    }
}

proof fn lemma_encode_utf8_concat(a: Seq<char>, b: Seq<char>)
    ensures
        encode_utf8(a + b) == encode_utf8(a) + encode_utf8(b),
    decreases a.len(),
{
    if a.len() == 0 {
        assert(a + b =~= b);
        assert(encode_utf8(a) =~= Seq::<u8>::empty());
        assert(encode_utf8(a) + encode_utf8(b) =~= encode_utf8(b));
    } else {
        assert((a + b).drop_first() =~= a.drop_first() + b);
        assert((a + b)[0] == a[0]);
        lemma_encode_utf8_concat(a.drop_first(), b);
        assert(encode_scalar(a[0] as u32) + (encode_utf8(a.drop_first()) + encode_utf8(b))
            =~= (encode_scalar(a[0] as u32) + encode_utf8(a.drop_first())) + encode_utf8(b));
    }
}

proof fn lemma_byte_offset_step(s: Seq<char>, k: int)
    requires
        0 <= k < s.len(),
    ensures
        byte_offset(s, k + 1) == byte_offset(s, k) + encode_scalar(s[k] as u32).len(),
{
    assert(s.take(k + 1) =~= s.take(k) + seq![s[k]]);
    lemma_encode_utf8_concat(s.take(k), seq![s[k]]);
    assert(seq![s[k]].drop_first() =~= Seq::<char>::empty());
    assert(encode_utf8(seq![s[k]]) =~= encode_scalar(s[k] as u32) + encode_utf8(
        Seq::<char>::empty(),
    ));
}

/// The number of bytes UTF-8 takes for `c`.
fn utf8_width(c: char) -> (w: u128)
    ensures
        w == encode_scalar(c as u32).len(),
        1 <= w <= 4,
{
    let v = c as u32;
    if v <= 0x7f {
        1
    } else if v <= 0x7ff {
        2
    } else if v <= 0xffff {
        3
    } else {
        4
    }
}

/// The byte index of the `}` that closes the block whose depth count starts at the first
/// character at or after byte index `opening_index`, if the block is closed.
pub fn matching_brace(input: &str, opening_index: usize) -> (r: Option<usize>)
    ensures
        r == match matching_brace_of(input@, char_from_byte(input@, opening_index as int, 0)) {
            Some(k) => Some(byte_offset(input@, k) as usize),
            None => None::<usize>,
        },
{
    let s = chars_of(input);
    let ghost b = opening_index as int;
    let mut k: usize = 0;
    let mut off: u128 = 0;
    assert(s@.take(0) =~= Seq::<char>::empty());
    while k < s.len() && off < opening_index as u128
        invariant
            0 <= k <= s@.len(),
            s@ == input@,
            b == opening_index,
            off == byte_offset(s@, k as int),
            off <= 4 * k,
            char_from_byte(s@, b, 0) == char_from_byte(s@, b, k as int),
        decreases s.len() - k,
    {
        proof {
            lemma_byte_offset_step(s@, k as int);
        }
        off = off + utf8_width(s[k]);
        k = k + 1;
    }
    let start = k;
    assert(char_from_byte(s@, b, 0) == start);
    match matching_brace_chars(&s, start) {
        None => None,
        Some(close) => {
            let mut j: usize = start;
            while j < close
                invariant
                    start <= j <= close < s@.len(),
                    off == byte_offset(s@, j as int),
                    off <= 4 * j,
                decreases close - j,
            {
                proof {
                    lemma_byte_offset_step(s@, j as int);
                }
                off = off + utf8_width(s[j]);
                j = j + 1;
            }
            Some(off as usize)
        },
    }
}

/// Extracts the CSS inside the WhatsApp-targeted `@-moz-document` domain blocks.
pub fn extract_whatsapp_css(input: &str) -> (r: Option<String>)
    ensures
        match r {
            Some(css) => whatsapp_css(input@) == Some(css@),
            None => whatsapp_css(input@) is None,
        },
{
    let s = chars_of(input);
    let marker = chars_of("@-moz-document domain(\"web.whatsapp.com\")");
    let ghost all = whatsapp_blocks(s@, 0);
    let ghost found: Seq<Seq<char>> = Seq::empty();
    let mut out: Vec<char> = Vec::new();
    let mut any = false;
    let mut from: usize = 0;
    loop
        invariant
            from <= s@.len(),
            s@ == input@,
            marker@ == whatsapp_marker(),
            all == whatsapp_blocks(s@, 0),
            all == found + whatsapp_blocks(s@, from as int),
            out@ == joined(found, '\n'),
            any == (found.len() > 0),
        ensures
            s@ == input@,
            all == whatsapp_blocks(s@, 0),
            all == found,
            out@ == joined(found, '\n'),
            any == (found.len() > 0),
        decreases s@.len() - from,
    {
        let start = match find_first(&s, &marker, from) {
            Some(start) => start,
            None => {
                assert(whatsapp_blocks(s@, from as int) =~= Seq::<Seq<char>>::empty());
                assert(found + Seq::<Seq<char>>::empty() =~= found);
                break;
            },
        };
        let open = match find_char_first(&s, '{', start) {
            Some(open) => open,
            None => {
                assert(whatsapp_blocks(s@, from as int) =~= Seq::<Seq<char>>::empty());
                assert(found + Seq::<Seq<char>>::empty() =~= found);
                break;
            },
        };
        let close = match matching_brace_chars(&s, open) {
            Some(close) => close,
            None => {
                assert(whatsapp_blocks(s@, from as int) =~= Seq::<Seq<char>>::empty());
                assert(found + Seq::<Seq<char>>::empty() =~= found);
                break;
            },
        };
        proof {
            lemma_first_at_after(s@, whatsapp_marker(), from as int);
            lemma_first_at_after(s@, seq!['{'], start as int);
        }
        assert(closes_at(s@, open as int, close as int));
        assert(close < s.len());
        let inner = sub_chars(&s, open + 1, close);
        let css = trim_chars(&inner);
        let ghost rest = whatsapp_blocks(s@, close + 1);
        assert(whatsapp_blocks(s@, from as int) == if css@.len() == 0 {
            rest
        } else {
            seq![css@] + rest
        });
        if css.len() > 0 {
            if any {
                out.push('\n');
            }
            let ghost before = out@;
            let mut k: usize = 0;
            while k < css.len()
                invariant
                    0 <= k <= css@.len(),
                    out@ == before + css@.take(k as int),
                decreases css.len() - k,
            {
                out.push(css[k]);
                assert(out@ =~= before + css@.take(k + 1));
                k = k + 1;
            }
            assert(css@.take(css@.len() as int) =~= css@);
            proof {
                let nf = found.push(css@);
                assert(nf.drop_last() =~= found);
                if found.len() == 0 {
                    assert(joined(nf, '\n') == nf[0]);
                }
                assert(found + (seq![css@] + rest) =~= nf + rest);
                found = nf;
            }
            any = true;
        }
        from = close + 1;
    }
    if !any {
        None
    } else {
        Some(string_of(&out))
    }
}

} // verus!
