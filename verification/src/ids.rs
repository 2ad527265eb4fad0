//! Identifiers of accounts and customizations: UUIDs held as their 128-bit value.

use vstd::prelude::*;

verus! {

/// The lowercase hexadecimal digit for `d` (`0 <= d < 16`).
pub open spec fn hex_digit(d: int) -> char {
    if d < 10 {
        (48 + d) as char
    } else {
        (87 + d) as char
    }
}

/// The `n` lowest hexadecimal digits of `v`, most significant first.
pub open spec fn hex_digits(v: nat, n: nat) -> Seq<char>
    decreases n,
{
    if n == 0 {
        Seq::empty()
    } else {
        hex_digits(v / 16, (n - 1) as nat).push(hex_digit((v % 16) as int))
    }
}

/// The hyphenated lowercase text of a UUID, `xxxxxxxx-xxxx-xxxx-xxxx-xxxxxxxxxxxx`,
/// the big-endian hexadecimal digits of its 128-bit value.
pub open spec fn uuid_text(id: u128) -> Seq<char> {
    let h = hex_digits(id as nat, 32);
    h.subrange(0, 8) + seq!['-'] + h.subrange(8, 12) + seq!['-'] + h.subrange(12, 16) + seq!['-']
        + h.subrange(16, 20) + seq!['-'] + h.subrange(20, 32)
}

/// `16` to the power `n`.
pub open spec fn pow16(n: nat) -> nat
    decreases n,
{
    if n == 0 {
        1
    } else {
        16 * pow16((n - 1) as nat)
    }
}

pub proof fn lemma_hex_digits_len(v: nat, n: nat)
    ensures
        hex_digits(v, n).len() == n,
    decreases n,
{
    if n > 0 {
        lemma_hex_digits_len(v / 16, (n - 1) as nat);
    }
}

proof fn lemma_hex_digits_injective(v: nat, w: nat, n: nat)
    requires
        v < pow16(n),
        w < pow16(n),
        hex_digits(v, n) == hex_digits(w, n),
    ensures
        v == w,
    decreases n,
{
    if n == 0 {
    } else {
        let p = pow16((n - 1) as nat);
        assert(hex_digits(v, n).last() == hex_digit((v % 16) as int));
        assert(hex_digits(w, n).last() == hex_digit((w % 16) as int));
        assert(hex_digits(v, n).drop_last() == hex_digits(v / 16, (n - 1) as nat));
        assert(hex_digits(w, n).drop_last() == hex_digits(w / 16, (n - 1) as nat));
        assert(v % 16 == w % 16);
        assert(v / 16 < p) by (nonlinear_arith)
            requires
                v < 16 * p,
        ;
        assert(w / 16 < p) by (nonlinear_arith)
            requires
                w < 16 * p,
        ;
        lemma_hex_digits_injective(v / 16, w / 16, (n - 1) as nat);
    }
}

pub proof fn lemma_hex_digits_chars(v: nat, n: nat)
    ensures
        forall|i: int| 0 <= i < hex_digits(v, n).len() ==> (#[trigger] hex_digits(v, n)[i]) != '/'
            && hex_digits(v, n)[i] != '-',
    decreases n,
{
    if n > 0 {
        lemma_hex_digits_chars(v / 16, (n - 1) as nat);
        let d = (v % 16) as int;
        assert(hex_digit(d) != '/' && hex_digit(d) != '-');
        let p = hex_digits(v / 16, (n - 1) as nat);
        let h = hex_digits(v, n);
        assert(h == p.push(hex_digit(d)));
        assert forall|i: int| 0 <= i < h.len() implies (#[trigger] h[i]) != '/' && h[i] != '-' by {
            if i < p.len() {
                assert(h[i] == p[i]);
            }
        }
    }
}

/// Different identifiers have different texts.
pub proof fn lemma_uuid_text_injective(a: u128, b: u128)
    requires
        uuid_text(a) == uuid_text(b),
    ensures
        a == b,
{
    let ha = hex_digits(a as nat, 32);
    let hb = hex_digits(b as nat, 32);
    lemma_hex_digits_len(a as nat, 32);
    lemma_hex_digits_len(b as nat, 32);
    let ta = uuid_text(a);
    let tb = uuid_text(b);
    assert(ta.len() == 36);
    assert forall|i: int| 0 <= i < 32 implies ha[i] == hb[i] by {
        let k = if i < 8 {
            i
        } else if i < 12 {
            i + 1
        } else if i < 16 {
            i + 2
        } else if i < 20 {
            i + 3
        } else {
            i + 4
        };
        assert(ta[k] == ha[i]);
        assert(tb[k] == hb[i]);
    }
    assert(ha =~= hb);
    assert(pow16(32) == 0x1_0000_0000_0000_0000_0000_0000_0000_0000) by {
        reveal_with_fuel(pow16, 33);
    }
    lemma_hex_digits_injective(a as nat, b as nat, 32);
}

/// The value of a hexadecimal digit, in either case.
pub open spec fn hex_value(c: char) -> Option<nat> {
    if '0' <= c && c <= '9' {
        Some((c as int - 48) as nat)
    } else if 'a' <= c && c <= 'f' {
        Some((c as int - 87) as nat)
    } else if 'A' <= c && c <= 'F' {
        Some((c as int - 55) as nat)
    } else {
        None
    }
}

/// The value of the hexadecimal digits `s`, most significant first; `None` when one of
/// them is no hexadecimal digit.
pub open spec fn hex_text_value(s: Seq<char>) -> Option<nat>
    decreases s.len(),
{
    if s.len() == 0 {
        Some(0)
    } else {
        match (hex_text_value(s.drop_last()), hex_value(s.last())) {
            (Some(v), Some(d)) => Some(v * 16 + d),
            _ => None,
        }
    }
}

/// The value of a hyphenated UUID text, 32 hexadecimal digits in groups of 8-4-4-4-12.
pub open spec fn hyphenated_value(s: Seq<char>) -> Option<nat> {
    if s.len() == 36 && s[8] == '-' && s[13] == '-' && s[18] == '-' && s[23] == '-' {
        hex_text_value(
            s.subrange(0, 8) + s.subrange(9, 13) + s.subrange(14, 18) + s.subrange(19, 23)
                + s.subrange(24, 36),
        )
    } else {
        None
    }
}

/// The ASCII lowercase of `c`.
pub open spec fn ascii_lower(c: char) -> char {
    if 'A' <= c && c <= 'Z' {
        ((c as int) + 32) as char
    } else {
        c
    }
}

/// Whether `s` is `urn:uuid:` in any ASCII case.
pub open spec fn is_urn_prefix(s: Seq<char>) -> bool {
    s.len() == 9 && forall|i: int| 0 <= i < 9 ==> ascii_lower(#[trigger] s[i]) == "urn:uuid:"@[i]
}

/// What `uuid::Uuid::parse_str` gives for a text: the value of the UUID it spells as 32
/// hexadecimal digits, as a hyphenated UUID, as one in braces, or as one after `urn:uuid:`
/// in any case. Digits may be of either case.
pub open spec fn uuid_parse(text: Seq<char>) -> Option<u128> {
    let v = if text.len() == 32 {
        hex_text_value(text)
    } else if text.len() == 36 {
        hyphenated_value(text)
    } else if text.len() == 38 && text[0] == '{' && text[37] == '}' {
        hyphenated_value(text.subrange(1, 37))
    } else if text.len() == 45 && is_urn_prefix(text.take(9)) {
        hyphenated_value(text.skip(9))
    } else {
        None
    };
    match v {
        Some(n) => Some(n as u128),
        None => None,
    }
}

proof fn lemma_hex_text_of_digits(v: nat, n: nat)
    ensures
        hex_text_value(hex_digits(v, n)) == Some(v % pow16(n)),
    decreases n,
{
    if n == 0 {
        assert(hex_digits(v, n) =~= Seq::<char>::empty());
    } else {
        let h = hex_digits(v, n);
        let d = (v % 16) as int;
        lemma_hex_text_of_digits(v / 16, (n - 1) as nat);
        assert(h.drop_last() == hex_digits(v / 16, (n - 1) as nat));
        assert(h.last() == hex_digit(d));
        assert(hex_value(hex_digit(d)) == Some(d as nat));
        let p = pow16((n - 1) as nat);
        assert(p > 0) by {
            lemma_pow16_positive((n - 1) as nat);
        }
        vstd::arithmetic::div_mod::lemma_mod_breakdown(v as int, 16, p as int);
        assert(pow16(n) == 16 * p);
        assert((v / 16) % p * 16 + v % 16 == v % pow16(n)) by (nonlinear_arith)
            requires
                v % (16 * p) == 16 * ((v / 16) % p) + v % 16,
                pow16(n) == 16 * p,
        ;
    }
}

proof fn lemma_pow16_positive(n: nat)
    ensures
        pow16(n) > 0,
    decreases n,
{
    if n > 0 {
        lemma_pow16_positive((n - 1) as nat);
    }
}

/// The text the uuid crate writes for an identifier parses back to it.
pub proof fn lemma_uuid_text_parses(id: u128)
    ensures
        uuid_parse(uuid_text(id)) == Some(id),
{
    let h = hex_digits(id as nat, 32);
    lemma_hex_digits_len(id as nat, 32);
    lemma_hex_digits_chars(id as nat, 32);
    let t = uuid_text(id);
    assert(t.len() == 36);
    assert(t.subrange(0, 8) + t.subrange(9, 13) + t.subrange(14, 18) + t.subrange(19, 23)
        + t.subrange(24, 36) =~= h);
    lemma_hex_text_of_digits(id as nat, 32);
    assert(pow16(32) == 0x1_0000_0000_0000_0000_0000_0000_0000_0000) by {
        reveal_with_fuel(pow16, 33);
    }
    assert(id as nat % pow16(32) == id);
}

/// The nil UUID, used for the guest webview.
pub const NIL_ID: u128 = 0;

/// A fresh random (version 4) UUID, from `uuid::Uuid::new_v4`.
/// Nothing is stated of the value: it is random.
#[verifier::external_body]
pub fn new_id() -> u128 {
    uuid::Uuid::new_v4().as_u128()
}

/// The hyphenated text of a UUID, from `uuid::Uuid`'s `Display` (`to_string`), which the
/// uuid crate writes as lowercase hex digits in 8-4-4-4-12 groups.
#[verifier::external_body]
pub fn id_text(id: u128) -> (r: String)
    ensures
        r@ == uuid_text(id),
{
    uuid::Uuid::from_u128(id).to_string()
}

/// Parses a UUID text with `uuid::Uuid::parse_str`, whose parser dispatches on the length:
/// 32 hexadecimal digits; a hyphenated UUID; one in braces; one after a `urn:uuid:` prefix
/// matched in any ASCII case. Digits are taken in either case, big-endian, and the value is
/// the `u128` of those bytes. Stated: the result is `uuid_parse` of the text.
#[verifier::external_body]
pub fn parse_id(text: &str) -> (r: Option<u128>)
    ensures
        r == uuid_parse(text@),
{
    uuid::Uuid::parse_str(text).ok().map(|id| id.as_u128())
}

} // verus!
