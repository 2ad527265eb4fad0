//! Desktop notification identity: which account a notification opens, and the stable
//! identifier that lets a repeated notification replace the previous one.

use vstd::prelude::*;
use vstd::string::StringSliceAdditionalSpecFns;

use crate::ids::{id_text, parse_id, uuid_parse, uuid_text};
use crate::text::{decimal, push_decimal, push_str, string_of};

verus! {

/// FNV-1a 64-bit offset basis.
pub const FNV_OFFSET: u64 = 0xcbf2_9ce4_8422_2325;

/// FNV-1a 64-bit prime.
pub const FNV_PRIME: u64 = 0x0000_0100_0000_01b3;

/// One FNV-1a step: xor in the byte, then multiply by the prime modulo 2^64.
pub open spec fn fnv_step(hash: u64, byte: u8) -> u64 {
    (((hash ^ (byte as u64)) as nat * FNV_PRIME as nat) % 0x1_0000_0000_0000_0000) as u64
}

/// FNV-1a of `bytes` starting from `hash`.
pub open spec fn fnv(hash: u64, bytes: Seq<u8>) -> u64
    decreases bytes.len(),
{
    if bytes.len() == 0 {
        hash
    } else {
        fnv_step(fnv(hash, bytes.drop_last()), bytes.last())
    }
}

/// The bytes hashed for a notification: the UTF-8 title, a zero byte, the UTF-8 body.
pub open spec fn notification_bytes(title: &str, body: &str) -> Seq<u8> {
    title.spec_bytes() + seq![0u8] + body.spec_bytes()
}

fn fnv_extend(hash: u64, bytes: &[u8]) -> (r: u64)
    ensures
        r == fnv_extend_spec(hash, bytes@),
{
    let mut h = hash;
    let mut i: usize = 0;
    assert(bytes@.skip(0) =~= bytes@);
    while i < bytes.len()
        invariant
            0 <= i <= bytes@.len(),
            fnv_extend_spec(hash, bytes@) == fnv_extend_spec(h, bytes@.skip(i as int)),
        decreases bytes.len() - i,
    {
        let b = bytes[i];
        proof {
            lemma_fnv_extend_skip(h, bytes@, i as int);
        }
        h = (h ^ (b as u64)).wrapping_mul(FNV_PRIME);
        i = i + 1;
    }
    proof {
        assert(bytes@.skip(i as int) =~= Seq::<u8>::empty());
    }
    h
}

/// FNV-1a of `bytes` starting from `hash`, read from the front.
pub open spec fn fnv_extend_spec(hash: u64, bytes: Seq<u8>) -> u64
    decreases bytes.len(),
{
    if bytes.len() == 0 {
        hash
    } else {
        fnv_extend_spec(fnv_step(hash, bytes[0]), bytes.drop_first())
    }
}

proof fn lemma_fnv_extend_skip(h: u64, bytes: Seq<u8>, i: int)
    requires
        0 <= i < bytes.len(),
    ensures
        fnv_extend_spec(h, bytes.skip(i)) == fnv_extend_spec(fnv_step(h, bytes[i]), bytes.skip(i + 1)),
{
    assert(bytes.skip(i).drop_first() =~= bytes.skip(i + 1));
}

/// Reading the bytes from the front or from the back gives the same hash.
pub proof fn lemma_fnv_front_back(h: u64, bytes: Seq<u8>)
    ensures
        fnv_extend_spec(h, bytes) == fnv(h, bytes),
    decreases bytes.len(),
{
    if bytes.len() > 0 {
        lemma_fnv_front_back(fnv_step(h, bytes[0]), bytes.drop_first());
        lemma_fnv_prepend(h, bytes);
    }
}

proof fn lemma_fnv_prepend(h: u64, bytes: Seq<u8>)
    requires
        bytes.len() > 0,
    ensures
        fnv(h, bytes) == fnv(fnv_step(h, bytes[0]), bytes.drop_first()),
    decreases bytes.len(),
{
    if bytes.len() > 1 {
        lemma_fnv_prepend(h, bytes.drop_last());
        assert(bytes.drop_last().drop_first() =~= bytes.drop_first().drop_last());
        assert(bytes.drop_first().last() == bytes.last());
        assert(bytes.drop_last()[0] == bytes[0]);
    } else {
        assert(bytes.drop_first() =~= Seq::<u8>::empty());
        assert(bytes.drop_last() =~= Seq::<u8>::empty());
        assert(fnv(h, bytes.drop_last()) == h);
        assert(bytes.last() == bytes[0]);
    }
}

proof fn lemma_fnv_append(h: u64, a: Seq<u8>, b: Seq<u8>)
    ensures
        fnv(h, a + b) == fnv(fnv(h, a), b),
    decreases b.len(),
{
    if b.len() == 0 {
        assert(a + b =~= a);
    } else {
        lemma_fnv_append(h, a, b.drop_last());
        assert((a + b).drop_last() =~= a + b.drop_last());
    }
}

/// The FNV-1a hash of a notification's title and body.
pub fn stable_text_hash(title: &str, body: &str) -> (r: u64)
    ensures
        r == fnv(FNV_OFFSET, notification_bytes(title, body)),
{
    let t = title.as_bytes();
    let b = body.as_bytes();
    let h1 = fnv_extend(FNV_OFFSET, t);
    let h2 = (h1 ^ 0u64).wrapping_mul(FNV_PRIME);
    let h3 = fnv_extend(h2, b);
    proof {
        lemma_fnv_front_back(FNV_OFFSET, t@);
        lemma_fnv_front_back(h2, b@);
        assert(h2 == fnv_step(h1, 0u8)) by {
            assert((0u8 as u64) == 0u64);
        }
        assert(fnv(FNV_OFFSET, t@ + seq![0u8]) == h2) by {
            lemma_fnv_append(FNV_OFFSET, t@, seq![0u8]);
            assert(seq![0u8].drop_last() =~= Seq::<u8>::empty());
            assert(fnv(h1, Seq::<u8>::empty()) == h1);
            assert(fnv(h1, seq![0u8]) == fnv_step(h1, 0u8));
        }
        lemma_fnv_append(FNV_OFFSET, t@ + seq![0u8], b@);
    }
    h3
}

/// The notification identifier: `openwhatsapp-<account id>-<hash of title and body>`.
pub open spec fn notification_id_of(account_id: u128, title: &str, body: &str) -> Seq<char> {
    "openwhatsapp-"@ + uuid_text(account_id) + "-"@ + decimal(
        fnv(FNV_OFFSET, notification_bytes(title, body)) as nat,
    )
}

/// The identifier a desktop notification is sent under.
pub fn notification_id(account_id: u128, title: &str, body: &str) -> (r: String)
    ensures
        r@ == notification_id_of(account_id, title, body),
{
    let mut out: Vec<char> = Vec::new();
    push_str(&mut out, "openwhatsapp-");
    push_str(&mut out, id_text(account_id).as_str());
    push_str(&mut out, "-");
    push_decimal(stable_text_hash(title, body), &mut out);
    string_of(&out)
}

/// The account a clicked notification opens, from the action's string parameter.
pub fn notification_target(parameter: Option<&str>) -> (r: Option<u128>)
    ensures
        match parameter {
            Some(p) => r == uuid_parse(p@) && forall|v: u128| p@ == uuid_text(v) ==> r == Some(v),
            None => r is None,
        },
{
    match parameter {
        Some(p) => {
            proof {
                assert forall|v: u128| p@ == uuid_text(v) implies uuid_parse(p@) == Some(v) by {
                    crate::ids::lemma_uuid_text_parses(v);
                }
            }
            parse_id(p)
        },
        None => None,
    }
}

} // verus!
