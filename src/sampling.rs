//! Deterministic bucket sampling.
//!
//! A randomization value and a namespace are hashed with 32-bit FNV-1a
//! (offset basis 2166136261, prime 16777619) over their UTF-8 bytes, joined
//! by a single `:` byte. The hash modulo the bucket total is the user's
//! bucket. This hash is fixed: changing it would move every user to another
//! bucket.
use vstd::prelude::*;
use vstd::utf8::encode_utf8;

verus! {

/// FNV-1a 32-bit offset basis.
pub const FNV_OFFSET: u32 = 2166136261;

/// FNV-1a 32-bit prime.
pub const FNV_PRIME: u32 = 16777619;

/// The byte that joins the randomization value and the namespace.
pub const SEPARATOR: u8 = 58;

/// One FNV-1a round: xor in the byte, then multiply modulo 2^32.
pub open spec fn fnv_step(h: u32, b: u8) -> u32 {
    (((h ^ (b as u32)) as int * FNV_PRIME as int) % 0x1_0000_0000) as u32
}

/// FNV-1a over `bytes`, starting from the state `h`.
pub open spec fn fnv_from(h: u32, bytes: Seq<u8>) -> u32
    decreases bytes.len(),
{
    if bytes.len() == 0 {
        h
    } else {
        fnv_step(fnv_from(h, bytes.drop_last()), bytes.last())
    }
}

/// The stable hash of a randomization value and a namespace.
pub open spec fn bucket_hash(value: Seq<char>, namespace: Seq<char>) -> u32 {
    fnv_from(
        fnv_step(fnv_from(FNV_OFFSET, encode_utf8(value)), SEPARATOR),
        encode_utf8(namespace),
    )
}

/// The bucket of a randomization value in a namespace, in `[0, total)`.
pub open spec fn bucket_of(value: Seq<char>, namespace: Seq<char>, total: u32) -> int {
    bucket_hash(value, namespace) as int % total as int
}

/// Whether `bucket` lies in the range of `count` buckets that begins at
/// `start`, where the range may wrap past `total` back to zero.
pub open spec fn in_range(bucket: int, start: u32, count: u32, total: u32) -> bool {
    total > 0 && (bucket - start as int) % (total as int) < count as int
}

/// The sampling decision for a randomization value.
pub open spec fn bucket_decision(
    value: Seq<char>,
    namespace: Seq<char>,
    start: u32,
    count: u32,
    total: u32,
) -> bool {
    total > 0 && in_range(bucket_of(value, namespace, total), start, count, total)
}

fn fnv_extend(h: u32, bytes: &[u8]) -> (r: u32)
    ensures
        r == fnv_from(h, bytes@),
{
    let mut acc: u32 = h;
    let mut i: usize = 0;
    while i < bytes.len()
        invariant
            i <= bytes@.len(),
            acc == fnv_from(h, bytes@.subrange(0, i as int)),
        decreases bytes@.len() - i,
    {
        assert(bytes@.subrange(0, i as int + 1).drop_last() =~= bytes@.subrange(0, i as int));
        acc = fnv_round(acc, bytes[i]);
        i = i + 1;
    }
    assert(bytes@.subrange(0, i as int) =~= bytes@);
    acc
}

fn fnv_round(h: u32, b: u8) -> (r: u32)
    ensures
        r == fnv_step(h, b),
{
    let x: u32 = h ^ (b as u32);
    let wide: u64 = (x as u64) * (FNV_PRIME as u64);
    (wide % 0x1_0000_0000u64) as u32
}

/// The stable hash of `value` and `namespace`.
pub fn hash_in_namespace(value: &str, namespace: &str) -> (r: u32)
    ensures
        r == bucket_hash(value@, namespace@),
{
    let h = fnv_extend(FNV_OFFSET, value.as_bytes());
    let h = fnv_round(h, SEPARATOR);
    fnv_extend(h, namespace.as_bytes())
}

/// Whether `value` falls into the `count` buckets that start at `start`, out
/// of `total` buckets, in `namespace`. The range wraps around past `total`.
/// With no buckets at all (`total == 0`) nothing is in range.
pub fn in_bucket(value: &str, namespace: &str, start: u32, count: u32, total: u32) -> (r: bool)
    ensures
        r == bucket_decision(value@, namespace@, start, count, total),
{
    if total == 0 {
        return false;
    }
    let bucket: u32 = hash_in_namespace(value, namespace) % total;
    let offset: u64 = ((bucket as u64) + (total as u64) - ((start % total) as u64)) % (total as u64);
    proof {
        lemma_wrap_offset(bucket as int, start as int, total as int);
    }
    offset < count as u64
}

proof fn lemma_wrap_offset(b: int, s: int, t: int)
    requires
        t > 0,
        0 <= b < t,
        s >= 0,
    ensures
        (b + t - s % t) % t == (b - s) % t,
{
    vstd::arithmetic::div_mod::lemma_fundamental_div_mod(s, t);
    let q = s / t;
    assert(b + t - s % t == (b - s) + (q + 1) * t) by (nonlinear_arith)
        requires s == t * q + s % t;
    vstd::arithmetic::div_mod::lemma_mod_multiples_vanish(q + 1, b - s, t);
}

/// Sampling depends on the values of its inputs alone: strings that read the
/// same give the same decision, whenever and wherever it is computed.
pub proof fn lemma_sampling_deterministic(
    value1: &str,
    value2: &str,
    namespace1: &str,
    namespace2: &str,
    start: u32,
    count: u32,
    total: u32,
)
    requires
        value1@ == value2@,
        namespace1@ == namespace2@,
    ensures
        bucket_decision(value1@, namespace1@, start, count, total)
            == bucket_decision(value2@, namespace2@, start, count, total),
{
}

} // verus!
