//! The integer side of embedding: the text hash the embedder is seeded
//! with, what text of an activity is queued for embedding, and the records
//! the indexing worker writes.

use vstd::prelude::*;
use vstd::arithmetic::power::pow;
use crate::storage::{Activity, Embedding, PendingEmbedding};
use crate::config::Settings;
use crate::search::{search_text, searchable_text};
use crate::processing::{cleaned, truncated, clean_text, truncate_for_embedding};
use crate::text::{utf8_len, chars_of, utf8_len_at_most};
use crate::external::{new_uuid_text, utc_now_timestamp, is_uuid_text};

verus! {

broadcast use vstd::string::group_string_axioms;

/// `b` to the power `e`, modulo 2^64 (what `u64::wrapping_pow` computes).
pub open spec fn pow_wrapped(b: u64, e: nat) -> u64 {
    (pow(b as int, e) % 0x1_0000_0000_0000_0000) as u64
}

proof fn lemma_pow_step(acc: int, base: int, x: nat)
    requires
        x > 0,
    ensures
        (if x % 2 == 1 {
            (acc * base) % 0x1_0000_0000_0000_0000
        } else {
            acc
        }) * pow((base * base) % 0x1_0000_0000_0000_0000, x / 2) % 0x1_0000_0000_0000_0000 == acc
            * pow(base, x) % 0x1_0000_0000_0000_0000,
{
    let m: int = 0x1_0000_0000_0000_0000;
    let k: nat = x / 2;
    let p = pow(base * base, k);
    let q = pow((base * base) % m, k);
    vstd::arithmetic::power::lemma_pow_multiplies(base, 2, k);
    vstd::arithmetic::power::lemma_square_is_pow2(base);
    assert(p == pow(base, 2 * k));
    vstd::arithmetic::power::lemma_pow_mod_noop(base * base, k, m);
    assert(q % m == p % m);
    if x % 2 == 1 {
        vstd::arithmetic::power::lemma_pow_adds(base, 2 * k, 1);
        vstd::arithmetic::power::lemma_pow1(base);
        assert(x == 2 * k + 1);
        assert(pow(base, x) == p * base);
        vstd::arithmetic::div_mod::lemma_mul_mod_noop_left(acc * base, q, m);
        vstd::arithmetic::div_mod::lemma_mul_mod_noop_right(acc * base, q, m);
        vstd::arithmetic::div_mod::lemma_mul_mod_noop_right(acc * base, p, m);
        assert(acc * (p * base) == (acc * base) * p) by (nonlinear_arith);
    } else {
        assert(x == 2 * k);
        vstd::arithmetic::div_mod::lemma_mul_mod_noop_right(acc, q, m);
        vstd::arithmetic::div_mod::lemma_mul_mod_noop_right(acc, p, m);
    }
}

/// Wrapping (modular) exponentiation, by repeated squaring.
pub fn wrapping_pow(b: u64, e: u32) -> (r: u64)
    ensures
        r == pow_wrapped(b, e as nat),
{
    let ghost m: int = 0x1_0000_0000_0000_0000;
    let mut acc: u64 = 1;
    let mut base: u64 = b;
    let mut exp: u32 = e;
    proof {
        vstd::arithmetic::power::lemma_pow0(b as int);
        assert(acc * pow(base as int, exp as nat) == pow(b as int, e as nat));
    }
    while exp > 0
        invariant
            m == 0x1_0000_0000_0000_0000,
            (acc * pow(base as int, exp as nat)) % m == pow(b as int, e as nat) % m,
        decreases exp,
    {
        proof {
            lemma_pow_step(acc as int, base as int, exp as nat);
        }
        if exp % 2 == 1 {
            acc = acc.wrapping_mul(base);
        }
        base = base.wrapping_mul(base);
        exp = exp / 2;
    }
    proof {
        vstd::arithmetic::power::lemma_pow0(base as int);
    }
    acc
}

/// `h` rotated left by five bits.
pub open spec fn rotl5(h: u64) -> u64 {
    (h << 5u64) | (h >> 59u64)
}

/// One step of the text hash: add the `i`-th byte times 31, raised to the
/// power `i` (as a `u32`), then rotate left by five bits; all modulo 2^64.
pub open spec fn hash_step(h: u64, byte: u8, i: int) -> u64 {
    let term = pow_wrapped((byte * 31) as u64, (i as u32) as nat);
    rotl5(((h + term) % 0x1_0000_0000_0000_0000) as u64)
}

/// The text hash of a byte string.
pub open spec fn hash_of(bytes: Seq<u8>) -> u64
    decreases bytes.len(),
{
    if bytes.len() == 0 {
        0
    } else {
        hash_step(hash_of(bytes.drop_last()), bytes.last(), bytes.len() - 1)
    }
}

/// The hash the embedder is seeded with, over the UTF-8 bytes of `text`.
pub fn simple_hash(text: &str) -> (h: u64)
    ensures
        h == hash_of(vstd::utf8::encode_utf8(text@)),
{
    let bytes = text.as_bytes();
    let ghost bs = bytes@;
    let mut hash: u64 = 0;
    let mut i: usize = 0;
    while i < bytes.len()
        invariant
            bs == bytes@,
            i <= bytes.len(),
            hash == hash_of(bs.take(i as int)),
        decreases bytes.len() - i,
    {
        let byte = bytes[i];
        proof {
            assert(bs.take(i + 1).drop_last() =~= bs.take(i as int));
            assert(bs.take(i + 1).last() == byte);
        }
        let term = wrapping_pow((byte as u64) * 31, i as u32);
        hash = hash.wrapping_add(term);
        hash = (hash << 5u64) | (hash >> 59u64);
        i += 1;
    }
    assert(bs.take(bytes.len() as int) =~= bs);
    hash
}

/// The text of an activity that is queued for embedding: its searchable
/// text, cleaned, when that is longer than ten bytes, cut for the embedder
/// to 5000 chars.
pub open spec fn embedding_text(a: Activity) -> Option<Seq<char>> {
    match search_text(a) {
        Some(t) => if utf8_len(cleaned(t)) > 10 {
            Some(truncated(cleaned(t), 5000))
        } else {
            None
        },
        None => None,
    }
}

/// The queue entry for an activity's text, if it has text worth embedding.
pub fn pending_embedding_for(a: &Activity) -> (r: Option<PendingEmbedding>)
    ensures
        r is Some <==> embedding_text(*a) is Some,
        r matches Some(p) ==> {
            &&& p.content@ == embedding_text(*a)->0
            &&& p.activity_id@ == a.id@
            &&& is_uuid_text(p.id@)
            &&& p.priority == 0
            &&& p.retry_count == 0
        },
{
    match searchable_text(a) {
        Some(text) => {
            let c = clean_text(text.as_str());
            let cv = chars_of(c.as_str());
            if utf8_len_at_most(&cv, 10) {
                None
            } else {
                let t = truncate_for_embedding(c.as_str(), 5000);
                Some(PendingEmbedding::new(a.id.as_str(), t.as_str()))
            }
        },
        None => None,
    }
}

/// What the indexing worker does in one round.
#[derive(Debug, Clone, Copy, PartialEq, Eq)]
pub enum IndexingRound {
    /// Capture is off: wait five seconds.
    Pause,
    /// Take up to this many queued entries.
    Fetch(usize),
}

/// One round of the indexing worker: fetch a batch while capture is on.
/// Pausing stops capture, not the indexing of what was captured.
pub fn plan_indexing_round(settings: &Settings) -> (r: IndexingRound)
    ensures
        r == if settings.activity_capture.enabled {
            IndexingRound::Fetch(settings.performance.embedding_batch_size)
        } else {
            IndexingRound::Pause
        },
{
    if settings.activity_capture.enabled {
        IndexingRound::Fetch(settings.performance.embedding_batch_size)
    } else {
        IndexingRound::Pause
    }
}

/// The embedding record for a queue entry whose vector is `vector_bytes`:
/// made by the `memoria-simple` model, 384 dimensions, with a new random id,
/// stamped now.
pub fn embedding_record(pending: &PendingEmbedding, vector_bytes: Vec<u8>) -> (e: Embedding)
    ensures
        is_uuid_text(e.id@),
        e.activity_id@ == pending.activity_id@,
        e.embedding@ == vector_bytes@,
        e.model_name@ == "memoria-simple"@,
        e.dimensions == 384,
{
    Embedding {
        id: new_uuid_text(),
        activity_id: pending.activity_id.clone(),
        embedding: vector_bytes,
        model_name: "memoria-simple".to_owned(),
        dimensions: 384,
        created_at: utc_now_timestamp(),
    }
}

} // verus!
