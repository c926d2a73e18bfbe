//! Deterministic trace-level sampling.
//!
//! Samples on a trace id via a SHA-1 hash of its string form, so that every
//! record of one trace gets the same answer, on every machine.

use crate::trace_id::{spec_trace_id_str, TraceId};
use sha1::Digest;
use vstd::prelude::*;

verus! {

/// The SHA-1 digest of a character sequence's UTF-8 bytes: named result of
/// the sha1 crate's hasher, a function of the input alone.
pub uninterp spec fn sha1_of(s: Seq<char>) -> Seq<u8>;

/// Relies on sha1's Sha1::digest: hashes the UTF-8 bytes of `s`.
/// A SHA-1 digest is twenty bytes long.
#[verifier::external_body]
fn sha1_digest(s: &str) -> (r: Vec<u8>)
    ensures
        r@ == sha1_of(s@),
        r@.len() == 20,
{
    sha1::Sha1::digest(s.as_bytes()).to_vec()
}

/// The first four bytes of a digest, read as a big-endian integer.
pub open spec fn be_u32(d: Seq<u8>) -> int {
    d[0] * 0x1000000 + d[1] * 0x10000 + d[2] * 0x100 + d[3]
}

/// The sampling decision on a digest: accept when its leading four bytes,
/// big-endian, lie at or below the rate's share of the 32-bit range.
pub open spec fn spec_sample_decision(digest: Seq<u8>, rate: u32) -> bool
    recommends
        rate >= 1,
        digest.len() >= 4,
{
    be_u32(digest) <= u32::MAX as int / rate as int
}

/// Decide sampling from a digest, accepting roughly one trace in `rate`.
pub fn sample_decision(digest: &Vec<u8>, sample_rate: u32) -> (r: bool)
    requires
        sample_rate >= 1,
        digest@.len() >= 4,
    ensures
        r == spec_sample_decision(digest@, sample_rate),
{
    let upper_bound = u32::MAX / sample_rate;
    let v: u32 = (digest[0] as u32) * 0x1000000 + (digest[1] as u32) * 0x10000 + (digest[2]
        as u32) * 0x100 + (digest[3] as u32);
    v <= upper_bound
}

/// Sample deterministically on a trace id: hash its string form and decide
/// on the digest. Every record of one trace gets the same answer.
pub fn sample(sample_rate: u32, trace_id: &TraceId) -> (r: bool)
    requires
        sample_rate >= 1,
    ensures
        r == spec_sample_decision(sha1_of(spec_trace_id_str(*trace_id)), sample_rate),
{
    let s = (*trace_id).into_string();
    let digest = sha1_digest(s.as_str());
    sample_decision(&digest, sample_rate)
}

/// Whether a record with this trace id should be reported, under an
/// optional trace-level sample rate. With no rate configured, nothing is
/// reported.
pub fn should_report(sample_rate: Option<u32>, trace_id: &TraceId) -> (r: bool)
    requires
        match sample_rate {
            Some(n) => n >= 1,
            None => true,
        },
    ensures
        r == match sample_rate {
            Some(n) => spec_sample_decision(sha1_of(spec_trace_id_str(*trace_id)), n),
            None => false,
        },
{
    match sample_rate {
        Some(n) => sample(n, trace_id),
        None => false,
    }
}

} // verus!
