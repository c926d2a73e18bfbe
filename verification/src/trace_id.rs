//! Distributed trace identifiers.

use crate::digits::{
    all_digits, dec_str, dec_val, lemma_dec_str_digits, lemma_dec_str_val, parse_dec, u128_to_dec,
};
use crate::entropy::random_u128;
use vstd::prelude::*;

verus! {

/// A distributed trace identifier.
///
/// Uniquely identifies a single distributed (potentially multi-process)
/// trace. An opaque 128-bit value whose decimal string encoding round-trips
/// losslessly.
#[derive(Clone, Copy, PartialEq, Eq, Hash, Debug, Structural)]
pub struct TraceId(pub u128);

/// What parsing a trace-id string yields: the decimal value of the string,
/// when it is one or more digits and fits in 128 bits.
pub open spec fn spec_trace_id_from(s: Seq<char>) -> Option<TraceId> {
    if all_digits(s) && s.len() >= 1 && dec_val(s) <= u128::MAX {
        Some(TraceId(dec_val(s) as u128))
    } else {
        None
    }
}

/// The decimal string form of a trace id.
pub open spec fn spec_trace_id_str(t: TraceId) -> Seq<char> {
    dec_str(t.0 as nat)
}

impl TraceId {
    /// Metadata field name recommended for carrying `TraceId` values
    /// across process boundaries.
    pub fn meta_field_name() -> (r: &'static str)
        ensures
            r@ == "trace-id"@,
    {
        "trace-id"
    }

    /// Attempt to parse a `TraceId` from its decimal string form.
    pub fn from_string(s: &str) -> (r: Option<TraceId>)
        ensures
            r == spec_trace_id_from(s@),
    {
        match parse_dec(s) {
            Some(v) => Some(TraceId(v)),
            None => None,
        }
    }

    /// The decimal string form of this trace id.
    pub fn into_string(self) -> (r: String)
        ensures
            r@ == spec_trace_id_str(self),
    {
        u128_to_dec(self.0)
    }

    /// Generate a fresh trace id from the process-local random source.
    pub fn new() -> TraceId {
        TraceId(random_u128())
    }

    /// Generate a fresh trace id from the process-local random source.
    pub fn generate() -> TraceId {
        TraceId::new()
    }
}

impl Default for TraceId {
    /// A freshly generated trace id.
    fn default() -> TraceId {
        TraceId::new()
    }
}

impl From<u128> for TraceId {
    fn from(u: u128) -> (r: TraceId) {
        TraceId(u)
    }
}

impl vstd::std_specs::convert::FromSpecImpl<u128> for TraceId {
    open spec fn obeys_from_spec() -> bool {
        true
    }

    open spec fn from_spec(u: u128) -> TraceId {
        TraceId(u)
    }
}

/// Formatting a `TraceId` and parsing the result yields the same id.
pub proof fn lemma_trace_id_round_trip(t: TraceId)
    ensures
        spec_trace_id_from(spec_trace_id_str(t)) == Some(t),
{
    lemma_dec_str_digits(t.0 as nat);
    lemma_dec_str_val(t.0 as nat);
}

} // verus!
