//! Span identifiers that can be carried across process boundaries.

use crate::digits::{
    all_digits, dec_str, dec_val, is_digit, lemma_dec_str_digits, lemma_dec_str_val, parse_dec_u64,
    u64_to_dec,
};
use vstd::prelude::*;
use vstd::string::StrSliceExecFns;
use vstd::string::StringExecFns;

verus! {

/// Unique span identifier.
///
/// Pairs the host framework's per-span handle with a process-instance nonce,
/// so that span ids from different processes never collide. The string
/// encoding is `"{handle}-{nonce}"` in base ten.
#[derive(Clone, Copy, PartialEq, Eq, Hash, Debug, Structural)]
pub struct SpanId {
    /// The host framework's span handle (never zero).
    pub tracing_id: u64,
    /// The process-instance nonce fixed at layer construction.
    pub instance_id: u64,
}

/// Errors from parsing a `SpanId` string.
#[derive(Clone, Copy, PartialEq, Eq, Hash, Debug, Structural)]
pub enum ParseSpanIdError {
    /// A part was empty, held a character other than a digit, or overflowed.
    ParseIntError,
    /// The handle part was zero, which the host framework reserves.
    TryFromIntError,
}

/// The string form of a span id: handle, dash, nonce.
pub open spec fn spec_span_id_str(s: SpanId) -> Seq<char> {
    dec_str(s.tracing_id as nat) + seq!['-'] + dec_str(s.instance_id as nat)
}

/// Index of the first dash in `s`, or `s.len()` if there is none.
pub open spec fn first_dash(s: Seq<char>) -> int
    decreases s.len(),
{
    if s.len() == 0 {
        0
    } else if s[0] == '-' {
        0
    } else {
        1 + first_dash(s.drop_first())
    }
}

/// What parsing a span-id string yields: the two decimal parts around the
/// first dash, provided each is one or more digits fitting in 64 bits, and
/// the handle part is nonzero.
pub open spec fn spec_span_id_from(s: Seq<char>) -> Result<SpanId, ParseSpanIdError> {
    let d = first_dash(s);
    if d == s.len() {
        Err(ParseSpanIdError::ParseIntError)
    } else {
        let a = s.take(d);
        let b = s.subrange(d + 1, s.len() as int);
        if all_digits(a) && a.len() >= 1 && dec_val(a) <= u64::MAX && all_digits(b) && b.len() >= 1
            && dec_val(b) <= u64::MAX {
            if dec_val(a) == 0 {
                Err(ParseSpanIdError::TryFromIntError)
            } else {
                Ok(SpanId { tracing_id: dec_val(a) as u64, instance_id: dec_val(b) as u64 })
            }
        } else {
            Err(ParseSpanIdError::ParseIntError)
        }
    }
}

/// `first_dash` is the least index holding a dash.
proof fn lemma_first_dash_at(s: Seq<char>, i: int)
    requires
        0 <= i <= s.len(),
        forall|j: int| 0 <= j < i ==> s[j] != '-',
        i < s.len() ==> s[i] == '-',
    ensures
        first_dash(s) == i,
    decreases s.len(),
{
    if s.len() == 0 {
    } else if s[0] == '-' {
        assert(i == 0);
    } else {
        assert(i > 0) by {
            assert(0 < s.len() ==> s[0] != '-' || i != 0);
        }
        let t = s.drop_first();
        assert forall|j: int| 0 <= j < i - 1 implies t[j] != '-' by {
            assert(t[j] == s[j + 1]);
        }
        assert(i - 1 < t.len() ==> t[i - 1] == '-');
        lemma_first_dash_at(t, i - 1);
    }
}

/// Index of the first dash in `s`, or its length if there is none.
fn find_dash(s: &str) -> (r: usize)
    ensures
        r == first_dash(s@),
        r <= s@.len(),
{
    let len: usize = s.unicode_len();
    let mut i: usize = 0;
    while i < len && s.get_char(i) != '-'
        invariant
            0 <= i <= len,
            len == s@.len(),
            forall|j: int| 0 <= j < i ==> s@[j] != '-',
        decreases len - i,
    {
        i += 1;
    }
    proof {
        lemma_first_dash_at(s@, i as int);
    }
    i
}

impl SpanId {
    /// Metadata field name recommended for carrying `SpanId` values
    /// across process boundaries.
    pub fn meta_field_name() -> (r: &'static str)
        ensures
            r@ == "span-id"@,
    {
        "span-id"
    }

    /// Pair a host-framework handle with an instance nonce.
    pub fn from_id(id: u64, instance_id: u64) -> (r: SpanId)
        ensures
            r == (SpanId { tracing_id: id, instance_id }),
    {
        SpanId { tracing_id: id, instance_id }
    }

    /// Attempt to parse a `SpanId` from its `"{handle}-{nonce}"` string form.
    pub fn from_string(s: &str) -> (r: Result<SpanId, ParseSpanIdError>)
        ensures
            r == spec_span_id_from(s@),
    {
        let len: usize = s.unicode_len();
        let d: usize = find_dash(s);
        if d >= len {
            return Err(ParseSpanIdError::ParseIntError);
        }
        let a = s.substring_char(0, d);
        let b = s.substring_char(d + 1, len);
        proof {
            assert(a@ =~= s@.take(d as int));
        }
        match (parse_dec_u64(a), parse_dec_u64(b)) {
            (Some(h), Some(n)) => {
                if h == 0 {
                    Err(ParseSpanIdError::TryFromIntError)
                } else {
                    Ok(SpanId { tracing_id: h, instance_id: n })
                }
            },
            _ => Err(ParseSpanIdError::ParseIntError),
        }
    }

    /// The `"{handle}-{nonce}"` string form of this span id.
    pub fn into_string(self) -> (r: String)
        ensures
            r@ == spec_span_id_str(self),
    {
        proof {
            reveal_strlit("-");
        }
        let mut s = u64_to_dec(self.tracing_id);
        s.append("-");
        let n = u64_to_dec(self.instance_id);
        s.append(n.as_str());
        proof {
            assert("-"@ =~= seq!['-']);
        }
        s
    }
}

/// Formatting a `SpanId` with nonzero handle and nonce and parsing the
/// result yields the same id.
pub proof fn lemma_span_id_round_trip(s: SpanId)
    requires
        s.tracing_id != 0,
        s.instance_id != 0,
    ensures
        spec_span_id_from(spec_span_id_str(s)) == Ok::<SpanId, ParseSpanIdError>(s),
{
    let a = dec_str(s.tracing_id as nat);
    let b = dec_str(s.instance_id as nat);
    let full = a + seq!['-'] + b;
    lemma_dec_str_digits(s.tracing_id as nat);
    lemma_dec_str_val(s.tracing_id as nat);
    lemma_dec_str_digits(s.instance_id as nat);
    lemma_dec_str_val(s.instance_id as nat);
    assert forall|j: int| 0 <= j < a.len() implies full[j] != '-' by {
        assert(full[j] == a[j]);
        assert(is_digit(a[j]));
    }
    assert(full[a.len() as int] == '-');
    lemma_first_dash_at(full, a.len() as int);
    assert(full.take(a.len() as int) =~= a);
    assert(full.subrange(a.len() as int + 1, full.len() as int) =~= b);
}

} // verus!
