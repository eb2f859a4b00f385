//! W3C `traceparent` headers.
use vstd::prelude::*;
use vstd::string::*;
use crate::text::{parse_hex, split_dash, split_on_dash, str_views, parse_hex_u8};

verus! {

/// `opentelemetry::trace::TraceId::from_hex`, whose body is
/// `u128::from_str_radix(hex, 16)`: the contract claims the id is the base-16
/// value of `hex` when `hex` parses and fits in 128 bits, and that it fails
/// otherwise.
#[verifier::external_body]
fn trace_id_from_hex(hex: &str) -> (r: Option<u128>)
    ensures
        match parse_hex(hex@, u128::MAX as nat) {
            Some(v) => r == Some(v as u128),
            None => r is None,
        },
{
    match opentelemetry::trace::TraceId::from_hex(hex) {
        Ok(id) => Some(u128::from_be_bytes(id.to_bytes())),
        Err(_) => None,
    }
}

/// `opentelemetry::trace::SpanId::from_hex`, whose body is
/// `u64::from_str_radix(hex, 16)`: the contract claims the id is the base-16
/// value of `hex` when `hex` parses and fits in 64 bits, and that it fails
/// otherwise.
#[verifier::external_body]
fn span_id_from_hex(hex: &str) -> (r: Option<u64>)
    ensures
        match parse_hex(hex@, u64::MAX as nat) {
            Some(v) => r == Some(v as u64),
            None => r is None,
        },
{
    match opentelemetry::trace::SpanId::from_hex(hex) {
        Ok(id) => Some(u64::from_be_bytes(id.to_bytes())),
        Err(_) => None,
    }
}

/// The fields of a W3C `traceparent` header:
/// `{version}-{trace_id}-{span_id}-{trace_flags}`, all in base 16.
#[derive(Debug, Clone, Copy, PartialEq, Eq)]
pub struct TraceParent {
    pub trace_id: u128,
    pub span_id: u64,
    pub flags: u8,
}

/// What a `traceparent` header carries: `None` unless it has exactly four
/// `-`-separated pieces, the first being the version `00`, and the others
/// parse in base 16 as a 128-bit trace id, a 64-bit span id and a byte of
/// trace flags.
pub open spec fn traceparent_of(header: Seq<char>) -> Option<TraceParent> {
    let parts = split_dash(header);
    if parts.len() != 4 || parts[0] != "00"@ {
        None
    } else {
        match (
            parse_hex(parts[1], u128::MAX as nat),
            parse_hex(parts[2], u64::MAX as nat),
            parse_hex(parts[3], 255),
        ) {
            (Some(t), Some(sp), Some(f)) => Some(
                TraceParent { trace_id: t as u128, span_id: sp as u64, flags: f as u8 },
            ),
            _ => None,
        }
    }
}

/// Parses a W3C `traceparent` header (`00-{trace_id}-{span_id}-{trace_flags}`).
///
/// Returns `None` if the header is malformed.
pub fn parse_traceparent(traceparent: &str) -> (r: Option<TraceParent>)
    ensures
        r == traceparent_of(traceparent@),
{
    let parts = split_on_dash(traceparent);
    proof {
        assert(str_views(parts@).len() == parts@.len());
    }
    if parts.len() != 4 {
        return None;
    }
    proof {
        assert(str_views(parts@)[0] == parts@[0]@);
        assert(str_views(parts@)[1] == parts@[1]@);
        assert(str_views(parts@)[2] == parts@[2]@);
        assert(str_views(parts@)[3] == parts@[3]@);
    }
    let version = String::from_str(parts[0]);
    let expected = String::from_str("00");
    if version != expected {
        return None;
    }
    let trace_id = match trace_id_from_hex(parts[1]) {
        Some(t) => t,
        None => return None,
    };
    let span_id = match span_id_from_hex(parts[2]) {
        Some(sp) => sp,
        None => return None,
    };
    let flags = match parse_hex_u8(parts[3]) {
        Some(f) => f,
        None => return None,
    };
    Some(TraceParent { trace_id, span_id, flags })
}

/// A header that does not have exactly four `-`-separated pieces carries no
/// trace context, whatever its pieces hold.
pub proof fn lemma_malformed_header_rejected(header: Seq<char>)
    requires
        split_dash(header).len() != 4,
    ensures
        traceparent_of(header) is None,
{
}

} // verus!
