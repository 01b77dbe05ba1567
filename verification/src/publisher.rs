//! The publisher's decision core: mint a correlation id, serialize the
//! envelope, and fix the message metadata for the outbound publish.
//!
//! The transport performs exactly one publish attempt per request; a retry
//! would break at-most-once delivery because the handler could not tell a
//! duplicate response from the intended one.

use crate::codec::{encode_envelope, spec_encode, wf_wire, wire_view, EncodeError};
use crate::events::HttpReq;
use vstd::prelude::*;

verus! {

/// A lower-case hex digit.
pub open spec fn is_lower_hex(c: char) -> bool {
    48 <= c as u32 <= 57 || 97 <= c as u32 <= 102
}

/// The canonical hyphenated form of a freshly minted correlation id:
/// thirty-six characters, hyphens at positions 8, 13, 18 and 23,
/// lower-case hex digits elsewhere, and the version nibble `4`.
pub open spec fn is_correlation_id(s: Seq<char>) -> bool {
    &&& s.len() == 36
    &&& s[8] == '-'
    &&& s[13] == '-'
    &&& s[18] == '-'
    &&& s[23] == '-'
    &&& forall|i: int|
        0 <= i < 36 && i != 8 && i != 13 && i != 18 && i != 23 ==> is_lower_hex(#[trigger] s[i])
    &&& s[14] == '4'
}

/// Relies on `uuid::Uuid::new_v4` and the hyphenated lower-case rendering
/// of its `Display` form: a fresh version-4 id prints as 36 characters
/// with hyphens at positions 8, 13, 18 and 23, lower-case hex digits
/// elsewhere, and `4` as the version nibble.  The value itself is random;
/// nothing more is assumed of it.
#[verifier::external_body]
fn new_v4_string() -> (r: String)
    ensures
        is_correlation_id(r@),
{
    uuid::Uuid::new_v4().to_string()
}

/// Mints a fresh random correlation id in canonical hyphenated form.
pub fn mint_correlation_id() -> (r: String)
    ensures
        is_correlation_id(r@),
{
    new_v4_string()
}

/// The ASCII decimal digits of `n`, most significant first.
pub open spec fn dec_bytes(n: nat) -> Seq<u8>
    decreases n,
{
    if n < 10 {
        seq![(48 + n) as u8]
    } else {
        dec_bytes(n / 10) + seq![(48 + n % 10) as u8]
    }
}

/// Appends the decimal digits of `n`.
fn push_decimal(out: &mut Vec<u8>, n: u64)
    ensures
        final(out)@ == old(out)@ + dec_bytes(n as nat),
    decreases n,
{
    if n >= 10 {
        push_decimal(out, n / 10);
    }
    out.push(48 + (n % 10) as u8);
    proof {
        assert(final(out)@ =~= old(out)@ + dec_bytes(n as nat));
    }
}

/// The message expiration: the publish instant plus the 120-second TTL,
/// in whole seconds since the epoch, as ASCII decimal text.
pub fn expiration_text(now_secs: u64) -> (r: Vec<u8>)
    requires
        now_secs + 120 <= u64::MAX,
    ensures
        r@ == dec_bytes((now_secs + 120) as nat),
{
    let mut out: Vec<u8> = Vec::new();
    push_decimal(&mut out, now_secs + 120);
    out
}

/// Everything the transport needs for the one outbound publish: the
/// serialized envelope and its message metadata.
pub struct OutboundMessage {
    pub payload: Vec<u8>,
    pub message_id: String,
    pub content_type: &'static str,
    pub delivery_mode: u8,
    pub expiration: Vec<u8>,
    pub routing_key: &'static str,
}

/// Builds the outbound message for one request: a fresh correlation id,
/// the envelope bytes, octet-stream content, non-persistent delivery, and
/// the publish-time-plus-TTL expiration.  Fails exactly when the envelope
/// cannot be serialized.
pub fn prepare_publish(req: &HttpReq, now_secs: u64) -> (r: Result<OutboundMessage, EncodeError>)
    requires
        now_secs + 120 <= u64::MAX,
    ensures
        r is Ok <==> wf_wire(wire_view(req)),
        r matches Ok(m) ==> m.payload@ == spec_encode(wire_view(req)) && is_correlation_id(
            m.message_id@,
        ) && m.content_type@ == "application/octet-stream"@ && m.delivery_mode == 1
            && m.expiration@ == dec_bytes((now_secs + 120) as nat) && m.routing_key@
            == "http.requests"@,
{
    let payload = match encode_envelope(req) {
        Ok(p) => p,
        Err(e) => {
            return Err(e);
        },
    };
    let message_id = mint_correlation_id();
    let expiration = expiration_text(now_secs);
    Ok(
        OutboundMessage {
            payload,
            message_id,
            content_type: "application/octet-stream",
            delivery_mode: 1,
            expiration,
            routing_key: "http.requests",
        },
    )
}

} // verus!
