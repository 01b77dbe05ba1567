//! The proxy handler's decision core: what one HTTP call does, step by
//! step, and which HTTP response each outcome maps to.
//!
//! The protocol for one request is a state machine: encode the envelope,
//! subscribe under a fresh correlation id, publish, await delivery or the
//! timeout, unsubscribe, and only then respond.  The runtime performs the
//! actions; [`proxy_step`] decides them, and the laws at the end of this
//! module show that every run publishes at most once and never responds
//! before its one unsubscribe.

use crate::broker::Event;
use crate::json::{json_escape, lemma_encode_utf8_concat, push_json_escaped, push_text};
use crate::responses::errors::spec_error_json;
use crate::responses::statuses::spec_statuses_json;
use vstd::prelude::*;
use vstd::string::{StrSliceExecFns, StringExecFns};
use vstd::utf8::encode_utf8;

verus! {

/// The content type carried by every gateway response.
pub const JSON_API_TYPE: &'static str = "application/vnd.api+json";

/// One HTTP response, ready for the server layer to write out.
pub struct ResponseParts {
    pub status: u16,
    pub content_type: &'static str,
    pub body: Vec<u8>,
}

/// The HTTP status named by `s`: exactly three ASCII digits spelling a
/// number in `100..=999`; anything else is rejected.
pub open spec fn status_of_chars(s: Seq<char>) -> Option<u16> {
    if s.len() == 3 && 49 <= s[0] as u32 <= 57 && 48 <= s[1] as u32 <= 57 && 48 <= s[2] as u32
        <= 57 {
        Some(
            ((s[0] as u32 - 48) * 100 + (s[1] as u32 - 48) * 10 + (s[2] as u32 - 48)) as u16,
        )
    } else {
        None
    }
}

/// Parses the backend's status code field.  Returns the code for exactly
/// the three-digit texts `100..=999`, and nothing otherwise.
pub fn parse_status_code(s: &str) -> (r: Option<u16>)
    ensures
        r == status_of_chars(s@),
{
    let n = s.unicode_len();
    if n != 3 {
        return None;
    }
    let c0 = s.get_char(0) as u32;
    let c1 = s.get_char(1) as u32;
    let c2 = s.get_char(2) as u32;
    if 49 <= c0 && c0 <= 57 && 48 <= c1 && c1 <= 57 && 48 <= c2 && c2 <= 57 {
        Some(((c0 - 48) * 100 + (c1 - 48) * 10 + (c2 - 48)) as u16)
    } else {
        None
    }
}

/// Builds a JSON:API error document with one error entry.
pub fn error_document(code: &str, title: &str, detail: &str) -> (r: Vec<u8>)
    ensures
        r@ == encode_utf8(
            "{\"errors\":["@ + spec_error_json(code@, title@, detail@) + "]}"@,
        ),
{
    let mut out: Vec<u8> = Vec::new();
    push_text(&mut out, "{\"errors\":[");
    push_text(&mut out, "{\"code\":\"");
    push_json_escaped(&mut out, code);
    push_text(&mut out, "\",\"title\":\"");
    push_json_escaped(&mut out, title);
    push_text(&mut out, "\",\"detail\":\"");
    push_json_escaped(&mut out, detail);
    push_text(&mut out, "\"}");
    push_text(&mut out, "]}");
    proof {
        let e = spec_error_json(code@, title@, detail@);
        lemma_encode_utf8_concat("{\"code\":\""@, json_escape(code@));
        lemma_encode_utf8_concat("{\"code\":\""@ + json_escape(code@), "\",\"title\":\""@);
        lemma_encode_utf8_concat(
            "{\"code\":\""@ + json_escape(code@) + "\",\"title\":\""@,
            json_escape(title@),
        );
        lemma_encode_utf8_concat(
            "{\"code\":\""@ + json_escape(code@) + "\",\"title\":\""@ + json_escape(title@),
            "\",\"detail\":\""@,
        );
        lemma_encode_utf8_concat(
            "{\"code\":\""@ + json_escape(code@) + "\",\"title\":\""@ + json_escape(title@)
                + "\",\"detail\":\""@,
            json_escape(detail@),
        );
        lemma_encode_utf8_concat(
            "{\"code\":\""@ + json_escape(code@) + "\",\"title\":\""@ + json_escape(title@)
                + "\",\"detail\":\""@ + json_escape(detail@),
            "\"}"@,
        );
        lemma_encode_utf8_concat("{\"errors\":["@, e);
        lemma_encode_utf8_concat("{\"errors\":["@ + e, "]}"@);
        assert(out@ =~= encode_utf8("{\"errors\":["@ + e + "]}"@));
    }
    out
}

/// Builds a JSON:API error response with the given status.
pub fn create_error_response(status: u16, code: &str, title: &str, detail: &str) -> (r:
    ResponseParts)
    ensures
        r.status == status,
        r.content_type@ == JSON_API_TYPE@,
        r.body@ == encode_utf8(
            "{\"errors\":["@ + spec_error_json(code@, title@, detail@) + "]}"@,
        ),
{
    ResponseParts { status, content_type: JSON_API_TYPE, body: error_document(code, title, detail) }
}

/// Wraps backend payload bytes as the HTTP response, verbatim.
pub fn create_response(status: u16, data: Vec<u8>) -> (r: ResponseParts)
    ensures
        r.status == status,
        r.content_type@ == JSON_API_TYPE@,
        r.body == data,
{
    ResponseParts { status, content_type: JSON_API_TYPE, body: data }
}

/// The health-check response: status 200 and the fixed status document.
pub fn health_check() -> (r: ResponseParts)
    ensures
        r.status == 200,
        r.content_type@ == JSON_API_TYPE@,
        r.body@ == encode_utf8(spec_statuses_json("1"@, "statuses"@, "success"@)),
{
    let statuses = crate::responses::statuses::Statuses {
        data: crate::responses::statuses::StatusesData {
            id: String::from_str("1"),
            kind: String::from_str("statuses"),
            attributes: crate::responses::statuses::Attributes {
                name: String::from_str("success"),
            },
        },
    };
    ResponseParts { status: 200, content_type: JSON_API_TYPE, body: statuses.to_json() }
}

/// The fallback response for a path outside the route table.
pub fn not_found() -> (r: ResponseParts)
    ensures
        r.status == 404,
        r.content_type@ == JSON_API_TYPE@,
        r.body@ == encode_utf8(
            "{\"errors\":["@ + spec_error_json(
                "404"@,
                "Not found"@,
                "The requested resource could not be found."@,
            ) + "]}"@,
        ),
{
    create_error_response(404, "404", "Not found", "The requested resource could not be found.")
}

/// How one proxy call ended.
pub enum ProxyOutcome {
    EncodeFailed,
    PublishFailed,
    Delivered(Event),
    TimedOut,
}

/// The response for each outcome, per the gateway's error taxonomy:
/// serialization and transport faults give 500, a missed deadline gives
/// 408, and a delivery relays the backend's payload under its status code,
/// falling back to 500 when that code is unreadable.
pub fn response_for(outcome: ProxyOutcome) -> (r: ResponseParts)
    ensures
        r.content_type@ == JSON_API_TYPE@,
        outcome is EncodeFailed ==> r.status == 500 && r.body@ == encode_utf8(
            "{\"errors\":["@ + spec_error_json(
                "500"@,
                "Internal server error"@,
                "Failed to serialize request"@,
            ) + "]}"@,
        ),
        outcome is PublishFailed ==> r.status == 500 && r.body@ == encode_utf8(
            "{\"errors\":["@ + spec_error_json(
                "500"@,
                "Internal server error"@,
                "Failed to publish request"@,
            ) + "]}"@,
        ),
        outcome matches ProxyOutcome::Delivered(e) ==> r.body@ == e.spec_data() && r.status == (
        match status_of_chars(e.spec_code()) {
            Some(code) => code,
            None => 500,
        }),
        outcome is TimedOut ==> r.status == 408 && r.body@ == encode_utf8(
            "{\"errors\":["@ + spec_error_json("408"@, "Request timeout"@, ""@) + "]}"@,
        ),
{
    match outcome {
        ProxyOutcome::EncodeFailed => create_error_response(
            500,
            "500",
            "Internal server error",
            "Failed to serialize request",
        ),
        ProxyOutcome::PublishFailed => create_error_response(
            500,
            "500",
            "Internal server error",
            "Failed to publish request",
        ),
        ProxyOutcome::Delivered(e) => {
            let status = match parse_status_code(e.code()) {
                Some(code) => code,
                None => 500,
            };
            create_response(status, e.into_data())
        },
        ProxyOutcome::TimedOut => create_error_response(408, "408", "Request timeout", ""),
    }
}

/// The phases of one proxy call, in protocol order.
pub enum Phase {
    Start,
    Subscribed,
    Publishing,
    Waiting,
    CleanedUp(ProxyOutcome),
    Done(ProxyOutcome),
}

/// What the runtime reports back to the protocol.
pub enum ProxyEvent {
    EncodeOk,
    EncodeErr,
    SubscribeDone,
    PublishOk,
    PublishErr,
    Delivered(Event),
    TimedOut,
    UnsubscribeDone,
}

/// What the runtime must do next.
pub enum Action {
    Subscribe,
    Publish,
    Await,
    Unsubscribe,
    Respond,
    Ignore,
}

/// How far along the protocol a phase is.
pub open spec fn rank(p: Phase) -> nat {
    match p {
        Phase::Start => 0,
        Phase::Subscribed => 1,
        Phase::Publishing => 2,
        Phase::Waiting => 3,
        Phase::CleanedUp(_) => 4,
        Phase::Done(_) => 5,
    }
}

/// The protocol's transition function: given the current phase and what
/// just happened, the next phase and the next action.  Events that do not
/// belong to the current phase are ignored.
pub open spec fn spec_step(p: Phase, ev: ProxyEvent) -> (Phase, Action) {
    match (p, ev) {
        (Phase::Start, ProxyEvent::EncodeOk) => (Phase::Subscribed, Action::Subscribe),
        (Phase::Start, ProxyEvent::EncodeErr) => (
            Phase::CleanedUp(ProxyOutcome::EncodeFailed),
            Action::Unsubscribe,
        ),
        (Phase::Subscribed, ProxyEvent::SubscribeDone) => (Phase::Publishing, Action::Publish),
        (Phase::Publishing, ProxyEvent::PublishOk) => (Phase::Waiting, Action::Await),
        (Phase::Publishing, ProxyEvent::PublishErr) => (
            Phase::CleanedUp(ProxyOutcome::PublishFailed),
            Action::Unsubscribe,
        ),
        (Phase::Waiting, ProxyEvent::Delivered(e)) => (
            Phase::CleanedUp(ProxyOutcome::Delivered(e)),
            Action::Unsubscribe,
        ),
        (Phase::Waiting, ProxyEvent::TimedOut) => (
            Phase::CleanedUp(ProxyOutcome::TimedOut),
            Action::Unsubscribe,
        ),
        (Phase::CleanedUp(o), ProxyEvent::UnsubscribeDone) => (Phase::Done(o), Action::Respond),
        (q, _) => (q, Action::Ignore),
    }
}

/// Performs one protocol step.
pub fn proxy_step(p: Phase, ev: ProxyEvent) -> (r: (Phase, Action))
    ensures
        r == spec_step(p, ev),
{
    match (p, ev) {
        (Phase::Start, ProxyEvent::EncodeOk) => (Phase::Subscribed, Action::Subscribe),
        (Phase::Start, ProxyEvent::EncodeErr) => (
            Phase::CleanedUp(ProxyOutcome::EncodeFailed),
            Action::Unsubscribe,
        ),
        (Phase::Subscribed, ProxyEvent::SubscribeDone) => (Phase::Publishing, Action::Publish),
        (Phase::Publishing, ProxyEvent::PublishOk) => (Phase::Waiting, Action::Await),
        (Phase::Publishing, ProxyEvent::PublishErr) => (
            Phase::CleanedUp(ProxyOutcome::PublishFailed),
            Action::Unsubscribe,
        ),
        (Phase::Waiting, ProxyEvent::Delivered(e)) => (
            Phase::CleanedUp(ProxyOutcome::Delivered(e)),
            Action::Unsubscribe,
        ),
        (Phase::Waiting, ProxyEvent::TimedOut) => (
            Phase::CleanedUp(ProxyOutcome::TimedOut),
            Action::Unsubscribe,
        ),
        (Phase::CleanedUp(o), ProxyEvent::UnsubscribeDone) => (Phase::Done(o), Action::Respond),
        (q, _) => (q, Action::Ignore),
    }
}

/// Hands out the final outcome once the protocol reaches its last phase.
pub fn take_outcome(p: Phase) -> (r: Option<ProxyOutcome>)
    ensures
        p matches Phase::Done(o) ==> r == Some(o),
        !(p is Done) ==> r is None,
{
    match p {
        Phase::Done(o) => Some(o),
        _ => None,
    }
}

/// The phase after feeding a whole event sequence from the start.
pub open spec fn phase_after(evs: Seq<ProxyEvent>) -> Phase
    decreases evs.len(),
{
    if evs.len() == 0 {
        Phase::Start
    } else {
        spec_step(phase_after(evs.drop_last()), evs.last()).0
    }
}

/// The actions emitted while feeding a whole event sequence.
pub open spec fn actions_of(evs: Seq<ProxyEvent>) -> Seq<Action>
    decreases evs.len(),
{
    if evs.len() == 0 {
        Seq::<Action>::empty()
    } else {
        actions_of(evs.drop_last()).push(spec_step(phase_after(evs.drop_last()), evs.last()).1)
    }
}

/// How many publishes a run of actions contains.
pub open spec fn count_publish(acts: Seq<Action>) -> nat
    decreases acts.len(),
{
    if acts.len() == 0 {
        0
    } else {
        count_publish(acts.drop_last()) + if acts.last() is Publish {
            1nat
        } else {
            0nat
        }
    }
}

/// How many unsubscribes a run of actions contains.
pub open spec fn count_unsubscribe(acts: Seq<Action>) -> nat
    decreases acts.len(),
{
    if acts.len() == 0 {
        0
    } else {
        count_unsubscribe(acts.drop_last()) + if acts.last() is Unsubscribe {
            1nat
        } else {
            0nat
        }
    }
}

/// The protocol invariant: publish happens exactly on the way past the
/// publishing phase, and unsubscribe exactly on the way into cleanup.
proof fn lemma_protocol_counts(evs: Seq<ProxyEvent>)
    ensures
        count_publish(actions_of(evs)) <= 1,
        rank(phase_after(evs)) < 2 ==> count_publish(actions_of(evs)) == 0,
        count_unsubscribe(actions_of(evs)) == if rank(phase_after(evs)) >= 4 {
            1nat
        } else {
            0nat
        },
        forall|k: int|
            0 <= k < actions_of(evs).len() && actions_of(evs)[k] is Respond ==> count_unsubscribe(
                actions_of(evs).take(k),
            ) == 1,
    decreases evs.len(),
{
    if evs.len() == 0 {
    } else {
        lemma_protocol_counts(evs.drop_last());
        let pre = actions_of(evs.drop_last());
        let acts = actions_of(evs);
        assert(acts.drop_last() =~= pre);
        assert forall|k: int|
            0 <= k < acts.len() && acts[k] is Respond implies count_unsubscribe(acts.take(k))
            == 1 by {
            if k < acts.len() - 1 {
                assert(acts[k] == pre[k]);
                assert(acts.take(k) =~= pre.take(k));
            } else {
                assert(acts.take(k) =~= pre);
            }
        }
    }
}

/// The handler publishes at most once per request: over any run of the
/// protocol, at most one publish action is ever emitted.
pub proof fn lemma_at_most_one_publish(evs: Seq<ProxyEvent>)
    ensures
        count_publish(actions_of(evs)) <= 1,
{
    lemma_protocol_counts(evs);
}

/// The handler never responds before unsubscribing: whenever the protocol
/// emits a response, exactly one unsubscribe was emitted before it.
pub proof fn lemma_unsubscribe_before_respond(evs: Seq<ProxyEvent>, k: int)
    requires
        0 <= k < actions_of(evs).len(),
        actions_of(evs)[k] is Respond,
    ensures
        count_unsubscribe(actions_of(evs).take(k)) == 1,
{
    lemma_protocol_counts(evs);
}

/// Every step either finishes the protocol or moves it strictly forward,
/// except for ignored out-of-place events; a run therefore passes each
/// phase at most once.
pub proof fn lemma_protocol_progress(p: Phase, ev: ProxyEvent)
    ensures
        rank(spec_step(p, ev).0) >= rank(p),
        !(spec_step(p, ev).1 is Ignore) ==> rank(spec_step(p, ev).0) > rank(p),
{
}

} // verus!
