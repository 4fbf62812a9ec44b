//! The request executor's lifecycle: one request walks the phases
//! `Resolving → Acquiring → Sending → ReceivingHeaders → ReceivingBody →
//! Completed`, with an absorbing `Failed` phase reachable from every
//! non-terminal phase. The embedding host performs each phase's work
//! (validation through `key::resolve`, the pool's acquire, the transmission
//! and the frame reads) and feeds the outcome back as an `Event`; `step`
//! decides the next phase and whether the request's single result is due to
//! be delivered now. There are no retries: the first failure ends the
//! request.

use vstd::prelude::*;

use crate::body::payload_bytes;
use crate::body::payload_spec;
use crate::body::RequestPayload;
use crate::ext;
use crate::headers::pairs_view;
use crate::headers::sanitise_headers;
use crate::headers::sanitize_spec;
use crate::headers::set_host_header;
use crate::headers::with_host_spec;
use crate::key::resolve;
use crate::key::DestKey;
use crate::HttpError;

verus! {

/// Where one request stands.
#[derive(PartialEq, Eq, Structural, Clone, Copy, Debug)]
pub enum Phase {
    /// Validating the method string and the URL, deriving the target.
    Resolving,
    /// Asking the pool for a connection, establishing one if needed.
    Acquiring,
    /// Transmitting the request over the acquired connection.
    Sending,
    /// Waiting for the response's status and headers.
    ReceivingHeaders,
    /// Draining the response body frame by frame.
    ReceivingBody,
    /// The full response is ready; the result has been delivered.
    Completed,
    /// The request failed; the failure has been delivered.
    Failed,
}

/// What the host reports after each piece of work.
#[derive(PartialEq, Eq, Structural, Clone, Copy, Debug)]
pub enum Event {
    /// The method and URL were valid; the target is derived.
    ResolveOk,
    /// Invalid method, unparseable URL or missing host.
    ResolveFailed,
    /// A connection is at hand: reused, or freshly established.
    AcquireOk,
    /// Connect or handshake failed.
    AcquireFailed,
    /// The request went out over the connection.
    SendOk,
    /// Transmission failed.
    SendFailed,
    /// Status and headers arrived and were converted.
    HeadersOk,
    /// The response head could not be obtained or converted.
    HeadersFailed,
    /// One body frame arrived and was appended to the buffer.
    FrameOk,
    /// The body is complete.
    BodyEnd,
    /// A frame read failed; the partial body is discarded.
    FrameFailed,
}

/// A phase from which the request never moves again.
pub open spec fn is_terminal(p: Phase) -> bool {
    p is Completed || p is Failed
}

/// The transition table: each phase's expected events advance the request;
/// every other event in a non-terminal phase is that phase's failure and
/// ends the request; the terminal phases absorb everything.
pub open spec fn next_phase(p: Phase, e: Event) -> Phase {
    match p {
        Phase::Resolving => if e is ResolveOk {
            Phase::Acquiring
        } else {
            Phase::Failed
        },
        Phase::Acquiring => if e is AcquireOk {
            Phase::Sending
        } else {
            Phase::Failed
        },
        Phase::Sending => if e is SendOk {
            Phase::ReceivingHeaders
        } else {
            Phase::Failed
        },
        Phase::ReceivingHeaders => if e is HeadersOk {
            Phase::ReceivingBody
        } else {
            Phase::Failed
        },
        Phase::ReceivingBody => if e is FrameOk {
            Phase::ReceivingBody
        } else if e is BodyEnd {
            Phase::Completed
        } else {
            Phase::Failed
        },
        Phase::Completed => Phase::Completed,
        Phase::Failed => Phase::Failed,
    }
}

/// Whether this step delivers the request's one result: exactly the steps
/// that enter a terminal phase from a non-terminal one.
pub open spec fn delivers(p: Phase, e: Event) -> bool {
    !is_terminal(p) && is_terminal(next_phase(p, e))
}

/// Advances the request by one event. The second component tells the host
/// to deliver the result (the buffered response on entering `Completed`,
/// the failure on entering `Failed`) — exactly once per request, as
/// `lemma_deliver_exactly_once` states.
pub fn step(p: Phase, e: Event) -> (r: (Phase, bool))
    ensures
        r.0 == next_phase(p, e),
        r.1 == delivers(p, e),
{
    let next = match p {
        Phase::Resolving => match e {
            Event::ResolveOk => Phase::Acquiring,
            _ => Phase::Failed,
        },
        Phase::Acquiring => match e {
            Event::AcquireOk => Phase::Sending,
            _ => Phase::Failed,
        },
        Phase::Sending => match e {
            Event::SendOk => Phase::ReceivingHeaders,
            _ => Phase::Failed,
        },
        Phase::ReceivingHeaders => match e {
            Event::HeadersOk => Phase::ReceivingBody,
            _ => Phase::Failed,
        },
        Phase::ReceivingBody => match e {
            Event::FrameOk => Phase::ReceivingBody,
            Event::BodyEnd => Phase::Completed,
            _ => Phase::Failed,
        },
        Phase::Completed => Phase::Completed,
        Phase::Failed => Phase::Failed,
    };
    let was_terminal = match p {
        Phase::Completed => true,
        Phase::Failed => true,
        _ => false,
    };
    let now_terminal = match next {
        Phase::Completed => true,
        Phase::Failed => true,
        _ => false,
    };
    (next, !was_terminal && now_terminal)
}

/// Everything the host needs to transmit one request: the destination key,
/// the authority, the final header sequence and the canonical body bytes.
pub struct RequestPlan {
    pub key: DestKey,
    pub authority: String,
    pub headers: Vec<(String, String)>,
    pub body: Vec<u8>,
}

/// The computing side of the Resolving and Sending phases in one piece:
/// validates the method and the URL, derives the destination, keeps exactly
/// the caller's valid header pairs with canonical names, overwrites the
/// `Host` header with the URL's authority, and canonicalises the payload.
/// Every failure is an input error raised before any connection work.
pub fn prepare_request(
    method: &str,
    url: &str,
    headers: &Vec<(String, String)>,
    payload: RequestPayload,
) -> (r: Result<RequestPlan, HttpError>)
    ensures
        !ext::uri_accepted(url@) ==> (r matches Err(e) && e is InvalidUrl),
        ext::uri_accepted(url@) && !ext::method_token(method@) ==> (r matches Err(e) && e
            is InvalidMethod),
        ext::uri_accepted(url@) && ext::method_token(method@) ==> r is Ok || (r matches Err(e)
            && e is MissingHost),
        r matches Ok(p) ==> {
            &&& ext::uri_accepted(url@) && ext::method_token(method@)
            &&& pairs_view(p.headers@) == with_host_spec(
                sanitize_spec(pairs_view(headers@)),
                p.authority@,
            )
            &&& p.body@ == payload_spec(payload)
        },
{
    let target = match resolve(method, url) {
        Ok(t) => t,
        Err(e) => {
            return Err(e);
        },
    };
    let mut hs = sanitise_headers(headers);
    set_host_header(&mut hs, &target.authority);
    let body = payload_bytes(payload);
    Ok(RequestPlan { key: target.key, authority: target.authority, headers: hs, body })
}

/// Where the machine stands after a whole sequence of events.
pub open spec fn run(p: Phase, events: Seq<Event>) -> Phase
    decreases events.len(),
{
    if events.len() == 0 {
        p
    } else {
        run(next_phase(p, events.first()), events.drop_first())
    }
}

/// How many of the steps of a run deliver a result.
pub open spec fn deliver_count(p: Phase, events: Seq<Event>) -> int
    decreases events.len(),
{
    if events.len() == 0 {
        0
    } else {
        (if delivers(p, events.first()) {
            1int
        } else {
            0int
        }) + deliver_count(next_phase(p, events.first()), events.drop_first())
    }
}

/// The terminal phases absorb: once completed or failed, a request stays
/// so, and nothing further is delivered.
pub proof fn lemma_terminal_absorbing(p: Phase, events: Seq<Event>)
    requires
        is_terminal(p),
    ensures
        run(p, events) == p,
        deliver_count(p, events) == 0,
    decreases events.len(),
{
    if events.len() > 0 {
        lemma_terminal_absorbing(p, events.drop_first());
    }
}

/// The request's one result is delivered exactly once: a run that starts in
/// a non-terminal phase and ends in a terminal one delivers on exactly one
/// of its steps — success or failure, never both, never neither — and a run
/// that has not yet ended has delivered nothing.
pub proof fn lemma_deliver_exactly_once(p: Phase, events: Seq<Event>)
    ensures
        deliver_count(p, events) == if !is_terminal(p) && is_terminal(run(p, events)) {
            1int
        } else {
            0int
        },
    decreases events.len(),
{
    if is_terminal(p) {
        lemma_terminal_absorbing(p, events);
    } else if events.len() > 0 {
        let p2 = next_phase(p, events.first());
        if is_terminal(p2) {
            lemma_terminal_absorbing(p2, events.drop_first());
        } else {
            lemma_deliver_exactly_once(p2, events.drop_first());
        }
    }
}

/// A request whose resolving step fails — an invalid method, an unparseable
/// URL, a URL without a host — fails for good before any connection work:
/// its one delivery is the failure, and the machine is never in any of the
/// connection or transmission phases, so no connect is ever attempted.
pub proof fn lemma_failed_before_network(events: Seq<Event>)
    requires
        events.len() >= 1,
        !(events[0] is ResolveOk),
    ensures
        run(Phase::Resolving, events) == Phase::Failed,
        deliver_count(Phase::Resolving, events) == 1,
        forall|i: int|
            0 <= i <= events.len() ==> (#[trigger] run(Phase::Resolving, events.take(i)))
                == Phase::Resolving || run(Phase::Resolving, events.take(i)) == Phase::Failed,
{
    lemma_terminal_absorbing(Phase::Failed, events.drop_first());
    lemma_deliver_exactly_once(Phase::Resolving, events);
    assert forall|i: int|
        0 <= i <= events.len() implies (#[trigger] run(Phase::Resolving, events.take(i)))
        == Phase::Resolving || run(Phase::Resolving, events.take(i)) == Phase::Failed by {
        if i > 0 {
            assert(events.take(i).first() == events[0]);
            assert(events.take(i).drop_first() =~= events.drop_first().take(i - 1));
            lemma_terminal_absorbing(Phase::Failed, events.take(i).drop_first());
        }
    }
}

} // verus!
