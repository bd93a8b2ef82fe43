//! The worker-side relay: job requests in, job responses out, with the
//! two-phase acknowledgment rule.
//!
//! A request is acknowledged to the broker only once the response to it has
//! been published.  A worker that dies earlier leaves the request
//! unacknowledged, so the broker redelivers it: a result is never silently
//! lost, at the cost of a possible duplicate execution.

use vstd::prelude::*;

verus! {

/// One grading job as it travels to a worker.  The delivery tag is
/// broker-local: absent on the wire, attached when the broker delivers the
/// message.
pub struct AMQPRequest {
    pub step: String,
    pub zip_url: String,
    pub result_queue: String,
    pub opaque: String,
    pub delivery_tag: Option<u64>,
}

/// A worker's answer to one job, carrying the delivery tag of the request it
/// answers so that the request can be acknowledged after the answer is
/// published.
pub struct AMQPResponse {
    pub step: String,
    pub opaque: String,
    pub yaml_result: String,
    pub result_queue: String,
    pub delivery_tag: u64,
}

/// Inbound half: a delivered message either decoded as a request or not.
/// A decoded request gets the broker's delivery tag attached; an
/// undecodable one is dropped (and stays unacknowledged, so the broker may
/// redeliver it).
pub fn receive_request(parsed: Option<AMQPRequest>, delivery_tag: u64) -> (r: Option<
    AMQPRequest,
>)
    ensures
        r is Some <==> parsed is Some,
        parsed is Some ==> {
            let out = r->Some_0;
            let inp = parsed->Some_0;
            &&& out.step@ == inp.step@
            &&& out.zip_url@ == inp.zip_url@
            &&& out.result_queue@ == inp.result_queue@
            &&& out.opaque@ == inp.opaque@
            &&& out.delivery_tag == Some(delivery_tag)
        },
{
    match parsed {
        Some(req) => Some(
            AMQPRequest {
                step: req.step,
                zip_url: req.zip_url,
                result_queue: req.result_queue,
                opaque: req.opaque,
                delivery_tag: Some(delivery_tag),
            },
        ),
        None => None,
    }
}

/// Outbound half, first phase: take a finished response apart into the
/// message to publish (queue name and tag blanked, as they are broker-local)
/// and the two values the second phase needs — the queue to publish to and
/// the delivery tag to acknowledge.
pub fn finalize_response(response: AMQPResponse) -> (r: (AMQPResponse, String, u64))
    ensures
        r.0.step@ == response.step@,
        r.0.opaque@ == response.opaque@,
        r.0.yaml_result@ == response.yaml_result@,
        r.0.result_queue@ == Seq::<char>::empty(),
        r.0.delivery_tag == 0,
        r.1@ == response.result_queue@,
        r.2 == response.delivery_tag,
{
    let AMQPResponse { step, opaque, yaml_result, result_queue, delivery_tag } = response;
    let out = AMQPResponse {
        step,
        opaque,
        yaml_result,
        result_queue: String::new(),
        delivery_tag: 0,
    };
    (out, result_queue, delivery_tag)
}

/// Permission to acknowledge one delivery.  A value of this type exists only
/// as the outcome of `DeliveryHandle::complete` on a successful publish.
pub struct AckToken {
    delivery_tag: u64,
}

impl AckToken {
    pub closed spec fn tag_spec(&self) -> u64 {
        self.delivery_tag
    }

    /// The tag to pass to the broker's acknowledgment call.
    pub fn tag(&self) -> (t: u64)
        ensures
            t == self.tag_spec(),
    {
        self.delivery_tag
    }
}

/// The pending acknowledgment of one delivered request.  The handle is
/// consumed by `complete`, so acknowledging is possible only once and only
/// after the publish outcome is known.
pub struct DeliveryHandle {
    delivery_tag: u64,
}

impl DeliveryHandle {
    pub closed spec fn tag_spec(&self) -> u64 {
        self.delivery_tag
    }

    pub fn new(delivery_tag: u64) -> (h: Self)
        ensures
            h.tag_spec() == delivery_tag,
    {
        DeliveryHandle { delivery_tag }
    }

    /// The two-phase rule: an acknowledgment token comes out exactly when
    /// the publish succeeded, and it carries the tag of this delivery.  On a
    /// failed publish there is nothing to acknowledge and the broker will
    /// redeliver.
    pub fn complete(self, publish_succeeded: bool) -> (r: Option<AckToken>)
        ensures
            publish_succeeded <==> r is Some,
            r is Some ==> r->Some_0.tag_spec() == self.tag_spec(),
    {
        if publish_succeeded {
            Some(AckToken { delivery_tag: self.delivery_tag })
        } else {
            None
        }
    }
}

} // verus!
