//! Job dispatch: one job request per configured grading step.
//!
//! Each request carries a fresh opaque token binding the push event to its
//! artifact, and a response-queue name of its own, so that no queue is
//! shared between in-flight jobs of one dispatch.

use vstd::prelude::*;
use vstd::string::StringExecFns;
use crate::codec::JobContext;
use crate::codec::JobContextView;
use crate::codec::decode_ctx;
use crate::codec::encode;
use crate::codec::lemma_codec_roundtrip;
use crate::decimal::dec_str;
use crate::decimal::lemma_dec_str_injective;
use crate::decimal::usize_to_dec;
use crate::relay::AMQPRequest;

verus! {

/// A push notification from the version-control server, reduced to what the
/// relay reads: the event kind, the branch, the project, the commit to
/// report a status on, and whether the push deleted the branch.
pub struct PushEvent {
    pub object_kind: String,
    pub ref_name: String,
    pub project: String,
    pub checkout_sha: String,
    pub deleted: bool,
}

/// The correlation context a job of this event carries.
pub open spec fn event_context(event: PushEvent, zip_path: Seq<char>) -> JobContextView {
    JobContextView {
        project: event.project@,
        branch: event.ref_name@,
        commit: event.checkout_sha@,
        zip_path: zip_path,
    }
}

/// The response-queue prefix of one push event's dispatch.
pub open spec fn queue_prefix_of(commit: Seq<char>) -> Seq<char> {
    "results-"@ + commit + "-"@
}

/// The per-job names derived from one push event: where its artifact lives,
/// the URL workers fetch it from, and the response-queue prefix of this
/// dispatch (`build_requests` appends a number per step).
pub fn job_names(event: &PushEvent, zip_dir: &str, base_url: &str) -> (r: (String, String, String))
    ensures
        r.0@ == zip_dir@ + "/"@ + event.checkout_sha@ + ".zip"@,
        r.1@ == base_url@ + "zips/"@ + event.checkout_sha@ + ".zip"@,
        r.2@ == queue_prefix_of(event.checkout_sha@),
{
    let mut zip_path = zip_dir.to_owned();
    zip_path.append("/");
    zip_path.append(event.checkout_sha.as_str());
    zip_path.append(".zip");
    let mut zip_url = base_url.to_owned();
    zip_url.append("zips/");
    zip_url.append(event.checkout_sha.as_str());
    zip_url.append(".zip");
    let mut queue_prefix = String::from_str("results-");
    queue_prefix.append(event.checkout_sha.as_str());
    queue_prefix.append("-");
    (zip_path, zip_url, queue_prefix)
}

/// Different commits never share a response-queue prefix, so the queues of
/// two dispatches in flight at once stay apart.
pub proof fn lemma_queue_prefix_injective(a: Seq<char>, b: Seq<char>)
    ensures
        queue_prefix_of(a) == queue_prefix_of(b) ==> a == b,
{
    if queue_prefix_of(a) == queue_prefix_of(b) {
        let head = "results-"@;
        assert(queue_prefix_of(a).len() == head.len() + a.len() + "-"@.len());
        assert(queue_prefix_of(b).len() == head.len() + b.len() + "-"@.len());
        assert(a.len() == b.len());
        assert(a =~= queue_prefix_of(a).subrange(head.len() as int, head.len() + a.len() as int));
        assert(b =~= queue_prefix_of(b).subrange(head.len() as int, head.len() + b.len() as int));
    }
}

/// Builds the job requests of one accepted push event: one per step, all
/// pointing at the same artifact, each with a decodable token for this event
/// and a response queue of its own.
pub fn build_requests(
    event: &PushEvent,
    zip_path: &str,
    zip_url: &str,
    response_queue_prefix: &str,
    steps: &Vec<String>,
) -> (v: Vec<AMQPRequest>)
    ensures
        v@.len() == steps@.len(),
        forall|k: int|
            0 <= k < v@.len() ==> {
                let r = #[trigger] v@[k];
                &&& r.step@ == steps@[k]@
                &&& r.zip_url@ == zip_url@
                &&& r.result_queue@ == response_queue_prefix@ + dec_str(k as nat)
                &&& r.delivery_tag is None
                &&& decode_ctx(r.opaque@) == Some(event_context(*event, zip_path@))
            },
        forall|k1: int, k2: int|
            0 <= k1 < k2 < v@.len() ==> v@[k1].result_queue@ != v@[k2].result_queue@,
{
    let mut v: Vec<AMQPRequest> = Vec::new();
    let mut i: usize = 0;
    while i < steps.len()
        invariant
            0 <= i <= steps.len(),
            v@.len() == i,
            forall|k: int|
                0 <= k < i ==> {
                    let r = #[trigger] v@[k];
                    &&& r.step@ == steps@[k]@
                    &&& r.zip_url@ == zip_url@
                    &&& r.result_queue@ == response_queue_prefix@ + dec_str(k as nat)
                    &&& r.delivery_tag is None
                    &&& decode_ctx(r.opaque@) == Some(event_context(*event, zip_path@))
                },
        decreases steps.len() - i,
    {
        let ctx = JobContext {
            project: event.project.clone(),
            branch: event.ref_name.clone(),
            commit: event.checkout_sha.clone(),
            zip_path: zip_path.to_owned(),
        };
        let opaque = encode(&ctx);
        proof {
            lemma_codec_roundtrip(ctx@);
            assert(ctx@ == event_context(*event, zip_path@));
        }
        let mut queue = response_queue_prefix.to_owned();
        queue.append(usize_to_dec(i).as_str());
        let request = AMQPRequest {
            step: steps[i].clone(),
            zip_url: zip_url.to_owned(),
            result_queue: queue,
            opaque,
            delivery_tag: None,
        };
        v.push(request);
        i += 1;
    }
    proof {
        assert forall|k1: int, k2: int|
            0 <= k1 < k2 < v@.len() implies v@[k1].result_queue@ != v@[k2].result_queue@ by {
            let p = response_queue_prefix@;
            let q1 = v@[k1].result_queue@;
            let q2 = v@[k2].result_queue@;
            if q1 == q2 {
                assert(q1 == p + dec_str(k1 as nat));
                assert(q2 == p + dec_str(k2 as nat));
                assert(dec_str(k1 as nat).len() == dec_str(k2 as nat).len());
                assert(q1.subrange(p.len() as int, q1.len() as int) =~= dec_str(k1 as nat));
                assert(q2.subrange(p.len() as int, q2.len() as int) =~= dec_str(k2 as nat));
                lemma_dec_str_injective(k1 as nat, k2 as nat);
            }
        }
    }
    v
}

} // verus!
