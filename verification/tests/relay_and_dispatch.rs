use graders_relay::codec::decode;
use graders_relay::dispatch::{build_requests, job_names, PushEvent};
use graders_relay::relay::{finalize_response, receive_request, AMQPRequest, AMQPResponse, DeliveryHandle};
use graders_relay::report::{Group, Report, Test};
use graders_relay::respond::response_to_post;
use graders_relay::web::{hook_decision, route_request, HookDecision, HttpMethod, Route};

fn push_event() -> PushEvent {
    PushEvent {
        object_kind: String::from("push"),
        ref_name: String::from("main"),
        project: String::from("group/lab1"),
        checkout_sha: String::from("0a1b2c3d"),
        deleted: false,
    }
}

#[test]
fn receive_attaches_delivery_tag() {
    let request = AMQPRequest {
        step: String::from("build"),
        zip_url: String::from("http://server/zips/lab1.zip"),
        result_queue: String::from("results-0"),
        opaque: String::from("tok"),
        delivery_tag: None,
    };
    let out = receive_request(Some(request), 7).expect("decoded request is forwarded");
    assert_eq!(out.delivery_tag, Some(7));
    assert_eq!(out.step, "build");
    // an undecodable delivery is dropped
    assert!(receive_request(None, 7).is_none());
}

#[test]
fn finalize_blanks_broker_local_fields() {
    let response = AMQPResponse {
        step: String::from("build"),
        opaque: String::from("tok"),
        yaml_result: String::from("grade: 1"),
        result_queue: String::from("results-0"),
        delivery_tag: 9,
    };
    let (wire, queue, tag) = finalize_response(response);
    assert_eq!(queue, "results-0");
    assert_eq!(tag, 9);
    assert_eq!(wire.result_queue, "");
    assert_eq!(wire.delivery_tag, 0);
    assert_eq!(wire.step, "build");
    assert_eq!(wire.yaml_result, "grade: 1");
}

#[test]
fn ack_only_after_publish_success() {
    // publish failure: no acknowledgment token ever comes out
    let handle = DeliveryHandle::new(41);
    assert!(handle.complete(false).is_none());
    // publish success: exactly one acknowledgment, for the right delivery,
    // and only from completing the handle (the handle is consumed)
    let handle = DeliveryHandle::new(42);
    let ack = handle.complete(true).expect("published response must be acknowledged");
    assert_eq!(ack.tag(), 42);
}

#[test]
fn webhook_gatekeeping() {
    let secret = Some(String::from("hook-secret-1"));
    let good = Some(String::from("hook-secret-1"));
    let bad = Some(String::from("wrong"));
    assert_eq!(hook_decision(&secret, &None, "push", false), HookDecision::Reject);
    assert_eq!(hook_decision(&secret, &bad, "push", false), HookDecision::Reject);
    assert_eq!(hook_decision(&secret, &good, "push", false), HookDecision::Forward);
    assert_eq!(hook_decision(&None, &None, "push", false), HookDecision::Forward);
    assert_eq!(hook_decision(&None, &None, "tag_push", false), HookDecision::Ignore);
    assert_eq!(hook_decision(&None, &None, "push", true), HookDecision::Ignore);
}

#[test]
fn routing() {
    assert_eq!(route_request(&HttpMethod::Post, "/push"), Route::PushHook);
    assert_eq!(route_request(&HttpMethod::Get, "/zips/lab1.zip"), Route::Artifact);
    assert_eq!(route_request(&HttpMethod::Get, "/zips/../etc/passwd"), Route::NotFound);
    assert_eq!(route_request(&HttpMethod::Get, "/push"), Route::NotFound);
    assert_eq!(route_request(&HttpMethod::Post, "/zips/lab1.zip"), Route::NotFound);
    assert_eq!(route_request(&HttpMethod::Other, "/push"), Route::NotFound);
}

#[test]
fn dispatch_and_respond_end_to_end() {
    let event = push_event();
    let steps = vec![String::from("build")];
    let requests = build_requests(
        &event,
        "/tmp/zips/lab1-42.zip",
        "http://server/zips/lab1-42.zip",
        "results-",
        &steps,
    );
    assert_eq!(requests.len(), 1);
    let request = &requests[0];
    assert_eq!(request.step, "build");
    assert_eq!(request.result_queue, "results-0");
    assert!(request.delivery_tag.is_none());
    let context = decode(&request.opaque).expect("dispatched token must decode");
    assert_eq!(context.project, "group/lab1");
    assert_eq!(context.branch, "main");
    assert_eq!(context.commit, "0a1b2c3d");
    assert_eq!(context.zip_path, "/tmp/zips/lab1-42.zip");

    // the worker answers with a partly failing report
    let report = Report {
        grade: 3,
        max_grade: 5,
        explanation: None,
        groups: Some(vec![Group {
            grade: 2,
            max_grade: 5,
            description: Some(String::from("Group A")),
            tests: vec![Test {
                coefficient: 1,
                description: String::from("one"),
                success: false,
                signal: None,
            }],
        }]),
    };
    let actions = response_to_post("build", &report, &request.opaque)
        .expect("a minted token must be accepted");
    assert!(!actions.success);
    assert_eq!(actions.summary, "grade: 3/5");
    let comment = actions.comment.expect("a failure gets a comment");
    assert!(comment.contains("3 failing out of 5"));
    assert!(comment.contains("2 failing out of 5"));
    // the artifact named by the token is the one to remove afterwards
    assert_eq!(actions.context.zip_path, "/tmp/zips/lab1-42.zip");
}

#[test]
fn unique_queues_per_step() {
    let event = push_event();
    let steps = vec![
        String::from("build"),
        String::from("test"),
        String::from("lint"),
    ];
    let requests = build_requests(&event, "/tmp/z.zip", "http://server/zips/z.zip", "q-", &steps);
    assert_eq!(requests.len(), 3);
    assert_eq!(requests[0].result_queue, "q-0");
    assert_eq!(requests[1].result_queue, "q-1");
    assert_eq!(requests[2].result_queue, "q-2");
    assert_eq!(requests[1].step, "test");
}

#[test]
fn job_names_follow_the_event() {
    let event = push_event();
    let (zip_path, zip_url, queue_prefix) =
        job_names(&event, "/var/zips", "http://server/");
    assert_eq!(zip_path, "/var/zips/0a1b2c3d.zip");
    assert_eq!(zip_url, "http://server/zips/0a1b2c3d.zip");
    assert_eq!(queue_prefix, "results-0a1b2c3d-");
    // a different commit gets a different prefix, so queues stay apart
    let mut other = push_event();
    other.checkout_sha = String::from("ffee9988");
    let (_, _, other_prefix) = job_names(&other, "/var/zips", "http://server/");
    assert_ne!(queue_prefix, other_prefix);
}

#[test]
fn success_posts_status_only() {
    let event = push_event();
    let steps = vec![String::from("build")];
    let requests = build_requests(&event, "/tmp/z.zip", "http://server/zips/z.zip", "q-", &steps);
    let report = Report {
        grade: 5,
        max_grade: 5,
        explanation: None,
        groups: Some(vec![]),
    };
    let actions = response_to_post("build", &report, &requests[0].opaque).unwrap();
    assert!(actions.success);
    assert_eq!(actions.summary, "grade: 5/5");
    assert!(actions.comment.is_none());
}

#[test]
fn bad_token_is_a_hard_error() {
    let report = Report {
        grade: 5,
        max_grade: 5,
        explanation: None,
        groups: None,
    };
    assert!(response_to_post("build", &report, "not a token").is_err());
    // a near-token the codec never minted is a hard error too
    assert!(response_to_post("build", &report, "00:0:0:0:").is_err());
}
