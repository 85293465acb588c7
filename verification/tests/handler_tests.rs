use rendezvous::config::Config;
use rendezvous::forwarder::{forward_step, Forwarder, PullAction, PullEvent};
use rendezvous::handlers::{
    accept_download, download_attempt, download_query, download_retry, route_of, screen_candidate,
    service_dump, service_request_id, service_retire_id, service_upload, CandidateDecision,
    DownloadStep, Method, RetryDecision, Route, UploadDecision,
};
use rendezvous::registry::Registry;
use rendezvous::response::{completion_response, upload_wait_outcome, HttpResponse, ResponseBody};

fn cfg() -> Config {
    Config::default()
}

fn text_of(r: &HttpResponse) -> &str {
    match &r.body {
        ResponseBody::Text(t) => t.as_str(),
        ResponseBody::Stream(_) => panic!("expected a text body"),
    }
}

/// Run `POST /1/id/request?length=N` and split the `id,secret` answer.
fn request_id(reg: &mut Registry, length: u64, now: u64) -> (String, String) {
    let query = format!("length={}", length);
    let r = service_request_id(reg, Some(query.as_str()), now, &cfg());
    assert_eq!(r.status, 200);
    let body = text_of(&r).to_string();
    let mut parts = body.splitn(2, ',');
    let id = parts.next().unwrap().to_string();
    let secret = parts.next().unwrap().to_string();
    (id, secret)
}

fn upload_query(id: &str, secret: &str) -> String {
    format!("id={}&secret={}", id, secret)
}

#[test]
fn routes_dispatch_on_exact_method_and_path() {
    assert_eq!(route_of(Method::Get, "/"), Route::Home);
    assert_eq!(route_of(Method::Get, "/favicon.ico"), Route::Favicon);
    assert_eq!(route_of(Method::Get, "/client.js"), Route::ClientJs);
    assert_eq!(route_of(Method::Post, "/1/id/request"), Route::RequestId);
    assert_eq!(route_of(Method::Post, "/1/id/retire"), Route::RetireId);
    assert_eq!(route_of(Method::Post, "/1/file/upload"), Route::Upload);
    assert_eq!(route_of(Method::Get, "/1/file/download"), Route::Download);
    assert_eq!(route_of(Method::Get, "/dump"), Route::Dump);
    assert_eq!(route_of(Method::Get, "/1/id/request"), Route::NotFound);
    assert_eq!(route_of(Method::Post, "/"), Route::NotFound);
    assert_eq!(route_of(Method::Other, "/"), Route::NotFound);
    assert_eq!(route_of(Method::Get, "/nope"), Route::NotFound);
}

#[test]
fn dump_answers_like_an_unknown_route() {
    let r = service_dump();
    assert_eq!(r.status, 404);
    assert_eq!(text_of(&r), "<b>404 Not Found</b>");
}

#[test]
fn request_rejects_bad_length_queries() {
    let mut reg = Registry::new();
    let r = service_request_id(&mut reg, Some("length=five"), 0, &cfg());
    assert_eq!(r.status, 400);
    assert_eq!(text_of(&r), "\"length\" should be a decimal integer");
    let r = service_request_id(&mut reg, None, 0, &cfg());
    assert_eq!(r.status, 400);
    assert_eq!(text_of(&r), "Expected argument \"length\"");
    let r = service_request_id(&mut reg, Some("length=5&x=1"), 0, &cfg());
    assert_eq!(r.status, 400);
    assert_eq!(text_of(&r), "Supported argument is \"length\"");
}

#[test]
fn request_accepts_the_bound_and_rejects_just_above() {
    let mut reg = Registry::new();
    let r = service_request_id(&mut reg, Some("length=1048576"), 0, &cfg());
    assert_eq!(r.status, 200);
    let r = service_request_id(&mut reg, Some("length=1048577"), 0, &cfg());
    assert_eq!(r.status, 400);
    assert_eq!(text_of(&r), "Content is too long");
}

#[test]
fn happy_path_downloader_first() {
    let mut reg = Registry::new();
    let (id, secret) = request_id(&mut reg, 5, 0);

    // The downloader arrives first and finds nothing queued.
    let dl_id = match download_query(Some(format!("id={}", id).as_str())) {
        Ok(s) => s,
        Err(_) => panic!("the id must parse"),
    };
    assert!(matches!(download_attempt(&mut reg, &dl_id), DownloadStep::Empty));

    // The uploader posts its body.
    let q = upload_query(&id, &secret);
    let handle = match service_upload(&mut reg, Some(q.as_str()), Some(5), &cfg()) {
        UploadDecision::Await(h) => h,
        UploadDecision::Respond(r) => panic!("unexpected {} {}", r.status, text_of(&r)),
    };

    // The downloader's retry now finds the pipe.
    let mut fwd = match download_attempt(&mut reg, &dl_id) {
        DownloadStep::Candidate(f) => f,
        _ => panic!("expected the queued uploader"),
    };
    assert_eq!(fwd.handle, handle);
    let resp = accept_download(&mut reg, &dl_id, fwd, 1, &cfg());
    assert_eq!(resp.status, 200);
    fwd = match resp.body {
        ResponseBody::Stream(f) => f,
        ResponseBody::Text(_) => panic!("expected the pipe as body"),
    };

    // The body streams through: "hello" in two chunks.
    let mut received = Vec::new();
    let mut completed = false;
    for chunk in [b"he".to_vec(), b"llo".to_vec()] {
        match forward_step(&mut fwd, PullEvent::Chunk(chunk)) {
            PullAction::Yield { chunk, completed: done } => {
                received.extend_from_slice(&chunk);
                completed = done;
            }
            _ => panic!("expected the chunk to be relayed"),
        }
    }
    assert_eq!(received, b"hello".to_vec());
    assert!(completed, "the last byte fires completion");

    // The completion signal reaches the uploader: 200 "Sent!".
    let up = upload_wait_outcome(Some(completion_response()));
    assert_eq!(up.status, 200);
    assert_eq!(text_of(&up), "Sent!");
}

#[test]
fn happy_path_uploader_first() {
    let mut reg = Registry::new();
    let (id, secret) = request_id(&mut reg, 5, 0);

    // The uploader arrives first; its pipe waits unread.
    let q = upload_query(&id, &secret);
    assert!(matches!(
        service_upload(&mut reg, Some(q.as_str()), Some(5), &cfg()),
        UploadDecision::Await(_)
    ));

    // The downloader attaches and reads the whole body at once.
    let mut fwd = match download_attempt(&mut reg, &id) {
        DownloadStep::Candidate(f) => f,
        _ => panic!("expected the queued uploader"),
    };
    match forward_step(&mut fwd, PullEvent::Chunk(b"hello".to_vec())) {
        PullAction::Yield { chunk, completed } => {
            assert_eq!(chunk, b"hello".to_vec());
            assert!(completed);
        }
        _ => panic!("expected the body to stream"),
    }
    let up = upload_wait_outcome(Some(completion_response()));
    assert_eq!(up.status, 200);
    assert_eq!(text_of(&up), "Sent!");
}

#[test]
fn bad_secret_is_rejected_and_transfer_kept() {
    let mut reg = Registry::new();
    let (id, secret) = request_id(&mut reg, 5, 0);
    let q = upload_query(&id, "wrong");
    match service_upload(&mut reg, Some(q.as_str()), Some(5), &cfg()) {
        UploadDecision::Respond(r) => {
            assert_eq!(r.status, 403);
            assert_eq!(text_of(&r), "Bad secret");
        }
        UploadDecision::Await(_) => panic!("a wrong secret must not queue"),
    }
    // The transfer is unchanged: the correct upload still succeeds.
    let q = upload_query(&id, &secret);
    assert!(matches!(
        service_upload(&mut reg, Some(q.as_str()), Some(5), &cfg()),
        UploadDecision::Await(_)
    ));
}

#[test]
fn length_mismatch_is_rejected() {
    let mut reg = Registry::new();
    let (id, secret) = request_id(&mut reg, 5, 0);
    let q = upload_query(&id, &secret);
    match service_upload(&mut reg, Some(q.as_str()), Some(6), &cfg()) {
        UploadDecision::Respond(r) => {
            assert_eq!(r.status, 400);
            assert_eq!(text_of(&r), "Wrong length");
        }
        UploadDecision::Await(_) => panic!("a length mismatch must not queue"),
    }
}

#[test]
fn upload_without_content_length_gets_411() {
    let mut reg = Registry::new();
    let (id, secret) = request_id(&mut reg, 5, 0);
    let q = upload_query(&id, &secret);
    match service_upload(&mut reg, Some(q.as_str()), None, &cfg()) {
        UploadDecision::Respond(r) => assert_eq!(r.status, 411),
        UploadDecision::Await(_) => panic!("no declared length must not queue"),
    }
}

#[test]
fn oversized_upload_gets_413() {
    let mut reg = Registry::new();
    let (id, secret) = request_id(&mut reg, 5, 0);
    let q = upload_query(&id, &secret);
    match service_upload(&mut reg, Some(q.as_str()), Some(1048577), &cfg()) {
        UploadDecision::Respond(r) => {
            assert_eq!(r.status, 413);
            assert_eq!(text_of(&r), "Content is too long");
        }
        UploadDecision::Await(_) => panic!("an oversized body must not queue"),
    }
}

#[test]
fn download_times_out_after_the_configured_retries() {
    let mut reg = Registry::new();
    let (id, _secret) = request_id(&mut reg, 5, 0);

    let mut attempts: u64 = 0;
    let mut retries_left = cfg().download_max_retries;
    let final_response = loop {
        assert!(matches!(download_attempt(&mut reg, &id), DownloadStep::Empty));
        attempts += 1;
        match download_retry(retries_left, &cfg()) {
            RetryDecision::RetryAfter { delay_ms, retries_left: n } => {
                assert_eq!(delay_ms, 200);
                retries_left = n;
            }
            RetryDecision::GiveUp(r) => break r,
        }
    };
    assert_eq!(attempts, cfg().download_max_retries + 1);
    assert_eq!(final_response.status, 503);
    assert_eq!(text_of(&final_response), "<b>No uploader currently available</b>");
}

#[test]
fn retire_then_use_yields_404() {
    let mut reg = Registry::new();
    let (id, secret) = request_id(&mut reg, 5, 0);
    let q = upload_query(&id, &secret);
    let (r, dropped) = service_retire_id(&mut reg, Some(q.as_str()));
    assert_eq!(r.status, 200);
    assert_eq!(text_of(&r), "Removed");
    assert!(dropped.is_empty(), "nothing was queued");

    match download_attempt(&mut reg, &id) {
        DownloadStep::NotFound(r) => {
            assert_eq!(r.status, 404);
            assert_eq!(text_of(&r), "<b>Unknown id</b>");
        }
        _ => panic!("a retired id must be unknown"),
    }
    let (r, _) = service_retire_id(&mut reg, Some(q.as_str()));
    assert_eq!(r.status, 404);
    assert_eq!(text_of(&r), "Unknown id");
}

#[test]
fn retire_with_bad_secret_gets_403() {
    let mut reg = Registry::new();
    let (id, _secret) = request_id(&mut reg, 5, 0);
    let q = upload_query(&id, "wrong");
    let (r, dropped) = service_retire_id(&mut reg, Some(q.as_str()));
    assert_eq!(r.status, 403);
    assert_eq!(text_of(&r), "Bad secret");
    assert!(dropped.is_empty());
}

#[test]
fn download_query_errors_are_html() {
    match download_query(Some("id=abc&x=1")) {
        Err(r) => {
            assert_eq!(r.status, 400);
            assert_eq!(text_of(&r), "<b>Supported arguments id \"id\"</b>");
        }
        Ok(_) => panic!("an unknown key must be rejected"),
    }
    match download_query(None) {
        Err(r) => {
            assert_eq!(r.status, 400);
            assert_eq!(text_of(&r), "<b>Id missing</b>");
        }
        Ok(_) => panic!("a missing id must be rejected"),
    }
}

#[test]
fn handlers_decode_their_query_strings() {
    // The decoded identifier, not the raw query text, must reach the
    // registry: "a+b" and "a%20b" both name the id "a b".
    let mut reg = Registry::new();
    assert!(reg.insert_transfer("a b".into(), "xyz".into(), 5, 0, &cfg()));
    let (r, _) = service_retire_id(&mut reg, Some("id=a+b&secret=xyz"));
    assert_eq!(r.status, 200);
    assert_eq!(text_of(&r), "Removed");
    assert!(reg.insert_transfer("a b".into(), "xyz".into(), 5, 0, &cfg()));
    let (r, _) = service_retire_id(&mut reg, Some("id=a%20b&secret=xyz"));
    assert_eq!(r.status, 200);
    match download_query(Some("id=a%62c")) {
        Ok(id) => assert_eq!(id, "abc"),
        Err(_) => panic!("the encoded id must parse"),
    }
}

#[test]
fn canceled_completion_turns_into_500() {
    // The downloader vanished mid-stream: the uploader's wait ends with a
    // canceled signal and the endpoint answers the internal error.
    let r = upload_wait_outcome(None);
    assert_eq!(r.status, 500);
    assert_eq!(text_of(&r), "BAD NEWS");
}

#[test]
fn dropped_downloader_leaves_queue_without_that_pipe() {
    let mut reg = Registry::new();
    let (id, secret) = request_id(&mut reg, 5, 0);
    let q = upload_query(&id, &secret);
    let h1 = match service_upload(&mut reg, Some(q.as_str()), Some(5), &cfg()) {
        UploadDecision::Await(h) => h,
        _ => panic!("expected the first upload to queue"),
    };
    let h2 = match service_upload(&mut reg, Some(q.as_str()), Some(5), &cfg()) {
        UploadDecision::Await(h) => h,
        _ => panic!("expected the second upload to queue"),
    };
    // The first pipe goes out and its downloader disconnects: the pipe is
    // simply gone from the queue; the next download gets the second pipe.
    let f: Forwarder = match download_attempt(&mut reg, &id) {
        DownloadStep::Candidate(f) => f,
        _ => panic!("expected the first pipe"),
    };
    assert_eq!(f.handle, h1);
    drop(f);
    match download_attempt(&mut reg, &id) {
        DownloadStep::Candidate(f) => assert_eq!(f.handle, h2),
        _ => panic!("expected the second pipe"),
    }
}

#[test]
fn retiring_a_transfer_hands_back_its_queued_pipes() {
    // The cancellation cascade: the transport releases these handles'
    // bodies and completion senders, and each waiting uploader's request
    // resolves to the 500 of a canceled wait.
    let mut reg = Registry::new();
    let (id, secret) = request_id(&mut reg, 5, 0);
    let q = upload_query(&id, &secret);
    let h1 = match service_upload(&mut reg, Some(q.as_str()), Some(5), &cfg()) {
        UploadDecision::Await(h) => h,
        _ => panic!("expected the first upload to queue"),
    };
    let h2 = match service_upload(&mut reg, Some(q.as_str()), Some(5), &cfg()) {
        UploadDecision::Await(h) => h,
        _ => panic!("expected the second upload to queue"),
    };
    let (r, dropped) = service_retire_id(&mut reg, Some(q.as_str()));
    assert_eq!(r.status, 200);
    assert_eq!(dropped, vec![h1, h2]);
    let r = upload_wait_outcome(None);
    assert_eq!(r.status, 500);
}

#[test]
fn empty_transfer_succeeds_for_both_sides() {
    // A zero-length transfer: the uploader's body ends at once, the
    // downloader receives an empty 200 body, and the uploader still gets
    // its 200 "Sent!".
    let mut reg = Registry::new();
    let (id, secret) = request_id(&mut reg, 0, 0);
    let q = upload_query(&id, &secret);
    assert!(matches!(
        service_upload(&mut reg, Some(q.as_str()), Some(0), &cfg()),
        UploadDecision::Await(_)
    ));
    let mut fwd = match download_attempt(&mut reg, &id) {
        DownloadStep::Candidate(f) => f,
        _ => panic!("expected the queued uploader"),
    };
    match forward_step(&mut fwd, PullEvent::End) {
        PullAction::End { completed } => assert!(completed, "an empty transfer completes"),
        _ => panic!("expected end-of-stream"),
    }
    let up = upload_wait_outcome(Some(completion_response()));
    assert_eq!(up.status, 200);
    assert_eq!(text_of(&up), "Sent!");
}

#[test]
fn stale_candidates_are_skipped_live_ones_accepted() {
    let pipe = Forwarder { handle: 7, length: 5, bytes_sent: 0, fused: false };
    match screen_candidate(pipe, false) {
        CandidateDecision::Accept(f) => assert_eq!(f.handle, 7),
        CandidateDecision::Skip => panic!("a live uploader must be accepted"),
    }
    let pipe = Forwarder { handle: 8, length: 5, bytes_sent: 0, fused: false };
    assert!(matches!(screen_candidate(pipe, true), CandidateDecision::Skip));
}
