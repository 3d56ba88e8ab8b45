use stratum::client::{AttemptOutcome, Client, SendPhase, SendStep};
use stratum::error::{Error, TransportError};
use stratum::{Request, Value};

fn aborted() -> AttemptOutcome {
    AttemptOutcome::TransportFailed(TransportError {
        aborted: true,
        message: "connection aborted".to_owned(),
    })
}

fn good_body(id: i64) -> String {
    format!("{{\"result\":true,\"error\":null,\"id\":{}}}", id)
}

#[test]
fn build_request_increments_ids() {
    let mut client = Client::new("http://localhost:18332".to_owned(), None, None);
    assert_eq!(client.last_nonce(), 0);
    let r1 = client.build_request("getinfo".to_owned(), vec![]);
    let r2 = client.build_request("getinfo".to_owned(), vec![Value::Num(4)]);
    assert_eq!(r1.id, Value::Num(1));
    assert_eq!(r2.id, Value::Num(2));
    assert_eq!(r1.method, "getinfo");
    assert_eq!(r2.params, vec![Value::Num(4)]);
    assert_eq!(client.last_nonce(), 2);
}

#[test]
fn client_new_holds_credentials() {
    let client = Client::new(
        "http://h".to_owned(),
        Some("user".to_owned()),
        Some("pass".to_owned()),
    );
    assert_eq!(client.url(), "http://h");
    assert_eq!(client.user().as_deref(), Some("user"));
    assert_eq!(client.pass().as_deref(), Some("pass"));
}

#[test]
fn send_nonce_mismatch_discards_response() {
    let client = Client::new("http://h".to_owned(), None, None);
    let req = Request { method: "m".to_owned(), params: vec![], id: Value::Num(1) };
    let r = client.send_request(&req, AttemptOutcome::Delivered(good_body(2)), None);
    assert!(matches!(r, Err(Error::NonceMismatch)));
}

#[test]
fn send_matching_nonce_returns_response() {
    let client = Client::new("http://h".to_owned(), None, None);
    let req = Request { method: "m".to_owned(), params: vec![], id: Value::Num(7) };
    let resp = client
        .send_request(&req, AttemptOutcome::Delivered(good_body(7)), None)
        .unwrap();
    assert_eq!(resp.id, Value::Num(7));
    assert_eq!(resp.result, Some(Value::Bool(true)));
}

#[test]
fn send_retries_once_after_aborted_connection() {
    let client = Client::new("http://h".to_owned(), None, None);
    let req = Request { method: "m".to_owned(), params: vec![], id: Value::Num(3) };
    let r = client.send_request(
        &req,
        aborted(),
        Some(AttemptOutcome::Delivered(good_body(3))),
    );
    let resp = r.unwrap();
    assert_eq!(resp.id, Value::Num(3));
    assert_eq!(resp.result, Some(Value::Bool(true)));
}

#[test]
fn send_two_aborts_surface_transport_error() {
    let client = Client::new("http://h".to_owned(), None, None);
    let req = Request { method: "m".to_owned(), params: vec![], id: Value::Num(3) };
    let r = client.send_request(&req, aborted(), Some(aborted()));
    match r {
        Err(Error::Transport(e)) => assert!(e.aborted),
        _ => panic!("expected a transport failure"),
    }
}

#[test]
fn send_other_transport_failure_not_retried() {
    let req = Request { method: "m".to_owned(), params: vec![], id: Value::Num(1) };
    let step = stratum::client::send_step(
        &req,
        SendPhase::First,
        AttemptOutcome::TransportFailed(TransportError {
            aborted: false,
            message: "connection refused".to_owned(),
        }),
    );
    match step {
        SendStep::Finished(Err(Error::Transport(e))) => {
            assert!(!e.aborted);
            assert_eq!(e.message, "connection refused");
        },
        _ => panic!("expected an immediate transport failure"),
    }
}

#[test]
fn send_step_requests_retry_on_first_abort() {
    let req = Request { method: "m".to_owned(), params: vec![], id: Value::Num(1) };
    assert!(matches!(
        stratum::client::send_step(&req, SendPhase::First, aborted()),
        SendStep::Post
    ));
    assert!(matches!(
        stratum::client::send_step(&req, SendPhase::Retry, aborted()),
        SendStep::Finished(Err(Error::Transport(_)))
    ));
}

#[test]
fn send_read_failure_is_io() {
    let client = Client::new("http://h".to_owned(), None, None);
    let req = Request { method: "m".to_owned(), params: vec![], id: Value::Num(1) };
    let r = client.send_request(
        &req,
        AttemptOutcome::ReadFailed("stream closed".to_owned()),
        None,
    );
    assert!(matches!(r, Err(Error::Io(_))));
}

#[test]
fn send_bad_body_is_decode_error() {
    let client = Client::new("http://h".to_owned(), None, None);
    let req = Request { method: "m".to_owned(), params: vec![], id: Value::Num(1) };
    let r = client.send_request(
        &req,
        AttemptOutcome::Delivered("it broke".to_owned()),
        None,
    );
    assert!(matches!(r, Err(Error::Decode)));
}

#[test]
fn error_descriptions() {
    assert_eq!(Error::NonceMismatch.description(), "Nonce of response did not match nonce of request");
    assert_eq!(Error::NoErrorOrResult.description(), "Malformed RPC response");
    assert_eq!(Error::Decode.description(), "JSON decode error");
}
