use mayara_signalk::response::{SignalKResponse, StreamPutResponse};

#[test]
fn a_completed_request() {
    let response = SignalKResponse::ok();
    assert_eq!(response.state, "COMPLETED");
    assert_eq!(response.status_code, 200);
    assert_eq!(response.message, "OK");
    assert_eq!(response.http_status(), 200);
}

#[test]
fn a_failed_request() {
    let response = SignalKResponse::failed(404, "gone".to_string());
    assert_eq!(response.state, "FAILED");
    assert_eq!(response.status_code, 404);
    assert_eq!(response.message, "gone");
    assert_eq!(response.http_status(), 404);
}

#[test]
fn a_body_that_cannot_be_read_is_a_bad_request() {
    let response = SignalKResponse::unreadable_body("expected value".to_string());
    assert_eq!(response.state, "FAILED");
    assert_eq!(response.status_code, 400);
    assert_eq!(response.message, "expected value");
}

#[test]
fn only_what_http_has_travels_as_status() {
    let status = |code: u16| SignalKResponse::failed(code, String::new()).http_status();
    assert_eq!(status(99), 500);
    assert_eq!(status(100), 100);
    assert_eq!(status(999), 999);
    assert_eq!(status(1000), 500);
    assert_eq!(status(0), 500);
}

#[test]
fn answers_to_puts_carry_the_request_id() {
    let done = StreamPutResponse::completed(Some("6b0e7f5a".to_string()));
    assert_eq!(done.request_id, Some("6b0e7f5a".to_string()));
    assert_eq!(done.state, "COMPLETED");
    assert_eq!(done.status_code, 200);
    assert_eq!(done.message, None);

    let failed = StreamPutResponse::failed(None, 400, "no".to_string());
    assert_eq!(failed.request_id, None);
    assert_eq!(failed.state, "FAILED");
    assert_eq!(failed.status_code, 400);
    assert_eq!(failed.message, Some("no".to_string()));
}
