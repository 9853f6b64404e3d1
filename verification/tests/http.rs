use smech_farm::http::{body_of, describe_failure, get_request, post_request, Failure};

#[test]
fn a_post_says_how_many_bytes_it_sends() {
    assert_eq!(
        post_request("h:1", "/p", "é"),
        "POST /p HTTP/1.0\r\nHost: h:1\r\nContent-Type: application/json\r\nContent-Length: 2\r\n\r\né"
    );
}

#[test]
fn a_get() {
    assert_eq!(get_request("h:1", "/p"), "GET /p HTTP/1.0\r\nHost: h:1\r\n\r\n");
}

#[test]
fn what_is_posted_is_received() {
    let body = "{\"a\":\"\\r\\n\"}\r\n\r\nmore";
    assert_eq!(body_of(&post_request("127.0.0.1:7734", "/api/x", body)), body);
}

#[test]
fn the_body_follows_the_first_blank_line() {
    assert_eq!(body_of("HTTP/1.0 200 OK\r\nA: b\r\n\r\n[]"), "[]");
    assert_eq!(body_of("HTTP/1.0 200 OK\r\nA: b\r\n"), "");
    assert_eq!(body_of(""), "");
}

#[test]
fn failures_say_where() {
    assert_eq!(describe_failure(Failure::Connect, "refused"), "connect failed: refused");
    assert_eq!(describe_failure(Failure::Write, "x"), "write failed: x");
    assert_eq!(describe_failure(Failure::Read, "y"), "read failed: y");
}
