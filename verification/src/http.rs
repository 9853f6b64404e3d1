//! Requests to the orchestrator, and what it answers, as text.

use vstd::prelude::*;

use crate::text;
use crate::text::{number, tail};

verus! {

/// What ends the head of a message.
pub open spec fn blank_line() -> Seq<char> {
    "\r\n\r\n"@
}

/// The head of a request that sends `body` under `path` to `addr`.
pub open spec fn post_head(addr: Seq<char>, path: Seq<char>, body: Seq<char>) -> Seq<char> {
    "POST "@ + path + " HTTP/1.0\r\nHost: "@ + addr
        + "\r\nContent-Type: application/json\r\nContent-Length: "@ + text::nat_text(
        vstd::utf8::encode_utf8(body).len(),
    ) + blank_line()
}

/// The request that sends `body` under `path` to `addr`: it says how many bytes `body` has.
pub fn post_request(addr: &str, path: &str, body: &str) -> (r: String)
    ensures
        r@ == post_head(addr@, path@, body@) + body@,
{
    let n = body.as_bytes().len();
    "POST ".to_string().concat(path).concat(" HTTP/1.0\r\nHost: ").concat(addr).concat(
        "\r\nContent-Type: application/json\r\nContent-Length: ",
    ).concat(number(n as u64).as_str()).concat("\r\n\r\n").concat(body)
}

/// The request that asks `addr` for `path`.
pub open spec fn get_text(addr: Seq<char>, path: Seq<char>) -> Seq<char> {
    "GET "@ + path + " HTTP/1.0\r\nHost: "@ + addr + blank_line()
}

/// The request that asks `addr` for `path`.
pub fn get_request(addr: &str, path: &str) -> (r: String)
    ensures
        r@ == get_text(addr@, path@),
{
    "GET ".to_string().concat(path).concat(" HTTP/1.0\r\nHost: ").concat(addr).concat("\r\n\r\n")
}

/// The body of a message: what follows its first blank line, and nothing where it has none.
pub fn body_of(message: &str) -> (r: String)
    ensures
        r@ == text::after(message@, blank_line()),
{
    tail(message, "\r\n\r\n").to_string()
}

/// Where an exchange with the orchestrator failed.
#[derive(Clone, Copy, Debug, PartialEq, Eq)]
pub enum Failure {
    Connect,
    Write,
    Read,
}

/// What a worker says of an exchange that failed for the reason `why`.
pub open spec fn failure_text(at: Failure, why: Seq<char>) -> Seq<char> {
    match at {
        Failure::Connect => "connect failed: "@ + why,
        Failure::Write => "write failed: "@ + why,
        Failure::Read => "read failed: "@ + why,
    }
}

/// What a worker says of an exchange that failed for the reason `why`.
pub fn describe_failure(at: Failure, why: &str) -> (r: String)
    ensures
        r@ == failure_text(at, why@),
{
    match at {
        Failure::Connect => "connect failed: ".to_string().concat(why),
        Failure::Write => "write failed: ".to_string().concat(why),
        Failure::Read => "read failed: ".to_string().concat(why),
    }
}

/// The body of a message is what follows its head, where the head has no blank line of its own.
pub proof fn law_body_follows_head(head: Seq<char>, body: Seq<char>)
    requires
        forall|i: int|
            0 <= i < head.len() ==> !text::occurs_at(
                head + blank_line() + body,
                blank_line(),
                i,
            ),
    ensures
        text::after(head + blank_line() + body, blank_line()) == body,
{
    let m = head + blank_line() + body;
    let n = head.len() as int;
    reveal_strlit("\r\n\r\n");
    assert(m.subrange(n, n + 4) =~= blank_line());
    assert(text::occurs_at(m, blank_line(), n));
    text::lemma_find_from(m, blank_line(), 0);
    assert(text::find(m, blank_line()) == Some(n));
    assert(m.skip(n + 4) =~= body);
}

/// Whether no carriage return stands in `s`.
pub open spec fn one_line(s: Seq<char>) -> bool {
    forall|i: int| 0 <= i < s.len() ==> #[trigger] s[i] != '\r'
}

/// What is sent is what is received: the body of a request is the body that was given, where the
/// address and the path are single lines.
pub proof fn law_posted_body_is_received(addr: Seq<char>, path: Seq<char>, body: Seq<char>)
    requires
        one_line(addr),
        one_line(path),
    ensures
        text::after(post_head(addr, path, body) + body, blank_line()) == body,
{
    reveal_strlit("POST ");
    reveal_strlit(" HTTP/1.0\r\nHost: ");
    reveal_strlit("\r\nContent-Type: application/json\r\nContent-Length: ");
    reveal_strlit("\r\n\r\n");
    let size = text::nat_text(vstd::utf8::encode_utf8(body).len());
    text::lemma_nat_text(vstd::utf8::encode_utf8(body).len());
    let a = "POST "@;
    let b = " HTTP/1.0\r\nHost: "@;
    let c = "\r\nContent-Type: application/json\r\nContent-Length: "@;
    let head = a + path + b + addr + c + size;
    let m = head + blank_line() + body;
    assert(post_head(addr, path, body) + body =~= m);
    let p1 = a.len() + path.len();
    let p2 = p1 + b.len();
    let p3 = p2 + addr.len();
    let p4 = p3 + c.len();
    assert forall|i: int| 0 <= i < head.len() implies !text::occurs_at(m, blank_line(), i) by {
        if text::occurs_at(m, blank_line(), i) {
            let w = m.subrange(i, i + 4);
            assert(w[0] == '\r' && w[2] == '\r');
            assert(m[i] == '\r' && m[i + 2] == '\r');
            if i < a.len() {
                assert(m[i] == a[i]);
            } else if i < p1 {
                assert(m[i] == path[i - a.len()]);
            } else if i < p2 {
                assert(m[i] == b[i - p1]);
                assert(i - p1 == 9);
                assert(m[i + 2] == b[11]);
            } else if i < p3 {
                assert(m[i] == addr[i - p2]);
            } else if i < p4 {
                assert(m[i] == c[i - p3]);
                assert(i - p3 == 0 || i - p3 == 32);
                assert(m[i + 2] == c[i - p3 + 2]);
            } else {
                assert(m[i] == size[i - p4]);
                assert(text::is_digit(size[i - p4]));
            }
        }
    }
    law_body_follows_head(head, body);
}

/// A request to do something names the path, the host, what kind of body follows and how many bytes
/// it has; a request to tell something ends after the host.
pub proof fn law_requests(addr: Seq<char>, path: Seq<char>, body: Seq<char>)
    ensures
        post_head(addr, path, body) == "POST "@ + path + " HTTP/1.0\r\nHost: "@ + addr
            + "\r\nContent-Type: application/json\r\nContent-Length: "@ + text::int_text(
            vstd::utf8::encode_utf8(body).len() as int,
        ) + "\r\n\r\n"@,
        get_text(addr, path) == "GET "@ + path + " HTTP/1.0\r\nHost: "@ + addr + "\r\n\r\n"@,
{
}

/// What is said of a request that did not get through: where it failed, and why.
pub proof fn law_failures(why: Seq<char>)
    ensures
        failure_text(Failure::Connect, why) == "connect failed: "@ + why,
        failure_text(Failure::Write, why) == "write failed: "@ + why,
        failure_text(Failure::Read, why) == "read failed: "@ + why,
{
}

} // verus!
