use rest_services::tcp_server::connection::{
    classify, route, Action, Connection, ReadOutcome, ReadResult, StatusCounts,
};
use rest_services::tcp_server::http::{
    build_response, find_subsequence, parse_head, ParseError, RequestHead, MAX_HEAD_BYTES,
};
use rest_services::tcp_server::metrics::Metrics;
use rest_services::tcp_server::registry::Registry;
use rest_services::net::SocketAddress;

fn addr() -> SocketAddress {
    SocketAddress::V4 { ip4: 0x7f00_0001, port: 1234 }
}

/// What a peer saw, and how often the deadline of a request was started.
struct Session {
    output: String,
    deadline_starts: usize,
    served: usize,
}

/// Drives one connection over the given reads; when they are used up the peer has
/// closed its side.
fn drive(reads: &[&[u8]], max_body: usize, at_end: ReadResult, shutdown: bool) -> Session {
    let mut metrics = Metrics::default();
    let mut registry = Registry::spawn();
    let mut conn = Connection::open(max_body, &mut metrics);
    let guard = registry.guard(1, addr());
    let mut output: Vec<u8> = Vec::new();
    let mut deadline_starts = 0;
    let mut served = 0;
    let mut next_read = 0;
    loop {
        let action = conn.next(shutdown);
        let action = match action {
            Action::ReadIdle | Action::ReadRequest { .. } => {
                if matches!(action, Action::ReadRequest { start_deadline: true }) {
                    deadline_starts += 1;
                }
                let outcome = if next_read < reads.len() {
                    let bytes = reads[next_read];
                    next_read += 1;
                    conn.receive(ReadResult::Read(bytes.len()), bytes)
                } else {
                    conn.receive(at_end, &[])
                };
                match conn.on_read(outcome) {
                    None => continue,
                    Some(end) => end,
                }
            }
            other => other,
        };
        match action {
            Action::Serve { wants_counts } => {
                served += 1;
                let active = if wants_counts { registry.active_count() as u64 } else { 0 };
                let reply = conn.serve(shutdown, active, &mut metrics);
                output.extend_from_slice(&reply.bytes);
                if !reply.keep_alive {
                    break;
                }
            }
            Action::Reject(bytes) => {
                output.extend_from_slice(&bytes);
                break;
            }
            Action::Close => break,
            _ => unreachable!(),
        }
    }
    registry.release(guard);
    assert_eq!(registry.active_count(), 0);
    assert_eq!(metrics.connections_total(), 1);
    assert_eq!(metrics.requests_total(), served as u64);
    Session {
        output: String::from_utf8(output).unwrap(),
        deadline_starts,
        served,
    }
}

fn round_trip(raw: &str) -> String {
    drive(&[raw.as_bytes()], 64 * 1024, ReadResult::Read(0), false).output
}

#[test]
fn parses_a_simple_get() {
    let raw = b"GET /hello HTTP/1.1\r\nHost: x\r\n\r\n";
    let (head, len) = parse_head(raw).unwrap();
    assert_eq!(head.method, "GET");
    assert_eq!(head.path, "/hello");
    assert!(head.keep_alive); // 1.1 default
    assert_eq!(head.content_length, 0);
    assert_eq!(len, raw.len());
}

#[test]
fn http_1_0_defaults_to_close_and_connection_header_overrides() {
    let (h10, _) = parse_head(b"GET / HTTP/1.0\r\n\r\n").unwrap();
    assert!(!h10.keep_alive);
    let (h10ka, _) = parse_head(b"GET / HTTP/1.0\r\nConnection: keep-alive\r\n\r\n").unwrap();
    assert!(h10ka.keep_alive);
    let (h11c, _) = parse_head(b"GET / HTTP/1.1\r\nConnection: close\r\n\r\n").unwrap();
    assert!(!h11c.keep_alive);
}

#[test]
fn reads_content_length() {
    let (h, len) = parse_head(b"POST /x HTTP/1.1\r\nContent-Length: 5\r\n\r\nhello").unwrap();
    assert_eq!(h.method, "POST");
    assert_eq!(h.content_length, 5);
    // `len` is the head only; the body ("hello") sits after it.
    assert_eq!(len, b"POST /x HTTP/1.1\r\nContent-Length: 5\r\n\r\n".len());
}

#[test]
fn incomplete_head_is_reported() {
    assert_eq!(
        parse_head(b"GET / HTTP/1.1\r\nHost: x"),
        Err(ParseError::Incomplete)
    );
    assert_eq!(parse_head(b""), Err(ParseError::Incomplete));
}

#[test]
fn malformed_request_line() {
    assert_eq!(parse_head(b"GARBAGE\r\n\r\n"), Err(ParseError::Malformed));
    assert_eq!(parse_head(b"GET /\r\n\r\n"), Err(ParseError::Malformed)); // no version
    assert_eq!(
        parse_head(b"GET / HTTP/2\r\n\r\n"),
        Err(ParseError::Malformed)
    );
}

#[test]
fn chunked_is_unsupported() {
    assert_eq!(
        parse_head(b"POST / HTTP/1.1\r\nTransfer-Encoding: chunked\r\n\r\n"),
        Err(ParseError::Unsupported)
    );
}

#[test]
fn oversized_head_is_rejected() {
    let mut raw = b"GET / HTTP/1.1\r\n".to_vec();
    raw.extend(std::iter::repeat(b'a').take(MAX_HEAD_BYTES)); // never terminates the head
    assert_eq!(parse_head(&raw), Err(ParseError::HeadTooLarge));
}

#[test]
fn builds_response_with_and_without_body() {
    let get = build_response(200, "OK", "hi", true, true);
    let text = String::from_utf8(get).unwrap();
    assert!(text.starts_with("HTTP/1.1 200 OK\r\n"));
    assert!(text.contains("content-length: 2\r\n"));
    assert!(text.contains("connection: keep-alive\r\n"));
    assert!(text.ends_with("\r\n\r\nhi"));

    // HEAD: same content-length, no body bytes.
    let head = String::from_utf8(build_response(200, "OK", "hi", false, false)).unwrap();
    assert!(head.contains("content-length: 2\r\n"));
    assert!(head.contains("connection: close\r\n"));
    assert!(head.ends_with("\r\n\r\n"));
}

#[test]
fn response_is_exact_and_counts_bytes_not_characters() {
    let text = String::from_utf8(build_response(404, "Not Found", "né\n", false, true)).unwrap();
    assert_eq!(
        text,
        "HTTP/1.1 404 Not Found\r\ncontent-type: text/plain; charset=utf-8\r\n\
         content-length: 4\r\nconnection: close\r\n\r\nné\n"
    );
}

#[test]
fn a_head_that_is_no_text_is_malformed() {
    assert_eq!(parse_head(b"GET /\xff HTTP/1.1\r\n\r\n"), Err(ParseError::Malformed));
    let (head, _) = parse_head("GET /é HTTP/1.1\r\n\r\n".as_bytes()).unwrap();
    assert_eq!(head.path, "/é");
}

#[test]
fn header_edge_cases() {
    // Names and values are trimmed and compared without regard to case.
    let (h, _) = parse_head(b"GET / HTTP/1.1\r\n cOnTeNt-LeNgTh :\t7 \r\n\r\n").unwrap();
    assert_eq!(h.content_length, 7);
    // The last of several lengths counts.
    let (h, _) =
        parse_head(b"GET / HTTP/1.1\r\nContent-Length: 1\r\nContent-Length: 2\r\n\r\n").unwrap();
    assert_eq!(h.content_length, 2);
    // A length that is no number, or none that fits, is malformed.
    for bad in ["", "-1", "1x", "99999999999999999999"] {
        let raw = format!("GET / HTTP/1.1\r\nContent-Length: {bad}\r\n\r\n");
        assert_eq!(parse_head(raw.as_bytes()), Err(ParseError::Malformed), "{bad}");
    }
    // A header without a colon is malformed.
    assert_eq!(parse_head(b"GET / HTTP/1.1\r\nnonsense\r\n\r\n"), Err(ParseError::Malformed));
    // Empty parts and further parts of the request line are malformed.
    assert_eq!(parse_head(b"GET  HTTP/1.1\r\n\r\n"), Err(ParseError::Malformed));
    assert_eq!(parse_head(b"GET / x HTTP/1.1\r\n\r\n"), Err(ParseError::Malformed));
}

#[test]
fn a_head_at_the_limit_is_accepted_and_one_beyond_is_not() {
    let fixed = b"GET / HTTP/1.1\r\nX: \r\n\r\n".len();
    let at_limit = format!("GET / HTTP/1.1\r\nX: {}\r\n\r\n", "a".repeat(MAX_HEAD_BYTES - fixed));
    assert_eq!(at_limit.len(), MAX_HEAD_BYTES);
    assert!(parse_head(at_limit.as_bytes()).is_ok());
    let beyond = format!("GET / HTTP/1.1\r\nX: {}\r\n\r\n", "a".repeat(MAX_HEAD_BYTES - fixed + 1));
    assert_eq!(parse_head(beyond.as_bytes()), Err(ParseError::HeadTooLarge));
}

#[test]
fn finds_the_first_subsequence() {
    assert_eq!(find_subsequence(b"abcbc", b"bc"), Some(1));
    assert_eq!(find_subsequence(b"abc", b"abcd"), None);
    assert_eq!(find_subsequence(b"abc", b""), None);
    assert_eq!(find_subsequence(b"", b"a"), None);
    assert_eq!(find_subsequence(b"aaab", b"aab"), Some(1));
}

#[test]
fn get_root_returns_200() {
    let resp = round_trip("GET / HTTP/1.1\r\nHost: x\r\nConnection: close\r\n\r\n");
    assert!(resp.starts_with("HTTP/1.1 200 OK\r\n"), "{resp}");
    assert!(resp.contains("Hello from tcp-actor-server"));
}

#[test]
fn unknown_path_is_404() {
    let resp = round_trip("GET /nope HTTP/1.1\r\nConnection: close\r\n\r\n");
    assert!(resp.starts_with("HTTP/1.1 404 Not Found\r\n"), "{resp}");
}

#[test]
fn unsupported_method_is_405() {
    let resp = round_trip("DELETE / HTTP/1.1\r\nConnection: close\r\n\r\n");
    assert!(
        resp.starts_with("HTTP/1.1 405 Method Not Allowed\r\n"),
        "{resp}"
    );
}

#[test]
fn malformed_request_is_400() {
    let resp = round_trip("GARBAGE\r\n\r\n");
    assert!(resp.starts_with("HTTP/1.1 400 Bad Request\r\n"), "{resp}");
}

#[test]
fn status_endpoint_reports_counters() {
    let resp = round_trip("GET /status HTTP/1.1\r\nConnection: close\r\n\r\n");
    assert!(resp.contains("\"connections_total\":"), "{resp}");
    assert!(resp.contains("\"requests_total\":"), "{resp}");
    assert!(
        resp.ends_with(
            "\r\n\r\n{\"connections_active\":1,\"connections_total\":1,\"requests_total\":1}\n"
        ),
        "{resp}"
    );
}

#[test]
fn keep_alive_serves_two_pipelined_requests() {
    // First request keep-alive, second closes: both handled on one connection.
    let raw = "GET / HTTP/1.1\r\nHost: x\r\n\r\nGET /healthz HTTP/1.1\r\nConnection: close\r\n\r\n";
    let resp = round_trip(raw);
    assert_eq!(resp.matches("HTTP/1.1 200 OK").count(), 2, "{resp}");
    assert!(resp.contains("ok\n"));
}

#[test]
fn handles_many_concurrent_connections() {
    // Fifty connections whose bytes arrive in turns.
    let raw: &[u8] = b"GET / HTTP/1.1\r\nConnection: close\r\n\r\n";
    let counts = StatusCounts { active: 50, connections_total: 50, requests_total: 0 };
    let mut conns: Vec<Connection> = (0..50).map(|_| Connection::new(64 * 1024)).collect();
    for half in [&raw[..20], &raw[20..]] {
        for conn in conns.iter_mut() {
            assert!(matches!(conn.next(false), Action::ReadIdle | Action::ReadRequest { .. }));
            assert_eq!(conn.receive(ReadResult::Read(half.len()), half), ReadOutcome::Bytes);
        }
    }
    for conn in conns.iter_mut() {
        assert!(matches!(conn.next(false), Action::Serve { .. }));
        let resp = String::from_utf8(conn.respond(false, counts).bytes).unwrap();
        assert!(resp.starts_with("HTTP/1.1 200 OK"), "{resp}");
    }
}

#[test]
fn a_request_that_trickles_in_starts_one_deadline_and_is_answered_the_same() {
    let raw: &[u8] = b"POST /x HTTP/1.1\r\nContent-Length: 5\r\nConnection: close\r\n\r\nhello";
    let whole = drive(&[raw], 1024, ReadResult::Read(0), false);
    let bytes: Vec<&[u8]> = raw.chunks(1).collect();
    let trickled = drive(&bytes, 1024, ReadResult::Read(0), false);
    assert_eq!(whole.output, trickled.output);
    assert_eq!(whole.deadline_starts, 0);
    assert_eq!(trickled.deadline_starts, 1);
    assert_eq!(trickled.served, 1);
}

#[test]
fn a_body_is_consumed_before_the_next_request() {
    let raw: &[u8] = b"POST / HTTP/1.1\r\nContent-Length: 4\r\n\r\nGET GET /healthz HTTP/1.1\r\nConnection: close\r\n\r\n";
    let session = drive(&[raw], 1024, ReadResult::Read(0), false);
    assert_eq!(session.served, 2);
    assert!(session.output.starts_with("HTTP/1.1 405"));
    assert!(session.output.ends_with("\r\n\r\nok\n"));
}

#[test]
fn stalled_and_aborted_requests() {
    let partial: &[u8] = b"GET / HT";
    // Stalled in the head.
    let s = drive(&[partial], 1024, ReadResult::Elapsed, false);
    assert!(s.output.starts_with("HTTP/1.1 408 Request Timeout\r\n"));
    assert!(s.output.ends_with("request timeout\n"));
    // Closed in the head.
    let s = drive(&[partial], 1024, ReadResult::Read(0), false);
    assert!(s.output.starts_with("HTTP/1.1 400 Bad Request\r\n"));
    assert!(s.output.ends_with("incomplete request\n"));
    // Failed in the head.
    assert_eq!(drive(&[partial], 1024, ReadResult::Failed, false).output, "");

    let body: &[u8] = b"POST / HTTP/1.1\r\nContent-Length: 5\r\n\r\nab";
    // Stalled in the body.
    let s = drive(&[body], 1024, ReadResult::Elapsed, false);
    assert!(s.output.starts_with("HTTP/1.1 408 Request Timeout\r\n"));
    // Closed or failed in the body.
    assert_eq!(drive(&[body], 1024, ReadResult::Read(0), false).output, "");
    assert_eq!(drive(&[body], 1024, ReadResult::Failed, false).output, "");

    // Idle.
    assert_eq!(drive(&[], 1024, ReadResult::Elapsed, false).output, "");
    assert_eq!(drive(&[], 1024, ReadResult::Read(0), false).output, "");
}

#[test]
fn refused_requests() {
    let chunked = "POST / HTTP/1.1\r\nTransfer-Encoding: chunked\r\n\r\n";
    let s = round_trip(chunked);
    assert!(s.starts_with("HTTP/1.1 501 Not Implemented\r\n"));
    assert!(s.ends_with("unsupported framing\n"));

    let s = round_trip(&format!("GET / HTTP/1.1\r\nX: {}", "a".repeat(9000)));
    assert!(s.starts_with("HTTP/1.1 431 Request Header Fields Too Large\r\n"));
    assert!(s.ends_with("header too large\n"));

    let big: &[u8] = b"POST / HTTP/1.1\r\nContent-Length: 11\r\n\r\n";
    let s = drive(&[big], 10, ReadResult::Read(0), false);
    assert!(s.output.starts_with("HTTP/1.1 413 Payload Too Large\r\n"));
    assert!(s.output.ends_with("payload too large\n"));
    // A body at the limit is awaited.
    let fits: &[u8] = b"POST / HTTP/1.1\r\nContent-Length: 10\r\nConnection: close\r\n\r\n0123456789";
    assert_eq!(drive(&[fits], 10, ReadResult::Read(0), false).served, 1);
}

#[test]
fn shutdown_answers_the_request_at_hand_and_closes() {
    let raw: &[u8] = b"GET / HTTP/1.1\r\n\r\nGET / HTTP/1.1\r\n\r\n";
    let mut conn = Connection::new(1024);
    assert!(matches!(conn.next(true), Action::Close)); // idle
    assert_eq!(conn.receive(ReadResult::Read(raw.len()), raw), ReadOutcome::Bytes);
    assert!(matches!(conn.next(true), Action::Serve { wants_counts: false }));
    let counts = StatusCounts { active: 0, connections_total: 0, requests_total: 0 };
    let reply = conn.respond(true, counts);
    assert!(!reply.keep_alive);
    assert!(String::from_utf8(reply.bytes).unwrap().contains("connection: close\r\n"));
}

#[test]
fn head_requests_get_no_body() {
    let resp = round_trip("HEAD /healthz HTTP/1.1\r\nConnection: close\r\n\r\n");
    assert!(resp.contains("content-length: 3\r\n"), "{resp}");
    assert!(resp.ends_with("\r\n\r\n"), "{resp}");
}

#[test]
fn head_response_is_the_get_response_without_its_bytes() {
    let full = build_response(200, "OK", "grüße\n", true, true);
    let head = build_response(200, "OK", "grüße\n", true, false);
    assert_eq!(full, [&head[..], "grüße\n".as_bytes()].concat());
}

#[test]
fn back_to_back_requests_are_answered_and_counted_once_each() {
    let raw: &[u8] = b"POST / HTTP/1.1\r\nContent-Length: 18\r\n\r\nGET / HTTP/1.1\r\n\r\n\
        HEAD /healthz HTTP/1.1\r\n\r\nGET /status HTTP/1.1\r\nConnection: close\r\n\r\nGET / HT";
    let mut m = Metrics::default();
    let mut conn = Connection::open(1024, &mut m);
    assert_eq!((m.connections_total(), m.requests_total()), (1, 0));
    assert_eq!(conn.receive(ReadResult::Read(raw.len()), raw), ReadOutcome::Bytes);
    let mut written = Vec::new();
    for n in 1..4u64 {
        assert!(matches!(conn.next(false), Action::Serve { .. }));
        let reply = conn.serve(false, 7, &mut m);
        assert_eq!(reply.keep_alive, n < 3);
        assert_eq!((m.connections_total(), m.requests_total()), (1, n));
        written.extend_from_slice(&reply.bytes);
    }
    let status = "{\"connections_active\":7,\"connections_total\":1,\"requests_total\":3}\n";
    let expected = [
        build_response(405, "Method Not Allowed", "method not allowed\n", true, true),
        build_response(200, "OK", "ok\n", true, false),
        build_response(200, "OK", status, false, true),
    ]
    .concat();
    assert_eq!(written, expected);
}

#[test]
fn classifies_reads() {
    let mut buf = b"ab".to_vec();
    assert_eq!(classify(ReadResult::Read(2), &mut buf, b"cdef"), ReadOutcome::Bytes);
    assert_eq!(buf, b"abcd");
    assert_eq!(classify(ReadResult::Read(0), &mut buf, b"cdef"), ReadOutcome::Eof);
    assert_eq!(classify(ReadResult::Elapsed, &mut buf, b"x"), ReadOutcome::Timeout);
    assert_eq!(classify(ReadResult::Failed, &mut buf, b"x"), ReadOutcome::Failed);
    assert_eq!(buf, b"abcd");
}

#[test]
fn routes_by_method_and_path() {
    let counts = StatusCounts { active: 3, connections_total: 20, requests_total: 100 };
    let head = |method: &str, path: &str| RequestHead {
        method: method.to_owned(),
        path: path.to_owned(),
        keep_alive: true,
        content_length: 0,
    };
    assert_eq!(route(&head("HEAD", "/"), counts).0, 200);
    assert_eq!(route(&head("GET", "/healthz"), counts).2, "ok\n");
    assert_eq!(
        route(&head("GET", "/status"), counts).2,
        "{\"connections_active\":3,\"connections_total\":20,\"requests_total\":100}\n"
    );
    assert_eq!(route(&head("GET", "/healthz/"), counts).0, 404);
    assert_eq!(route(&head("get", "/"), counts).0, 405);
}
