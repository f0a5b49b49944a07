use servidor_http::request::{CookieList, Method, Package, Query, Request, RequestError};
use servidor_http::router::Route;

fn parse(text: &str) -> Result<Request, RequestError> {
    Request::parse_header_str(text)
}

fn pairs_of(query: &Query) -> Vec<(String, String)> {
    let mut pairs = Vec::new();
    for i in 0..query.len() {
        let (key, value) = query.pair(i);
        pairs.push((key.clone(), value.clone()));
    }
    pairs
}

fn owned(pairs: &[(&str, &str)]) -> Vec<(String, String)> {
    pairs.iter().map(|(k, v)| (k.to_string(), v.to_string())).collect()
}

#[test]
fn parses_request_with_query_and_header() {
    let request = parse("GET /a?x=1 HTTP/1.1\r\nHost: h\r\n\r\n").unwrap();
    assert_eq!(request.path, Route::new(Method::Get, "/a"));
    assert_eq!(request.path.path, "/a");
    assert_eq!(request.path.method, Method::Get);
    assert_eq!(pairs_of(request.query.as_ref().unwrap()), owned(&[("x", "1")]));
    assert_eq!(request.get_header("Host"), Some(&String::from("h")));
    assert_eq!(request.get_header_list().len(), 1);
    assert_eq!(request.get_body(), None);
    assert_eq!(request.cookies.len(), 0);
}

#[test]
fn unknown_method_is_refused_with_its_token() {
    assert_eq!(
        parse("BOGUS /a HTTP/1.1\r\n\r\n"),
        Err(RequestError::InvalidRequestMethod(String::from("BOGUS")))
    );
}

#[test]
fn version_without_marker_is_refused_with_its_token() {
    assert_eq!(
        parse("GET /a BOGUS\r\n\r\n"),
        Err(RequestError::HttpVersionNotSupported(String::from("BOGUS")))
    );
}

#[test]
fn bytes_with_cookies_and_body() {
    let request =
        Request::try_from(b"GET / HTTP/1.1\r\nCookie: a=1; b=2\r\n\r\nBODY".to_vec()).unwrap();
    assert!(request.cookies.contains("a", "1"));
    assert!(request.cookies.contains("b", "2"));
    assert_eq!(request.cookies.len(), 2);
    assert_eq!(request.get_body(), Some(&b"BODY".to_vec()));
    assert_eq!(request.get_body_string(), "BODY");
    assert_eq!(request.path, Route::new(Method::Get, "/"));
    assert_eq!(request.query, None);
}

#[test]
fn every_method_line_parses_to_its_route() {
    let methods = [
        (Method::Get, "GET"),
        (Method::Head, "HEAD"),
        (Method::Post, "POST"),
        (Method::Put, "PUT"),
        (Method::Delete, "DELETE"),
        (Method::Connect, "CONNECT"),
        (Method::Options, "OPTIONS"),
        (Method::Trace, "TRACE"),
        (Method::Patch, "PATCH"),
    ];
    for (method, token) in methods {
        assert_eq!(method.as_str(), token);
        let request = parse(&format!("{} /some/path HTTP/1.1", token)).unwrap();
        assert_eq!(request.path.method, method);
        assert_eq!(request.path.path, "/some/path");
        assert_eq!(request.query, None);
        assert_eq!(request.get_header_list().len(), 0);
        assert_eq!(request.get_body(), None);
    }
}

#[test]
fn method_tokens_are_case_sensitive() {
    assert_eq!(
        parse("get / HTTP/1.1"),
        Err(RequestError::InvalidRequestMethod(String::from("get")))
    );
    assert_eq!(
        parse("GETS / HTTP/1.1"),
        Err(RequestError::InvalidRequestMethod(String::from("GETS")))
    );
    assert_eq!(
        parse("GE / HTTP/1.1"),
        Err(RequestError::InvalidRequestMethod(String::from("GE")))
    );
}

#[test]
fn empty_input_is_invalid() {
    assert_eq!(parse(""), Err(RequestError::InvalidRequest(String::new())));
}

#[test]
fn blank_request_line_is_invalid_with_raw_input() {
    assert_eq!(
        parse("\r\nHost: h\r\n"),
        Err(RequestError::InvalidRequest(String::from("\r\nHost: h\r\n")))
    );
    assert_eq!(parse("  \t "), Err(RequestError::InvalidRequest(String::from("  \t "))));
}

#[test]
fn missing_target_is_no_url_found() {
    assert_eq!(parse("GET"), Err(RequestError::NoUrlFound));
    assert_eq!(parse("GET  \r\nHost: h"), Err(RequestError::NoUrlFound));
}

#[test]
fn missing_version_is_invalid_with_raw_input() {
    assert_eq!(
        parse("GET /a\r\nHost: h"),
        Err(RequestError::InvalidRequest(String::from("GET /a\r\nHost: h")))
    );
}

#[test]
fn empty_query_after_mark_is_refused_with_target() {
    assert_eq!(
        parse("GET /a? HTTP/1.1"),
        Err(RequestError::QueryError(String::from("/a?")))
    );
}

#[test]
fn malformed_query_is_refused_with_query_string() {
    assert_eq!(
        parse("GET /a?x HTTP/1.1"),
        Err(RequestError::QueryError(String::from("x")))
    );
    assert_eq!(
        parse("GET /a?x=1&y HTTP/1.1"),
        Err(RequestError::QueryError(String::from("x=1&y")))
    );
}

#[test]
fn query_error_comes_before_missing_version() {
    assert_eq!(parse("GET /a?x"), Err(RequestError::QueryError(String::from("x"))));
}

#[test]
fn target_is_cut_at_first_question_mark() {
    let request = parse("GET /a?x=1?2&y=?3 HTTP/1.1").unwrap();
    assert_eq!(request.path.path, "/a");
    assert_eq!(
        pairs_of(request.query.as_ref().unwrap()),
        owned(&[("x", "1?2"), ("y", "?3")])
    );
}

#[test]
fn tokens_are_separated_by_any_whitespace() {
    let request = parse(" \tPOST\t\t/x \u{a0} HTTP/1.0   trailing words").unwrap();
    assert_eq!(request.path, Route::new(Method::Post, "/x"));
}

#[test]
fn version_needs_only_the_marker() {
    assert!(parse("GET / xHTTP/").is_ok());
    assert!(parse("GET / HTTP/9.9").is_ok());
    assert_eq!(
        parse("GET / HTTP"),
        Err(RequestError::HttpVersionNotSupported(String::from("HTTP")))
    );
    assert_eq!(
        parse("GET / http/1.1"),
        Err(RequestError::HttpVersionNotSupported(String::from("http/1.1")))
    );
    assert_eq!(
        parse("GET / HTTP1/"),
        Err(RequestError::HttpVersionNotSupported(String::from("HTTP1/")))
    );
}

#[test]
fn header_without_colon_is_refused_with_line() {
    assert_eq!(
        parse("GET / HTTP/1.1\r\nHost: h\r\nbroken line\r\n\r\n"),
        Err(RequestError::InvalidHeader(String::from("broken line")))
    );
}

#[test]
fn header_value_is_trimmed_and_name_is_not() {
    let request = parse("GET / HTTP/1.1\r\n Name :  \t some value \t \r\n").unwrap();
    assert_eq!(request.get_header(" Name "), Some(&String::from("some value")));
    assert_eq!(request.get_header("Name"), None);
}

#[test]
fn header_is_cut_at_first_colon() {
    let request = parse("GET / HTTP/1.1\r\nHost: example.org:8080\r\n:v\r\n").unwrap();
    assert_eq!(request.get_header("Host"), Some(&String::from("example.org:8080")));
    assert_eq!(request.get_header(""), Some(&String::from("v")));
}

#[test]
fn header_names_are_case_sensitive() {
    let request = parse("GET / HTTP/1.1\r\nhost: a\r\nHost: b\r\n").unwrap();
    assert_eq!(request.get_header("host"), Some(&String::from("a")));
    assert_eq!(request.get_header("Host"), Some(&String::from("b")));
    assert_eq!(request.get_header("HOST"), None);
    assert_eq!(request.get_header_list().len(), 2);
}

#[test]
fn last_header_of_a_name_wins() {
    let request = parse("GET / HTTP/1.1\r\nA: 1\r\nB: 2\r\nA: 3\r\n").unwrap();
    let headers = request.get_header_list();
    assert_eq!(headers.len(), 2);
    assert_eq!(request.get_header("A"), Some(&String::from("3")));
    assert_eq!(headers.entry(0), (&String::from("A"), &String::from("3")));
    assert_eq!(headers.entry(1), (&String::from("B"), &String::from("2")));
}

#[test]
fn headers_end_at_first_empty_line() {
    let request = parse("GET / HTTP/1.1\r\nA: 1\r\n\r\nno colon here\r\nB: 2\r\n").unwrap();
    assert_eq!(request.get_header_list().len(), 1);
    assert_eq!(request.get_header("B"), None);
    assert_eq!(request.get_body(), None);
}

#[test]
fn line_feed_alone_ends_a_line() {
    let request = parse("GET /p HTTP/1.1\nA: 1\nB: 2\n\n").unwrap();
    assert_eq!(request.path.path, "/p");
    assert_eq!(request.get_header("A"), Some(&String::from("1")));
    assert_eq!(request.get_header("B"), Some(&String::from("2")));
}

#[test]
fn carriage_return_without_line_feed_stays_in_the_line() {
    let request = parse("GET / HTTP/1.1\r\nA: 1\rB: 2").unwrap();
    assert_eq!(request.get_header_list().len(), 1);
    assert_eq!(request.get_header("A"), Some(&String::from("1\rB: 2")));
}

#[test]
fn malformed_cookie_header_fails_the_parse() {
    assert_eq!(
        parse("GET / HTTP/1.1\r\nCookie: a=1;  broken \r\n"),
        Err(RequestError::CookieError(String::from("broken")))
    );
    assert_eq!(
        parse("GET / HTTP/1.1\r\nCookie: a=1;\r\n"),
        Err(RequestError::CookieError(String::new()))
    );
}

#[test]
fn cookie_header_name_is_exact() {
    let request = parse("GET / HTTP/1.1\r\ncookie: broken\r\nCOOKIE: a=1\r\n").unwrap();
    assert_eq!(request.cookies.len(), 0);
    assert_eq!(request.cookies, CookieList::new());
}

#[test]
fn last_cookie_header_is_the_one_parsed() {
    let request = parse("GET / HTTP/1.1\r\nCookie: broken\r\nCookie: a=1\r\n").unwrap();
    assert!(request.cookies.contains("a", "1"));
    assert_eq!(request.cookies.len(), 1);
}

#[test]
fn requests_are_equal_whatever_the_order_of_their_cookies() {
    let one = parse("GET / HTTP/1.1\r\nCookie: a=1; b=2\r\n").unwrap();
    let mut other = parse("GET / HTTP/1.1\r\nCookie: a=1; b=2\r\n").unwrap();
    other.cookies = CookieList::try_from("b=2; a=1").unwrap();
    assert_eq!(one, other);
    other.cookies = CookieList::try_from("b=2").unwrap();
    assert_ne!(one, other);
}

#[test]
fn text_form_is_what_try_from_str_does() {
    let text = "PUT /r?k=v HTTP/1.1\r\nX: y\r\n";
    assert_eq!(Request::try_from(text), parse(text));
    assert_eq!(Request::try_from("nope"), parse("nope"));
}

#[test]
fn parsing_twice_gives_equal_requests() {
    let text = "GET /a?x=1&y=2 HTTP/1.1\r\nHost: h\r\nCookie: s=1\r\n\r\n";
    assert_eq!(parse(text), parse(text));
    let bytes = b"GET /a HTTP/1.1\r\nHost: h\r\n\r\n\xff\x00body".to_vec();
    assert_eq!(Request::try_from(bytes.clone()), Request::try_from(bytes));
    assert_eq!(parse("GET"), parse("GET"));
}

#[test]
fn crlf_separator_is_tried_before_lf_separator() {
    let request = Request::try_from(b"GET / HTTP/1.1\n\nA: 1\r\n\r\nBODY".to_vec()).unwrap();
    assert_eq!(request.get_body(), Some(&b"BODY".to_vec()));
    assert_eq!(request.get_header_list().len(), 0);

    let request = Request::try_from(b"GET / HTTP/1.1\nA: 1\n\nBO\n\nDY".to_vec()).unwrap();
    assert_eq!(request.get_body(), Some(&b"BO\n\nDY".to_vec()));
    assert_eq!(request.get_header("A"), Some(&String::from("1")));
}

#[test]
fn first_separator_splits_the_message() {
    let request =
        Request::try_from(b"GET / HTTP/1.1\r\nA: 1\r\n\r\none\r\n\r\ntwo".to_vec()).unwrap();
    assert_eq!(request.get_body(), Some(&b"one\r\n\r\ntwo".to_vec()));
}

#[test]
fn message_without_separator_has_no_body() {
    let request = Request::try_from(b"GET / HTTP/1.1\r\nA: 1\r\n".to_vec()).unwrap();
    assert_eq!(request.get_body(), None);
    assert_eq!(request.get_header("A"), Some(&String::from("1")));
    assert_eq!(request.get_body_string(), "");
}

#[test]
fn separator_with_nothing_behind_it_gives_no_body() {
    let request = Request::try_from(b"GET / HTTP/1.1\r\nA: 1\r\n\r\n".to_vec()).unwrap();
    assert_eq!(request.get_body(), None);
    let request = Request::try_from(b"GET / HTTP/1.1\n\n".to_vec()).unwrap();
    assert_eq!(request.get_body(), None);
}

#[test]
fn empty_bytes_are_invalid() {
    assert_eq!(
        Request::try_from(Vec::<u8>::new()),
        Err(RequestError::InvalidRequest(String::new()))
    );
    assert_eq!(
        Request::try_from(b"\r\n\r\nbody".to_vec()),
        Err(RequestError::InvalidRequest(String::new()))
    );
}

#[test]
fn ill_formed_header_bytes_are_replaced() {
    let request = Request::try_from(b"GET /\xff HTTP/1.1\r\nA: \xc3\x28\r\n\r\n".to_vec()).unwrap();
    assert_eq!(request.path.path, "/\u{fffd}");
    assert_eq!(request.get_header("A"), Some(&String::from("\u{fffd}(")));
}

#[test]
fn body_bytes_are_kept_as_received() {
    let request = Request::try_from(b"POST /u HTTP/1.1\r\n\r\n\xff\xfe\r\n\x00".to_vec()).unwrap();
    assert_eq!(request.get_body(), Some(&vec![0xff, 0xfe, b'\r', b'\n', 0x00]));
    assert_eq!(request.get_body_string(), "\u{fffd}\u{fffd}\r\n\u{0}");
}

#[test]
fn header_text_may_hold_any_unicode() {
    let request = parse("GET /caf\u{e9}?cl\u{e9}=\u{4e2d} HTTP/1.1\r\nX-\u{e9}: \u{3000}v\u{2003}\r\n")
        .unwrap();
    assert_eq!(request.path.path, "/caf\u{e9}");
    assert_eq!(
        pairs_of(request.query.as_ref().unwrap()),
        owned(&[("cl\u{e9}", "\u{4e2d}")])
    );
    assert_eq!(request.get_header("X-\u{e9}"), Some(&String::from("v")));
}

#[test]
fn new_request_is_bare() {
    let request = Request::new(Method::Delete, "/item", None);
    assert_eq!(request.path, Route::new(Method::Delete, "/item"));
    assert_eq!(request.query, None);
    assert_eq!(request.cookies.len(), 0);
    assert_eq!(request.get_header_list().len(), 0);
    assert_eq!(request.get_body(), None);
    assert_eq!(request.get_body_string(), "");
    assert_eq!(request.route(), &Route::new(Method::Delete, "/item"));
    assert_eq!(request.query(), None);
    assert_eq!(request.cookies(), &CookieList::new());
}

#[test]
fn new_request_keeps_its_query() {
    let query = Query::try_from("a=1").unwrap();
    let request = Request::new(Method::Get, "/", Some(query.clone()));
    assert_eq!(request.query, Some(query));
}

#[test]
fn request_from_route() {
    let request = Request::from(Route::new(Method::Head, "/r"));
    assert_eq!(request, Request::new(Method::Head, "/r", None));
}

#[test]
fn request_headers_and_body_can_be_set() {
    let mut request = Request::new(Method::Post, "/", None);
    request.add_header("A", "1");
    request.add_header("A", "2");
    request.set_body(vec![1, 2, 3]);
    assert_eq!(request.get_header("A"), Some(&String::from("2")));
    assert_eq!(request.get_header_list().len(), 1);
    assert_eq!(request.get_body(), Some(&vec![1, 2, 3]));
    request.set_body(Vec::new());
    assert_eq!(request.get_body(), Some(&Vec::new()));
}

#[test]
fn attach_body_sets_what_follows_the_separator() {
    let parsed = parse("GET / HTTP/1.1");
    let request = Request::attach_body(parsed, b"xyz").unwrap();
    assert_eq!(request.get_body(), Some(&b"xyz".to_vec()));
    let request = Request::attach_body(Ok(request), b"").unwrap();
    assert_eq!(request.get_body(), None);
    assert_eq!(
        Request::attach_body(Err(RequestError::NoUrlFound), b"xyz"),
        Err(RequestError::NoUrlFound)
    );
}

#[test]
fn split_sequence_cuts_at_the_separator() {
    let parts = Request::split_sequence(b"head\r\n\r\nbody");
    assert_eq!(parts, (&b"head"[..], &b"body"[..]));
    let parts = Request::split_sequence(b"head\n\nbody");
    assert_eq!(parts, (&b"head"[..], &b"body"[..]));
    let parts = Request::split_sequence(b"\n\nhead\r\n\r\nbody");
    assert_eq!(parts, (&b"\n\nhead"[..], &b"body"[..]));
    let parts = Request::split_sequence(b"head\r\n\rbody");
    assert_eq!(parts, (&b"head\r\n\rbody"[..], &b""[..]));
    let parts = Request::split_sequence(b"");
    assert_eq!(parts, (&b""[..], &b""[..]));
    let parts = Request::split_sequence(b"\n\n");
    assert_eq!(parts, (&b""[..], &b""[..]));
}
