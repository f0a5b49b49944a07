//! Requests: the parser and the errors it reports.

use vstd::prelude::*;
use vstd::slice::{slice_subrange, slice_to_vec};
use vstd::std_specs::cmp::PartialEqSpec;
use vstd::utf8::{decode_utf8, valid_utf8};

use crate::bytes::{
    decode_lossy, find_bytes, first_occurrence, lemma_first_occurrence, occurs_at, same_bytes,
    utf8_lossy,
};
use crate::package::{insert, lemma_insert_unique, lookup, unique_keys, HeaderMap};
use crate::router::{Route, RouteView};
use crate::text::{
    after_first_line, contains, cut, first_line, has_substring, is_whitespace, lemma_next_token,
    lemma_position, lemma_single_line, next_token, split_line, split_once, to_chars, to_string,
    token, trim, trimmed,
};
use method::{lemma_token_is_word, lemma_token_round_trip};
use cookie_list::parse_cookies;
use query::parse_query;

pub mod cookie_list;
pub mod method;
pub mod query;

pub use crate::package::Package;
pub use cookie_list::CookieList;
pub use method::Method;
pub use query::Query;

verus! {

/// Why a request could not be parsed. Each kind but `NoUrlFound` carries the
/// text that was refused.
#[derive(Debug, Eq)]
pub enum RequestError {
    /// The input is empty, or its first line lacks the method or the version.
    InvalidRequest(String),
    /// The first token of the request line names no known method.
    InvalidRequestMethod(String),
    /// The request line ends after the method.
    NoUrlFound,
    /// The third token of the request line does not hold `HTTP/`.
    HttpVersionNotSupported(String),
    /// A header line holds no colon.
    InvalidHeader(String),
    /// The query string is malformed.
    QueryError(String),
    /// A segment of the `Cookie` header is malformed.
    CookieError(String),
}

/// A [`RequestError`] with its text as a sequence of characters.
pub enum RequestErrorView {
    InvalidRequest(Seq<char>),
    InvalidRequestMethod(Seq<char>),
    NoUrlFound,
    HttpVersionNotSupported(Seq<char>),
    InvalidHeader(Seq<char>),
    QueryError(Seq<char>),
    CookieError(Seq<char>),
}

impl View for RequestError {
    type V = RequestErrorView;

    open spec fn view(&self) -> RequestErrorView {
        match self {
            RequestError::InvalidRequest(raw) => RequestErrorView::InvalidRequest(raw@),
            RequestError::InvalidRequestMethod(token) => RequestErrorView::InvalidRequestMethod(
                token@,
            ),
            RequestError::NoUrlFound => RequestErrorView::NoUrlFound,
            RequestError::HttpVersionNotSupported(token) => {
                RequestErrorView::HttpVersionNotSupported(token@)
            },
            RequestError::InvalidHeader(line) => RequestErrorView::InvalidHeader(line@),
            RequestError::QueryError(text) => RequestErrorView::QueryError(text@),
            RequestError::CookieError(segment) => RequestErrorView::CookieError(segment@),
        }
    }
}

impl Clone for RequestError {
    fn clone(&self) -> (copy: RequestError)
        ensures
            copy@ == self@,
    {
        match self {
            RequestError::InvalidRequest(raw) => RequestError::InvalidRequest(raw.clone()),
            RequestError::InvalidRequestMethod(token) => RequestError::InvalidRequestMethod(
                token.clone(),
            ),
            RequestError::NoUrlFound => RequestError::NoUrlFound,
            RequestError::HttpVersionNotSupported(token) => {
                RequestError::HttpVersionNotSupported(token.clone())
            },
            RequestError::InvalidHeader(line) => RequestError::InvalidHeader(line.clone()),
            RequestError::QueryError(text) => RequestError::QueryError(text.clone()),
            RequestError::CookieError(segment) => RequestError::CookieError(segment.clone()),
        }
    }
}

impl PartialEq for RequestError {
    fn eq(&self, other: &RequestError) -> (r: bool) {
        match (self, other) {
            (RequestError::InvalidRequest(a), RequestError::InvalidRequest(b)) => a.eq(b),
            (
                RequestError::InvalidRequestMethod(a),
                RequestError::InvalidRequestMethod(b),
            ) => a.eq(b),
            (RequestError::NoUrlFound, RequestError::NoUrlFound) => true,
            (
                RequestError::HttpVersionNotSupported(a),
                RequestError::HttpVersionNotSupported(b),
            ) => a.eq(b),
            (RequestError::InvalidHeader(a), RequestError::InvalidHeader(b)) => a.eq(b),
            (RequestError::QueryError(a), RequestError::QueryError(b)) => a.eq(b),
            (RequestError::CookieError(a), RequestError::CookieError(b)) => a.eq(b),
            _ => false,
        }
    }
}

impl vstd::std_specs::cmp::PartialEqSpecImpl for RequestError {
    open spec fn obeys_eq_spec() -> bool {
        true
    }

    /// Two errors are equal when they are of one kind and carry the same
    /// text.
    open spec fn eq_spec(&self, other: &RequestError) -> bool {
        self@ == other@
    }
}

/// A request made by a client. Two requests are equal when route, query,
/// headers and body are, and when they hold the same cookies, in whatever
/// order.
#[derive(Debug, Eq)]
pub struct Request {
    /// The route of the request: its method and its path.
    pub path: Route,
    /// The query of the request target, if the target holds a `?`.
    pub query: Option<Query>,
    /// The cookies of the request.
    pub cookies: CookieList,
    headers: HeaderMap,
    body: Option<Vec<u8>>,
}

/// A [`Request`] as plain values.
pub struct RequestView {
    pub route: RouteView,
    pub query: Option<Seq<(Seq<char>, Seq<char>)>>,
    pub cookies: Seq<(Seq<char>, Seq<char>)>,
    pub headers: Seq<(Seq<char>, Seq<char>)>,
    pub body: Option<Seq<u8>>,
}

/// The pairs of an optional query.
pub open spec fn query_view(query: Option<Query>) -> Option<Seq<(Seq<char>, Seq<char>)>> {
    match query {
        Some(q) => Some(q@),
        None => None,
    }
}

/// The bytes of an optional body.
pub open spec fn body_view(body: Option<Vec<u8>>) -> Option<Seq<u8>> {
    match body {
        Some(bytes) => Some(bytes@),
        None => None,
    }
}

/// The request that `Request::new` makes: a route, a query, and nothing else.
pub open spec fn bare_request(
    method: Method,
    path: Seq<char>,
    query: Option<Seq<(Seq<char>, Seq<char>)>>,
) -> RequestView {
    RequestView {
        route: RouteView { method, path },
        query,
        cookies: Seq::empty(),
        headers: Seq::empty(),
        body: None,
    }
}

/// What a request target parses to: its path and its query. Without `?` the
/// whole target is the path. With one, the path ends before the first `?` and
/// the query string follows it; an empty query string is refused as
/// `QueryError` with the whole target.
pub open spec fn parse_target(target: Seq<char>) -> Result<
    (Seq<char>, Option<Seq<(Seq<char>, Seq<char>)>>),
    RequestErrorView,
> {
    match split_once(target, '?') {
        None => Ok((target, None)),
        Some((path, query_string)) => if query_string.len() == 0 {
            Err(RequestErrorView::QueryError(target))
        } else {
            match parse_query(query_string) {
                Ok(pairs) => Ok((path, Some(pairs))),
                Err(error) => Err(error),
            }
        },
    }
}

/// What a request line parses to. The line is read as whitespace-separated
/// tokens: method, target, version; what follows the version is ignored.
/// `raw` is the whole input, which `InvalidRequest` carries.
pub open spec fn parse_request_line(line: Seq<char>, raw: Seq<char>) -> Result<
    RequestView,
    RequestErrorView,
> {
    match next_token(line) {
        None => Err(RequestErrorView::InvalidRequest(raw)),
        Some((name, after_method)) => match Method::from_token(name) {
            None => Err(RequestErrorView::InvalidRequestMethod(name)),
            Some(method) => match next_token(after_method) {
                None => Err(RequestErrorView::NoUrlFound),
                Some((target, after_target)) => match parse_target(target) {
                    Err(error) => Err(error),
                    Ok((path, query)) => match next_token(after_target) {
                        None => Err(RequestErrorView::InvalidRequest(raw)),
                        Some((version, _)) => if has_substring(version, "HTTP/"@) {
                            Ok(bare_request(method, path, query))
                        } else {
                            Err(RequestErrorView::HttpVersionNotSupported(version))
                        },
                    },
                },
            },
        },
    }
}

/// The headers that the lines of `s` add to `done`. Reading stops at the end
/// of `s` or before the first empty line. A line is cut at its first `:`;
/// the name is what stands before it, the value what stands after it,
/// trimmed. A line without `:` is refused as `InvalidHeader` with the line.
pub open spec fn parse_header_lines(s: Seq<char>, done: Seq<(Seq<char>, Seq<char>)>) -> Result<
    Seq<(Seq<char>, Seq<char>)>,
    RequestErrorView,
>
    decreases s.len(),
{
    if s.len() == 0 || first_line(s).len() == 0 {
        Ok(done)
    } else {
        match split_once(first_line(s), ':') {
            None => Err(RequestErrorView::InvalidHeader(first_line(s))),
            Some((name, value)) => parse_header_lines(
                after_first_line(s),
                insert(done, name, trim(value)),
            ),
        }
    }
}

/// The cookies that the headers `headers` announce: those of the header
/// named `Cookie`, none without such a header.
pub open spec fn cookies_of(headers: Seq<(Seq<char>, Seq<char>)>) -> Result<
    Seq<(Seq<char>, Seq<char>)>,
    RequestErrorView,
> {
    match lookup(headers, "Cookie"@) {
        None => Ok(Seq::empty()),
        Some(value) => parse_cookies(value),
    }
}

/// What the text of a request, without its body, parses to.
pub open spec fn parse_text(input: Seq<char>) -> Result<RequestView, RequestErrorView> {
    if input.len() == 0 {
        Err(RequestErrorView::InvalidRequest(input))
    } else {
        match parse_request_line(first_line(input), input) {
            Err(error) => Err(error),
            Ok(request) => match parse_header_lines(after_first_line(input), Seq::empty()) {
                Err(error) => Err(error),
                Ok(headers) => match cookies_of(headers) {
                    Err(error) => Err(error),
                    Ok(cookies) => Ok(RequestView { headers, cookies, ..request }),
                },
            },
        }
    }
}

/// The separator of header block and body that is looked for first: two line
/// ends of carriage return and line feed.
pub open spec fn crlf_separator() -> Seq<u8> {
    seq![13u8, 10u8, 13u8, 10u8]
}

/// The separator that is looked for where the first does not occur: two
/// line feeds.
pub open spec fn lf_separator() -> Seq<u8> {
    seq![10u8, 10u8]
}

/// A raw message cut at its separator: the header block, and what follows
/// the separator. The cut is made at the first `crlf_separator`; where there
/// is none, at the first `lf_separator`; where there is none either, the
/// whole message is header block.
pub open spec fn split_message(bytes: Seq<u8>) -> (Seq<u8>, Seq<u8>) {
    match first_occurrence(bytes, crlf_separator(), 0) {
        Some(i) => (bytes.take(i), bytes.skip(i + 4)),
        None => match first_occurrence(bytes, lf_separator(), 0) {
            Some(i) => (bytes.take(i), bytes.skip(i + 2)),
            None => (bytes, Seq::empty()),
        },
    }
}

/// The request that the header text `text` and the bytes `rest` behind the
/// separator make: what `text` parses to, with `rest` as its body where
/// `rest` is not empty.
pub open spec fn with_body(
    parsed: Result<RequestView, RequestErrorView>,
    rest: Seq<u8>,
) -> Result<RequestView, RequestErrorView> {
    match parsed {
        Ok(request) => Ok(
            RequestView { body: if rest.len() == 0 {
                None
            } else {
                Some(rest)
            }, ..request },
        ),
        Err(error) => Err(error),
    }
}

/// What the raw bytes of a request parse to. The header block is decoded as
/// UTF-8, ill-formed bytes replaced and never refused, and parsed as text;
/// the bytes behind the separator are the body, as they were received.
pub open spec fn parse_bytes(bytes: Seq<u8>) -> Result<RequestView, RequestErrorView> {
    let (head, rest) = split_message(bytes);
    with_body(parse_text(utf8_lossy(head)), rest)
}

/// The text of a body: its bytes decoded as UTF-8 with ill-formed bytes
/// replaced; empty without a body.
pub open spec fn body_text(body: Option<Seq<u8>>) -> Seq<char> {
    match body {
        Some(bytes) => utf8_lossy(bytes),
        None => Seq::empty(),
    }
}

/// Whether `r` is the outcome `expected`, values taken by their views.
pub open spec fn is_outcome(
    r: Result<Request, RequestError>,
    expected: Result<RequestView, RequestErrorView>,
) -> bool {
    match r {
        Ok(request) => expected == Ok::<RequestView, RequestErrorView>(request@),
        Err(error) => expected == Err::<RequestView, RequestErrorView>(error@),
    }
}

impl View for Request {
    type V = RequestView;

    closed spec fn view(&self) -> RequestView {
        RequestView {
            route: self.path@,
            query: query_view(self.query),
            cookies: self.cookies@,
            headers: self.headers@,
            body: body_view(self.body),
        }
    }
}

/// Whether two requests are equal: part for part, the cookies compared
/// without regard to their order.
pub open spec fn same_request(a: RequestView, b: RequestView) -> bool {
    &&& a.route == b.route
    &&& a.query == b.query
    &&& a.cookies.to_multiset() == b.cookies.to_multiset()
    &&& a.headers == b.headers
    &&& a.body == b.body
}

impl Clone for Request {
    fn clone(&self) -> (copy: Request)
        ensures
            copy@ == self@,
    {
        Request {
            path: self.path.clone(),
            query: match &self.query {
                Some(query) => Some(query.clone()),
                None => None,
            },
            cookies: self.cookies.clone(),
            headers: self.headers.clone(),
            body: match &self.body {
                Some(body) => Some(slice_to_vec(body.as_slice())),
                None => None,
            },
        }
    }
}

impl PartialEq for Request {
    fn eq(&self, other: &Request) -> (r: bool) {
        let same_query = match (&self.query, &other.query) {
            (Some(a), Some(b)) => a.eq(b),
            (None, None) => true,
            _ => false,
        };
        let same_body = match (&self.body, &other.body) {
            (Some(a), Some(b)) => same_bytes(a.as_slice(), b.as_slice()),
            (None, None) => true,
            _ => false,
        };
        self.path.eq(&other.path) && same_query && self.cookies.eq(&other.cookies)
            && self.headers.eq(&other.headers) && same_body
    }
}

impl vstd::std_specs::cmp::PartialEqSpecImpl for Request {
    open spec fn obeys_eq_spec() -> bool {
        true
    }

    open spec fn eq_spec(&self, other: &Request) -> bool {
        same_request(self@, other@)
    }
}

impl Package for Request {
    open spec fn header_entries(&self) -> Seq<(Seq<char>, Seq<char>)> {
        self@.headers
    }

    open spec fn body_bytes(&self) -> Option<Seq<u8>> {
        self@.body
    }

    fn get_header_list(&self) -> (headers: &HeaderMap) {
        proof {
            use_type_invariant(&self.headers);
        }
        &self.headers
    }

    fn get_header(&self, key: &str) -> (value: Option<&String>) {
        self.headers.get(key)
    }

    fn add_header(&mut self, key: &str, value: &str)
        ensures
            final(self)@ == (RequestView {
                headers: insert(old(self)@.headers, key@, value@),
                ..old(self)@
            }),
    {
        self.headers.insert(key, value);
    }

    fn get_body(&self) -> (body: Option<&Vec<u8>>) {
        self.body.as_ref()
    }

    fn set_body(&mut self, body: Vec<u8>)
        ensures
            final(self)@ == (RequestView { body: Some(body@), ..old(self)@ }),
    {
        self.body = Some(body);
    }
}

impl Request {
    /// A request for `method` and `path` with the query `query`: without
    /// headers, cookies or body.
    pub fn new(method: Method, path: &str, query: Option<Query>) -> (request: Request)
        ensures
            request@ == bare_request(method, path@, query_view(query)),
    {
        Request {
            path: Route::new(method, path),
            headers: HeaderMap::new(),
            query,
            cookies: CookieList::new(),
            body: None,
        }
    }

    /// The route: method and path.
    pub fn route(&self) -> (route: &Route)
        ensures
            route@ == self@.route,
    {
        &self.path
    }

    /// The query of the target, if the target held a `?`.
    pub fn query(&self) -> (query: Option<&Query>)
        ensures
            match query {
                Some(q) => self@.query == Some(q@),
                None => self@.query is None,
            },
    {
        self.query.as_ref()
    }

    /// The cookies.
    pub fn cookies(&self) -> (cookies: &CookieList)
        ensures
            cookies@ == self@.cookies,
    {
        &self.cookies
    }

    /// The body as text, ill-formed bytes replaced; empty without a body.
    /// A body of well-formed UTF-8 gives the text that it encodes.
    pub fn get_body_string(&self) -> (text: String)
        ensures
            text@ == body_text(self@.body),
            self@.body matches Some(bytes) ==> valid_utf8(bytes) ==> text@ == decode_utf8(bytes),
    {
        match &self.body {
            Some(body) => decode_lossy(body.as_slice()),
            None => String::new(),
        }
    }

    /// The header block of `bytes` and what follows its separator.
    pub fn split_sequence(bytes: &[u8]) -> (parts: (&[u8], &[u8]))
        ensures
            (parts.0@, parts.1@) == split_message(bytes@),
    {
        let crlf = vec![13u8, 10u8, 13u8, 10u8];
        let lf = vec![10u8, 10u8];
        assert(crlf@ =~= crlf_separator() && crlf@.len() == 4);
        assert(lf@ =~= lf_separator() && lf@.len() == 2);
        match find_bytes(bytes, crlf.as_slice()) {
            Some(i) => (slice_subrange(bytes, 0, i), slice_subrange(bytes, i + crlf.len(), bytes.len())),
            None => match find_bytes(bytes, lf.as_slice()) {
                Some(i) => (
                    slice_subrange(bytes, 0, i),
                    slice_subrange(bytes, i + lf.len(), bytes.len()),
                ),
                None => (bytes, slice_subrange(bytes, 0, 0)),
            },
        }
    }

    /// The request that `parsed` and the bytes `rest` behind the separator
    /// make: `rest` becomes the body unless it is empty.
    pub fn attach_body(parsed: Result<Request, RequestError>, rest: &[u8]) -> (r: Result<
        Request,
        RequestError,
    >)
        ensures
            forall|expected: Result<RequestView, RequestErrorView>|
                is_outcome(parsed, expected) ==> is_outcome(r, with_body(expected, rest@)),
    {
        match parsed {
            Ok(mut request) => {
                if rest.len() > 0 {
                    request.set_body(slice_to_vec(rest));
                } else {
                    request.body = None;
                }
                Ok(request)
            },
            Err(error) => Err(error),
        }
    }

    /// Parses the raw bytes of a request: header block and body. A header
    /// block of well-formed UTF-8 is parsed as the text that it encodes.
    pub fn parse_bytes(bytes: &[u8]) -> (r: Result<Request, RequestError>)
        ensures
            is_outcome(r, parse_bytes(bytes@)),
            valid_utf8(split_message(bytes@).0) ==> is_outcome(
                r,
                with_body(
                    parse_text(decode_utf8(split_message(bytes@).0)),
                    split_message(bytes@).1,
                ),
            ),
    {
        let (head, rest) = Request::split_sequence(bytes);
        let header_string = decode_lossy(head);
        let parsed = Request::parse_header_str(header_string.as_str());
        Request::attach_body(parsed, rest)
    }

    /// Parses a request target into its path and its query.
    fn parse_target(target: &[char]) -> (r: Result<(String, Option<Query>), RequestError>)
        ensures
            match r {
                Ok((path, query)) => parse_target(target@) == Ok::<_, RequestErrorView>(
                    (path@, query_view(query)),
                ),
                Err(error) => parse_target(target@) == Err::<
                    (Seq<char>, Option<Seq<(Seq<char>, Seq<char>)>>),
                    _,
                >(error@),
            },
    {
        match cut(target, '?') {
            None => Ok((to_string(target), None)),
            Some((path, query_string)) => {
                if query_string.len() == 0 {
                    return Err(RequestError::QueryError(to_string(target)));
                }
                match Query::from_chars(query_string) {
                    Ok(query) => Ok((to_string(path), Some(query))),
                    Err(error) => Err(error),
                }
            },
        }
    }

    /// Parses the request line `line` of the input `raw`.
    fn parse_request_line(line: &[char], raw: &str) -> (r: Result<Request, RequestError>)
        ensures
            is_outcome(r, parse_request_line(line@, raw@)),
    {
        let (name, after_method) = match token(line) {
            Some(found) => found,
            None => {
                return Err(RequestError::InvalidRequest(raw.to_owned()));
            },
        };
        let method = match Method::from_chars(name) {
            Some(method) => method,
            None => {
                return Err(RequestError::InvalidRequestMethod(to_string(name)));
            },
        };
        let (target, after_target) = match token(after_method) {
            Some(found) => found,
            None => {
                return Err(RequestError::NoUrlFound);
            },
        };
        let (path, query) = match Request::parse_target(target) {
            Ok(parts) => parts,
            Err(error) => {
                return Err(error);
            },
        };
        let version = match token(after_target) {
            Some((version, _)) => version,
            None => {
                return Err(RequestError::InvalidRequest(raw.to_owned()));
            },
        };
        let marker = to_chars("HTTP/");
        if !contains(version, marker.as_slice()) {
            return Err(RequestError::HttpVersionNotSupported(to_string(version)));
        }
        Ok(Request::new(method, path.as_str(), query))
    }

    /// Reads the header lines of `text` into `headers`.
    fn parse_header_lines(text: &[char], headers: &mut HeaderMap) -> (r: Result<
        (),
        RequestError,
    >)
        ensures
            match r {
                Ok(()) => parse_header_lines(text@, old(headers)@) == Ok::<_, RequestErrorView>(
                    final(headers)@,
                ),
                Err(error) => parse_header_lines(text@, old(headers)@) == Err::<
                    Seq<(Seq<char>, Seq<char>)>,
                    _,
                >(error@),
            },
    {
        let mut rest: &[char] = text;
        loop
            invariant
                parse_header_lines(text@, old(headers)@) == parse_header_lines(rest@, headers@),
            decreases rest@.len(),
        {
            if rest.len() == 0 {
                return Ok(());
            }
            let (header, next) = split_line(rest);
            if header.len() == 0 {
                return Ok(());
            }
            match cut(header, ':') {
                None => {
                    return Err(RequestError::InvalidHeader(to_string(header)));
                },
                Some((name, value)) => {
                    headers.put(to_string(name), to_string(trimmed(value)));
                },
            }
            rest = next;
        }
    }

    /// Parses the text of a request: the request line, then the header lines
    /// up to the first empty line, then the cookies of the `Cookie` header.
    /// The request has no body.
    pub fn parse_header_str(header_string: &str) -> (r: Result<Request, RequestError>)
        ensures
            is_outcome(r, parse_text(header_string@)),
    {
        let chars = to_chars(header_string);
        let text = chars.as_slice();
        if text.len() == 0 {
            return Err(RequestError::InvalidRequest(header_string.to_owned()));
        }
        let (request_line, header_lines) = split_line(text);
        let mut request = match Request::parse_request_line(request_line, header_string) {
            Ok(request) => request,
            Err(error) => {
                return Err(error);
            },
        };
        match Request::parse_header_lines(header_lines, &mut request.headers) {
            Ok(()) => {},
            Err(error) => {
                return Err(error);
            },
        }
        let cookies = match request.headers.get("Cookie") {
            Some(value) => {
                let value = to_chars(value.as_str());
                match CookieList::from_chars(value.as_slice()) {
                    Ok(cookies) => cookies,
                    Err(error) => {
                        return Err(error);
                    },
                }
            },
            None => CookieList::new(),
        };
        request.cookies = cookies;
        Ok(request)
    }
}

/// The request line that names `method`, `target` and the version 1.1,
/// each separated from the next by one space.
pub open spec fn request_line(method: Method, target: Seq<char>) -> Seq<char> {
    method.token() + " "@ + target + " HTTP/1.1"@
}

/// A request line holds no line feed, where its target holds no whitespace.
pub proof fn lemma_request_line_is_one_line(method: Method, target: Seq<char>)
    requires
        forall|j: int| 0 <= j < target.len() ==> !is_whitespace(target[j]),
    ensures
        forall|j: int|
            0 <= j < request_line(method, target).len() ==> request_line(method, target)[j]
                != '\n',
{
    reveal_strlit(" ");
    reveal_strlit(" HTTP/1.1");
    let name = method.token();
    let input = request_line(method, target);
    lemma_token_is_word(method);
    assert forall|j: int| 0 <= j < input.len() implies input[j] != '\n' by {
        if j < name.len() {
            assert(input[j] == name[j]);
        } else if j == name.len() {
        } else if j < name.len() + 1 + target.len() {
            assert(input[j] == target[j - name.len() - 1]);
        } else {
            assert(input[j] == " HTTP/1.1"@[j - name.len() - 1 - target.len()]);
        }
    }
}

/// A request line of a known method, a well-formed target and the version
/// 1.1 is accepted, whatever the input around it: where `target` is not
/// empty, holds no whitespace and parses to `path` and `query`, the line
/// `request_line(method, target)` parses to the request of `method`, `path`
/// and `query`.
pub proof fn lemma_request_line_is_accepted(
    method: Method,
    target: Seq<char>,
    path: Seq<char>,
    query: Option<Seq<(Seq<char>, Seq<char>)>>,
    raw: Seq<char>,
)
    requires
        target.len() > 0,
        forall|j: int| 0 <= j < target.len() ==> !is_whitespace(target[j]),
        parse_target(target) == Ok::<_, RequestErrorView>((path, query)),
    ensures
        parse_request_line(request_line(method, target), raw) == Ok::<_, RequestErrorView>(
            bare_request(method, path, query),
        ),
{
    reveal_strlit(" ");
    reveal_strlit(" HTTP/1.1");
    reveal_strlit("HTTP/1.1");
    reveal_strlit("HTTP/");
    let name = method.token();
    let version = "HTTP/1.1"@;
    let space = " "@;
    let input = request_line(method, target);
    lemma_token_is_word(method);
    lemma_token_round_trip(method);
    assert(" HTTP/1.1"@ =~= space + version);
    assert(input =~= Seq::<char>::empty() + name + (space + target + (space + version)));
    lemma_next_token(Seq::empty(), name, space + target + (space + version));
    assert(space + target + (space + version) =~= space + target + (space + version + Seq::<
        char,
    >::empty()));
    lemma_next_token(space, target, space + version + Seq::<char>::empty());
    lemma_next_token(space, version, Seq::empty());
    assert(version.subrange(0int, 0int + "HTTP/"@.len()) =~= "HTTP/"@);
    assert(has_substring(version, "HTTP/"@));
}

/// A request line of a known method, a well-formed target and the version
/// 1.1 parses, and the route of the request is that method with the path of
/// the target: where `target` is not empty, holds no whitespace and parses to
/// `path` and `query`, the text `request_line(method, target)` parses to the
/// request of `method`, `path` and `query` without headers, cookies or body.
pub proof fn lemma_request_line_parses(
    method: Method,
    target: Seq<char>,
    path: Seq<char>,
    query: Option<Seq<(Seq<char>, Seq<char>)>>,
)
    requires
        target.len() > 0,
        forall|j: int| 0 <= j < target.len() ==> !is_whitespace(target[j]),
        parse_target(target) == Ok::<_, RequestErrorView>((path, query)),
    ensures
        parse_text(request_line(method, target)) == Ok::<_, RequestErrorView>(
            bare_request(method, path, query),
        ),
{
    let input = request_line(method, target);
    lemma_token_is_word(method);
    lemma_request_line_is_one_line(method, target);
    lemma_single_line(input);
    lemma_request_line_is_accepted(method, target, path, query, input);
}

/// The same request line, ended by carriage return and line feed and
/// followed by header lines, parses to the same route with those headers:
/// where the lines of `tail` give the headers `headers` and these announce
/// the cookies `cookies`, the request has the method, path and query of the
/// request line, and `headers` and `cookies`.
pub proof fn lemma_request_parses(
    method: Method,
    target: Seq<char>,
    path: Seq<char>,
    query: Option<Seq<(Seq<char>, Seq<char>)>>,
    tail: Seq<char>,
    headers: Seq<(Seq<char>, Seq<char>)>,
    cookies: Seq<(Seq<char>, Seq<char>)>,
)
    requires
        target.len() > 0,
        forall|j: int| 0 <= j < target.len() ==> !is_whitespace(target[j]),
        parse_target(target) == Ok::<_, RequestErrorView>((path, query)),
        parse_header_lines(tail, Seq::empty()) == Ok::<_, RequestErrorView>(headers),
        cookies_of(headers) == Ok::<_, RequestErrorView>(cookies),
    ensures
        parse_text(request_line(method, target) + "\r\n"@ + tail) == Ok::<_, RequestErrorView>(
            RequestView { headers, cookies, ..bare_request(method, path, query) },
        ),
{
    reveal_strlit("\r\n");
    let first = request_line(method, target);
    let input = first + "\r\n"@ + tail;
    lemma_token_is_word(method);
    lemma_request_line_is_one_line(method, target);
    let p: int = first.len() as int + 1;
    assert forall|j: int| 0 <= j < p implies input[j] != '\n' by {
        if j < first.len() {
            assert(input[j] == first[j]);
        }
    }
    lemma_position(input, '\n', p);
    assert(input.take(p - 1) =~= first);
    assert(input.skip(p + 1) =~= tail);
    lemma_request_line_is_accepted(method, target, path, query, input);
}

/// A request line of a known method, a path and the version 1.1 parses to
/// the route of that method and that path: where `path` is not empty and
/// holds neither whitespace nor `?`, the text `request_line(method, path)`
/// parses to the request of `method` and `path` without query, headers,
/// cookies or body.
pub proof fn lemma_path_line_parses(method: Method, path: Seq<char>)
    requires
        path.len() > 0,
        forall|j: int| 0 <= j < path.len() ==> !is_whitespace(path[j]) && path[j] != '?',
    ensures
        parse_text(request_line(method, path)) == Ok::<_, RequestErrorView>(
            bare_request(method, path, None),
        ),
{
    lemma_position(path, '?', path.len() as int);
    lemma_request_line_parses(method, path, path, None);
}

/// The cut of a raw message is made at the first separator and drops it.
/// Either the message is header block, `crlf_separator` and rest, with no
/// earlier `crlf_separator`; or it holds no `crlf_separator` and is header
/// block, `lf_separator` and rest, with no earlier `lf_separator`; or it
/// holds neither and is header block as a whole.
pub proof fn lemma_split_message(bytes: Seq<u8>)
    ensures
        ({
            let (head, rest) = split_message(bytes);
            ||| bytes == head + crlf_separator() + rest && forall|j: int|
                0 <= j < head.len() ==> !occurs_at(bytes, crlf_separator(), j)
            ||| bytes == head + lf_separator() + rest && (forall|j: int|
                0 <= j ==> !occurs_at(bytes, crlf_separator(), j)) && forall|j: int|
                0 <= j < head.len() ==> !occurs_at(bytes, lf_separator(), j)
            ||| head == bytes && rest.len() == 0 && forall|j: int|
                0 <= j ==> !occurs_at(bytes, crlf_separator(), j) && !occurs_at(
                    bytes,
                    lf_separator(),
                    j,
                )
        }),
{
    let (head, rest) = split_message(bytes);
    lemma_first_occurrence(bytes, crlf_separator(), 0);
    lemma_first_occurrence(bytes, lf_separator(), 0);
    match first_occurrence(bytes, crlf_separator(), 0) {
        Some(i) => {
            assert(bytes =~= head + bytes.subrange(i, i + 4) + rest);
        },
        None => match first_occurrence(bytes, lf_separator(), 0) {
            Some(i) => {
                assert(bytes =~= head + bytes.subrange(i, i + 2) + rest);
            },
            None => {},
        },
    }
}

/// A request that was parsed from bytes has a body exactly where bytes
/// follow the separator, and the body is those bytes.
pub proof fn lemma_body_is_what_follows(bytes: Seq<u8>)
    ensures
        parse_bytes(bytes) matches Ok(request) ==> (request.body is None <==> split_message(
            bytes,
        ).1.len() == 0) && (request.body matches Some(body) ==> body == split_message(bytes).1),
{
}

/// A request that was parsed from text has no body.
pub proof fn lemma_text_has_no_body(input: Seq<char>)
    ensures
        parse_text(input) matches Ok(request) ==> request.body is None,
{
}

/// The cookies of a parsed request are not empty only where its headers
/// hold one named `Cookie`.
pub proof fn lemma_cookies_need_header(input: Seq<char>)
    ensures
        parse_text(input) matches Ok(request) ==> request.cookies.len() > 0 ==> lookup(
            request.headers,
            "Cookie"@,
        ) is Some,
{
}

/// Reading header lines keeps header names unique.
pub proof fn lemma_header_lines_unique(s: Seq<char>, done: Seq<(Seq<char>, Seq<char>)>)
    requires
        unique_keys(done),
    ensures
        parse_header_lines(s, done) matches Ok(headers) ==> unique_keys(headers),
    decreases s.len(),
{
    if !(s.len() == 0 || first_line(s).len() == 0) {
        match split_once(first_line(s), ':') {
            None => {},
            Some((name, value)) => {
                lemma_insert_unique(done, name, trim(value));
                lemma_header_lines_unique(after_first_line(s), insert(done, name, trim(value)));
            },
        }
    }
}

/// Parsing is a function of the input: two outcomes of parsing the same
/// text are equal, part for part, and `==` holds of them.
pub proof fn lemma_parse_text_is_deterministic(
    input: Seq<char>,
    first: Result<Request, RequestError>,
    second: Result<Request, RequestError>,
)
    requires
        is_outcome(first, parse_text(input)),
        is_outcome(second, parse_text(input)),
    ensures
        match (first, second) {
            (Ok(a), Ok(b)) => a@ == b@ && a.eq_spec(&b),
            (Err(a), Err(b)) => a@ == b@ && a.eq_spec(&b),
            _ => false,
        },
{
}

/// Two outcomes of parsing the same bytes are equal, part for part, and `==`
/// holds of them.
pub proof fn lemma_parse_bytes_is_deterministic(
    input: Seq<u8>,
    first: Result<Request, RequestError>,
    second: Result<Request, RequestError>,
)
    requires
        is_outcome(first, parse_bytes(input)),
        is_outcome(second, parse_bytes(input)),
    ensures
        match (first, second) {
            (Ok(a), Ok(b)) => a@ == b@ && a.eq_spec(&b),
            (Err(a), Err(b)) => a@ == b@ && a.eq_spec(&b),
            _ => false,
        },
{
}

impl vstd::std_specs::convert::FromSpecImpl<Route> for Request {
    open spec fn obeys_from_spec() -> bool {
        false
    }

    open spec fn from_spec(route: Route) -> Request {
        arbitrary()
    }
}

impl From<Route> for Request {
    /// A request for the route `path`: without query, headers, cookies or
    /// body.
    fn from(path: Route) -> (request: Request)
        ensures
            request@ == bare_request(path.method, path.path@, None),
    {
        Request::new(path.method, path.path.as_str(), None)
    }
}

impl<'a> vstd::std_specs::convert::TryFromSpecImpl<&'a str> for Request {
    open spec fn obeys_try_from_spec() -> bool {
        false
    }

    open spec fn try_from_spec(req: &'a str) -> Result<Request, RequestError> {
        arbitrary()
    }
}

impl<'a> TryFrom<&'a str> for Request {
    type Error = RequestError;

    /// Parses the text of a request without a body.
    fn try_from(req: &'a str) -> (r: Result<Request, RequestError>)
        ensures
            is_outcome(r, parse_text(req@)),
    {
        Request::parse_header_str(req)
    }
}

impl vstd::std_specs::convert::TryFromSpecImpl<Vec<u8>> for Request {
    open spec fn obeys_try_from_spec() -> bool {
        false
    }

    open spec fn try_from_spec(binary_data: Vec<u8>) -> Result<Request, RequestError> {
        arbitrary()
    }
}

impl TryFrom<Vec<u8>> for Request {
    type Error = RequestError;

    /// Parses the raw bytes of a request: header block and body. A header
    /// block of well-formed UTF-8 is parsed as the text that it encodes.
    fn try_from(binary_data: Vec<u8>) -> (r: Result<Request, RequestError>)
        ensures
            is_outcome(r, parse_bytes(binary_data@)),
            valid_utf8(split_message(binary_data@).0) ==> is_outcome(
                r,
                with_body(
                    parse_text(decode_utf8(split_message(binary_data@).0)),
                    split_message(binary_data@).1,
                ),
            ),
    {
        Request::parse_bytes(binary_data.as_slice())
    }
}

} // verus!
