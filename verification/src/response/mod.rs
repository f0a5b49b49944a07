//! Responses and their wire format.

use vstd::prelude::*;
use vstd::slice::slice_to_vec;
use vstd::utf8::{decode_utf8, encode_utf8, valid_utf8};

use crate::bytes::{decode_lossy, same_bytes};
use crate::package::{insert, HeaderMap};
use crate::request::cookie_list::set_cookie_text;
use crate::request::{body_text, body_view, CookieList};

pub mod status;

pub use crate::package::Package;
pub use status::Status;

verus! {

/// The character of the decimal digit `d`.
pub open spec fn digit(d: nat) -> char {
    if d == 0 {
        '0'
    } else if d == 1 {
        '1'
    } else if d == 2 {
        '2'
    } else if d == 3 {
        '3'
    } else if d == 4 {
        '4'
    } else if d == 5 {
        '5'
    } else if d == 6 {
        '6'
    } else if d == 7 {
        '7'
    } else if d == 8 {
        '8'
    } else {
        '9'
    }
}

/// The decimal digits of `n`, without leading zeros.
pub open spec fn decimal(n: nat) -> Seq<char>
    decreases n,
{
    if n < 10 {
        seq![digit(n)]
    } else {
        decimal(n / 10).push(digit(n % 10))
    }
}

/// The status line: protocol version, code, reason phrase, line end. The
/// version is always `1.1`.
pub open spec fn status_line(status: Status) -> Seq<char> {
    "HTTP/1.1 "@ + decimal(status.code_value()) + " "@ + status.reason() + "\r\n"@
}

/// One line for each header, oldest name first: name, `": "`, value, line
/// end.
pub open spec fn header_lines(headers: Seq<(Seq<char>, Seq<char>)>) -> Seq<char>
    decreases headers.len(),
{
    if headers.len() == 0 {
        Seq::empty()
    } else {
        header_lines(headers.drop_last()) + headers.last().0 + ": "@ + headers.last().1 + "\r\n"@
    }
}

/// All that stands before the body: status line, header lines, and the
/// empty line that ends the header block.
pub open spec fn head_text(response: ResponseView) -> Seq<char> {
    status_line(response.status) + header_lines(response.headers) + "\r\n"@
}

/// The bytes of an optional body; none without a body.
pub open spec fn body_or_empty(body: Option<Seq<u8>>) -> Seq<u8> {
    match body {
        Some(bytes) => bytes,
        None => Seq::empty(),
    }
}

/// The bytes of a response on the wire: the head, encoded as UTF-8, then
/// the body as it stands, with nothing behind it.
pub open spec fn wire_bytes(response: ResponseView) -> Seq<u8> {
    encode_utf8(head_text(response)) + body_or_empty(response.body)
}

/// A response as text: the head, then the body decoded as UTF-8 with
/// ill-formed bytes replaced.
pub open spec fn wire_text(response: ResponseView) -> Seq<char> {
    head_text(response) + body_text(response.body)
}

/// A response to a client. Two responses are equal when status, headers
/// in their order, and body are.
#[derive(Debug, Eq)]
pub struct Response {
    status: Status,
    headers: HeaderMap,
    body: Option<Vec<u8>>,
}

/// A [`Response`] as plain values.
pub struct ResponseView {
    pub status: Status,
    pub headers: Seq<(Seq<char>, Seq<char>)>,
    pub body: Option<Seq<u8>>,
}

impl View for Response {
    type V = ResponseView;

    closed spec fn view(&self) -> ResponseView {
        ResponseView {
            status: self.status,
            headers: self.headers@,
            body: body_view(self.body),
        }
    }
}

impl Clone for Response {
    fn clone(&self) -> (copy: Response)
        ensures
            copy@ == self@,
    {
        Response {
            status: self.status,
            headers: self.headers.clone(),
            body: match &self.body {
                Some(body) => Some(slice_to_vec(body.as_slice())),
                None => None,
            },
        }
    }
}

impl PartialEq for Response {
    fn eq(&self, other: &Response) -> (r: bool) {
        let same_body = match (&self.body, &other.body) {
            (Some(a), Some(b)) => same_bytes(a.as_slice(), b.as_slice()),
            (None, None) => true,
            _ => false,
        };
        self.status == other.status && self.headers.eq(&other.headers) && same_body
    }
}

impl vstd::std_specs::cmp::PartialEqSpecImpl for Response {
    open spec fn obeys_eq_spec() -> bool {
        true
    }

    open spec fn eq_spec(&self, other: &Response) -> bool {
        self@ == other@
    }
}

impl Package for Response {
    open spec fn header_entries(&self) -> Seq<(Seq<char>, Seq<char>)> {
        self@.headers
    }

    open spec fn body_bytes(&self) -> Option<Seq<u8>> {
        self@.body
    }

    fn get_header_list(&self) -> (headers: &HeaderMap) {
        proof {
            use_type_invariant(&self.headers);
        }
        &self.headers
    }

    fn get_header(&self, key: &str) -> (value: Option<&String>) {
        self.headers.get(key)
    }

    fn add_header(&mut self, key: &str, value: &str)
        ensures
            final(self)@ == (ResponseView {
                headers: insert(old(self)@.headers, key@, value@),
                ..old(self)@
            }),
    {
        self.headers.insert(key, value);
    }

    fn get_body(&self) -> (body: Option<&Vec<u8>>) {
        self.body.as_ref()
    }

    fn set_body(&mut self, body: Vec<u8>)
        ensures
            final(self)@ == (ResponseView { body: Some(body@), ..old(self)@ }),
    {
        self.body = Some(body);
    }
}

/// Appends the decimal digits of `n` to `text`.
fn push_decimal(text: &mut String, n: u16)
    ensures
        final(text)@ == old(text)@ + decimal(n as nat),
    decreases n,
{
    if n >= 10 {
        push_decimal(text, n / 10);
    }
    let d: u16 = n % 10;
    let c = if d == 0 {
        '0'
    } else if d == 1 {
        '1'
    } else if d == 2 {
        '2'
    } else if d == 3 {
        '3'
    } else if d == 4 {
        '4'
    } else if d == 5 {
        '5'
    } else if d == 6 {
        '6'
    } else if d == 7 {
        '7'
    } else if d == 8 {
        '8'
    } else {
        '9'
    };
    text.push(c);
    assert(text@ =~= old(text)@ + decimal(n as nat));
}

impl Response {
    /// A response with the status `status`, without headers or body.
    pub fn new(status: Status) -> (response: Response)
        ensures
            response@ == (ResponseView { status, headers: Seq::empty(), body: None }),
    {
        Response { status, headers: HeaderMap::new(), body: None }
    }

    /// The status.
    pub fn status(&self) -> (status: Status)
        ensures
            status == self@.status,
    {
        self.status
    }

    /// Sets the status to `status`.
    pub fn set_status(&mut self, status: Status)
        ensures
            final(self)@ == (ResponseView { status, ..old(self)@ }),
    {
        self.status = status;
    }

    /// Sets the body to the bytes of `text`.
    pub fn set_body_string(&mut self, text: String)
        ensures
            final(self)@ == (ResponseView { body: Some(encode_utf8(text@)), ..old(self)@ }),
    {
        self.body = Some(text.as_str().as_bytes_vec());
    }

    /// Sets the header `Set-Cookie` to the cookie `name` with the value
    /// `value` and the attributes `attributes`.
    pub fn set_cookie(&mut self, name: &str, value: &str, attributes: &[&str])
        ensures
            final(self)@ == (ResponseView {
                headers: insert(
                    old(self)@.headers,
                    "Set-Cookie"@,
                    set_cookie_text(name@, value@, attributes.deep_view()),
                ),
                ..old(self)@
            }),
    {
        let cookie = CookieList::render_set_cookie(name, value, attributes);
        self.headers.put("Set-Cookie".to_owned(), cookie);
    }

    /// Sets the header `Set-Cookie` to the session cookie `name` with the
    /// value `value`: a cookie without attributes, so without an expiry.
    pub fn set_session_cookie(&mut self, name: &str, value: &str)
        ensures
            final(self)@ == (ResponseView {
                headers: insert(old(self)@.headers, "Set-Cookie"@, name@ + "="@ + value@),
                ..old(self)@
            }),
    {
        let none: Vec<&str> = Vec::new();
        let attributes = none.as_slice();
        assert(attributes.deep_view() =~= Seq::empty());
        self.set_cookie(name, value, attributes);
        assert(name@ + "="@ + value@ + Seq::<char>::empty() =~= name@ + "="@ + value@);
    }

    /// Turns the response into a permanent redirect to `location`: the
    /// status becomes 301 and the header `Location` becomes `location`,
    /// whatever they were.
    pub fn redirect(&mut self, location: &str)
        ensures
            final(self)@ == (ResponseView {
                status: Status::MovedPermanently,
                headers: insert(old(self)@.headers, "Location"@, location@),
                ..old(self)@
            }),
    {
        self.status = Status::MovedPermanently;
        self.headers.insert("Location", location);
    }

    /// The head of the response as text.
    fn head(&self) -> (text: String)
        ensures
            text@ == head_text(self@),
    {
        let mut text = "HTTP/1.1 ".to_owned();
        push_decimal(&mut text, self.status.code());
        text.append(" ");
        text.append(self.status.reason_phrase());
        text.append("\r\n");
        let ghost first = text@;
        let mut i: usize = 0;
        while i < self.headers.len()
            invariant
                i <= self.headers@.len(),
                first == status_line(self.status),
                text@ == first + header_lines(self.headers@.take(i as int)),
            decreases self.headers@.len() - i,
        {
            let (name, value) = self.headers.entry(i);
            text.append(name.as_str());
            text.append(": ");
            text.append(value.as_str());
            text.append("\r\n");
            proof {
                let now = self.headers@.take(i + 1);
                assert(now.drop_last() =~= self.headers@.take(i as int));
                assert(now.last() == self.headers@[i as int]);
                assert(text@ =~= first + header_lines(now));
            }
            i += 1;
        }
        assert(self.headers@.take(i as int) =~= self.headers@);
        text.append("\r\n");
        text
    }

    /// The response as the bytes that go over the wire: status line, header
    /// lines, an empty line, then the body with nothing behind it.
    pub fn to_wire_format(&self) -> (bytes: Vec<u8>)
        ensures
            bytes@ == wire_bytes(self@),
    {
        let head = self.head();
        let mut bytes = head.as_str().as_bytes_vec();
        match &self.body {
            Some(body) => {
                let ghost before = bytes@;
                let mut i: usize = 0;
                while i < body.len()
                    invariant
                        i <= body.len(),
                        bytes@ == before + body@.take(i as int),
                    decreases body.len() - i,
                {
                    bytes.push(body[i]);
                    assert(bytes@ =~= before + body@.take(i + 1));
                    i += 1;
                }
                assert(body@.take(i as int) =~= body@);
            },
            None => {
                assert(bytes@ =~= bytes@ + Seq::<u8>::empty());
            },
        }
        bytes
    }

    /// The response as text: as on the wire, the body decoded as UTF-8 with
    /// ill-formed bytes replaced. A body of well-formed UTF-8 gives the text
    /// that it encodes.
    pub fn to_string(&self) -> (text: String)
        ensures
            text@ == wire_text(self@),
            self@.body matches Some(bytes) ==> valid_utf8(bytes) ==> text@ == head_text(self@)
                + decode_utf8(bytes),
    {
        let mut text = self.head();
        match &self.body {
            Some(body) => {
                let body = decode_lossy(body.as_slice());
                text.append(body.as_str());
            },
            None => {
                assert(text@ =~= text@ + Seq::<char>::empty());
            },
        }
        text
    }
}

/// Serializing is a function of the response: two wire formats of the same
/// response are equal, byte for byte, and so are two renderings as text.
pub proof fn lemma_wire_format_is_deterministic(
    response: Response,
    first: Vec<u8>,
    second: Vec<u8>,
    first_text: String,
    second_text: String,
)
    requires
        first@ == wire_bytes(response@),
        second@ == wire_bytes(response@),
        first_text@ == wire_text(response@),
        second_text@ == wire_text(response@),
    ensures
        first@ == second@,
        first_text@ == second_text@,
{
}

} // verus!
