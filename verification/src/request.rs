//! The request: a structured value and its serialization onto the wire.

use vstd::prelude::*;

use crate::constants::HttpMethods;
use crate::headers::HeaderMap;
use crate::text::dec_digits;
use crate::text::dec_string;
use vstd::string::StringExecFns;
use vstd::string::StrSliceExecFns;
use vstd::utf8::encode_utf8;

verus! {

/// One header line as it is written on the wire.
pub open spec fn spec_header_line(k: Seq<char>, v: Seq<char>) -> Seq<char> {
    k + ": "@ + v + "\r\n"@
}

/// All header lines, in map order.
pub open spec fn spec_header_lines(e: Seq<(Seq<char>, Seq<char>)>) -> Seq<char>
    decreases e.len(),
{
    if e.len() == 0 {
        Seq::<char>::empty()
    } else {
        spec_header_lines(e.drop_last()) + spec_header_line(e.last().0, e.last().1)
    }
}

/// An outgoing request: destination, method, headers, and an optional
/// body with its content type.
pub struct Request {
    host: String,
    path: String,
    method: HttpMethods,
    headers: HeaderMap,
    body: Option<Vec<u8>>,
    body_type: String,
}

impl Request {
    /// The destination host.
    pub closed spec fn spec_host(self) -> Seq<char> {
        self.host@
    }

    /// The request path.
    pub closed spec fn spec_path(self) -> Seq<char> {
        self.path@
    }

    /// The request method.
    pub closed spec fn spec_method(self) -> HttpMethods {
        self.method
    }

    /// The header map, in insertion order.
    pub closed spec fn spec_headers(self) -> Seq<(Seq<char>, Seq<char>)> {
        self.headers@
    }

    /// The body, when one is set.
    pub closed spec fn spec_body(self) -> Option<Seq<u8>> {
        match self.body {
            Some(b) => Some(b@),
            None => None,
        }
    }

    /// The declared content type of the body.
    pub closed spec fn spec_body_type(self) -> Seq<char> {
        self.body_type@
    }

    /// Everything written before the body: request line, host line,
    /// header lines, and, when a body is present, its length and type.
    pub open spec fn spec_head_text(self) -> Seq<char> {
        self.spec_method().spec_name() + " "@ + self.spec_path() + " HTTP/1.1\r\n"@ + "Host: "@
            + self.spec_host() + "\r\n"@ + spec_header_lines(self.spec_headers()) + (match self
            .spec_body() {
            Some(b) => "content-length: "@ + dec_digits(b.len()) + "\r\ncontent-type: "@
                + self.spec_body_type() + ";charset=UTF-8\r\n\r\n"@,
            None => Seq::<char>::empty(),
        })
    }

    /// The full wire form: the head text in UTF-8, the raw body bytes
    /// when present, and a closing CRLF.
    pub open spec fn spec_payload(self) -> Seq<u8> {
        encode_utf8(self.spec_head_text()) + (match self.spec_body() {
            Some(b) => b,
            None => Seq::<u8>::empty(),
        }) + encode_utf8("\r\n"@)
    }

    /// Returns a default (simple GET) request
    pub fn new() -> (r: Request)
        ensures
            r.spec_host() == ""@,
            r.spec_path() == "/"@,
            r.spec_method() == HttpMethods::Get,
            r.spec_headers() == Seq::<(Seq<char>, Seq<char>)>::empty(),
            r.spec_body() is None,
            r.spec_body_type() == "text/plain"@,
    {
        Request {
            host: "".to_owned(),
            path: "/".to_owned(),
            method: HttpMethods::Get,
            headers: HeaderMap::new(),
            body: None,
            body_type: "text/plain".to_owned(),
        }
    }

    /// Sets the destination host
    pub fn set_host(&mut self, host: String)
        ensures
            final(self).spec_host() == host@,
            final(self).spec_path() == old(self).spec_path(),
            final(self).spec_method() == old(self).spec_method(),
            final(self).spec_headers() == old(self).spec_headers(),
            final(self).spec_body() == old(self).spec_body(),
            final(self).spec_body_type() == old(self).spec_body_type(),
    {
        self.host = host;
    }

    /// Sets the request path
    pub fn set_path(&mut self, path: String)
        ensures
            final(self).spec_path() == path@,
            final(self).spec_host() == old(self).spec_host(),
            final(self).spec_method() == old(self).spec_method(),
            final(self).spec_headers() == old(self).spec_headers(),
            final(self).spec_body() == old(self).spec_body(),
            final(self).spec_body_type() == old(self).spec_body_type(),
    {
        self.path = path;
    }

    /// Set the HTTP method
    pub fn set_method(&mut self, method: HttpMethods)
        ensures
            final(self).spec_method() == method,
            final(self).spec_host() == old(self).spec_host(),
            final(self).spec_path() == old(self).spec_path(),
            final(self).spec_headers() == old(self).spec_headers(),
            final(self).spec_body() == old(self).spec_body(),
            final(self).spec_body_type() == old(self).spec_body_type(),
    {
        self.method = method;
    }

    /// Set the content type for the request body
    pub fn set_content_type(&mut self, content_type: String)
        ensures
            final(self).spec_body_type() == content_type@,
            final(self).spec_host() == old(self).spec_host(),
            final(self).spec_path() == old(self).spec_path(),
            final(self).spec_method() == old(self).spec_method(),
            final(self).spec_headers() == old(self).spec_headers(),
            final(self).spec_body() == old(self).spec_body(),
    {
        self.body_type = content_type;
    }

    /// Set the payload of the request
    pub fn set_body(&mut self, body: Option<Vec<u8>>)
        ensures
            final(self).spec_body() == (match body {
                Some(b) => Some(b@),
                None => None::<Seq<u8>>,
            }),
            final(self).spec_host() == old(self).spec_host(),
            final(self).spec_path() == old(self).spec_path(),
            final(self).spec_method() == old(self).spec_method(),
            final(self).spec_headers() == old(self).spec_headers(),
            final(self).spec_body_type() == old(self).spec_body_type(),
    {
        self.body = body;
    }

    /// Adds a user defined header to the request
    pub fn add_raw_header(&mut self, name: String, value: String)
        ensures
            final(self).spec_headers() == crate::headers::spec_insert(
                old(self).spec_headers(),
                name@,
                value@,
            ),
            crate::headers::unique_keys(old(self).spec_headers()) ==> crate::headers::unique_keys(
                final(self).spec_headers(),
            ),
            final(self).spec_host() == old(self).spec_host(),
            final(self).spec_path() == old(self).spec_path(),
            final(self).spec_method() == old(self).spec_method(),
            final(self).spec_body() == old(self).spec_body(),
            final(self).spec_body_type() == old(self).spec_body_type(),
    {
        self.headers.insert(name, value);
    }

    /// Adds a user defined header, by value.
    pub fn with_raw_header(self, name: String, value: String) -> (r: Self)
        ensures
            r.spec_headers() == crate::headers::spec_insert(self.spec_headers(), name@, value@),
            crate::headers::unique_keys(self.spec_headers()) ==> crate::headers::unique_keys(
                r.spec_headers(),
            ),
            r.spec_host() == self.spec_host(),
            r.spec_path() == self.spec_path(),
            r.spec_method() == self.spec_method(),
            r.spec_body() == self.spec_body(),
            r.spec_body_type() == self.spec_body_type(),
    {
        let mut r = self;
        r.add_raw_header(name, value);
        r
    }

    /// Set the HTTP method, by value.
    pub fn with_method(self, method: HttpMethods) -> (r: Self)
        ensures
            r.spec_method() == method,
            r.spec_host() == self.spec_host(),
            r.spec_path() == self.spec_path(),
            r.spec_headers() == self.spec_headers(),
            r.spec_body() == self.spec_body(),
            r.spec_body_type() == self.spec_body_type(),
    {
        let mut r = self;
        r.set_method(method);
        r
    }

    /// Set the content type for the request body, by value.
    pub fn with_content_type(self, content_type: String) -> (r: Self)
        ensures
            r.spec_body_type() == content_type@,
            r.spec_host() == self.spec_host(),
            r.spec_path() == self.spec_path(),
            r.spec_method() == self.spec_method(),
            r.spec_headers() == self.spec_headers(),
            r.spec_body() == self.spec_body(),
    {
        let mut r = self;
        r.set_content_type(content_type);
        r
    }

    /// Set the payload of the request, by value.
    pub fn with_body(self, body: Option<Vec<u8>>) -> (r: Self)
        ensures
            r.spec_body() == (match body {
                Some(b) => Some(b@),
                None => None::<Seq<u8>>,
            }),
            r.spec_host() == self.spec_host(),
            r.spec_path() == self.spec_path(),
            r.spec_method() == self.spec_method(),
            r.spec_headers() == self.spec_headers(),
            r.spec_body_type() == self.spec_body_type(),
    {
        let mut r = self;
        r.set_body(body);
        r
    }

    /// Returns the request as a transmittable payload
    #[verifier::loop_isolation(false)]
    pub fn to_payload(self) -> (r: Vec<u8>)
        ensures
            r@ == self.spec_payload(),
    {
        let ghost req = self;
        let Request { host, path, method, headers, body, body_type } = self;
        let mut head = method.name();
        head.append(" ");
        head.append(path.as_str());
        head.append(" HTTP/1.1\r\n");
        head.append("Host: ");
        head.append(host.as_str());
        head.append("\r\n");
        let ghost pre = head@;
        let hs = headers.entries();
        let n = hs.len();
        let mut i: usize = 0;
        while i < n
            invariant
                0 <= i <= n,
                head@ == pre + spec_header_lines(req.spec_headers().subrange(0, i as int)),
            decreases n - i,
        {
            head.append(hs[i].0.as_str());
            head.append(": ");
            head.append(hs[i].1.as_str());
            head.append("\r\n");
            proof {
                let e = req.spec_headers();
                let sub1 = e.subrange(0, (i + 1) as int);
                assert(sub1.drop_last() =~= e.subrange(0, i as int));
                assert(sub1.last() == e[i as int]);
                assert(head@ =~= pre + spec_header_lines(sub1));
            }
            i = i + 1;
        }
        proof {
            assert(req.spec_headers().subrange(0, n as int) =~= req.spec_headers());
        }
        let mut payload: Vec<u8>;
        match body {
            Some(content) => {
                head.append("content-length: ");
                let len_str = dec_string(content.len());
                head.append(len_str.as_str());
                head.append("\r\ncontent-type: ");
                head.append(body_type.as_str());
                head.append(";charset=UTF-8\r\n\r\n");
                proof {
                    assert(head@ =~= req.spec_head_text());
                }
                payload = head.as_str().as_bytes_vec();
                let mut content = content;
                payload.append(&mut content);
            },
            None => {
                proof {
                    assert(head@ =~= req.spec_head_text());
                }
                payload = head.as_str().as_bytes_vec();
            },
        }
        let mut tail = "\r\n".as_bytes_vec();
        payload.append(&mut tail);
        proof {
            assert(payload@ =~= req.spec_payload());
        }
        payload
    }
}

} // verus!
