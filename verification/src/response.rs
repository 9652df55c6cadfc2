//! The response model and its serialisation to the bytes put on the wire.

use vstd::prelude::*;
use vstd::string::*;
use crate::bytes::{decimal, format_decimal, literal, text};
use crate::request::Header;

verus! {

/// A response: the status line without the protocol version, the headers in
/// the order in which they are sent, and the body.
#[derive(Clone, Debug, PartialEq, Eq)]
pub struct Response {
    pub status_line: Vec<u8>,
    pub headers: Vec<Header>,
    pub body: Vec<u8>,
}

/// The mathematical content of a [`Response`].
pub struct ResponseView {
    pub status_line: Seq<u8>,
    pub headers: Seq<(Seq<u8>, Seq<u8>)>,
    pub body: Seq<u8>,
}

impl View for Response {
    type V = ResponseView;

    open spec fn view(&self) -> ResponseView {
        ResponseView {
            status_line: self.status_line@,
            headers: self.headers@.map_values(|h: Header| h@),
            body: self.body@,
        }
    }
}

/// A response without headers and without a body.
pub open spec fn bare(status_line: Seq<u8>) -> ResponseView {
    ResponseView { status_line, headers: Seq::empty(), body: Seq::empty() }
}

/// The successful response that carries `body`: status `200 Ok`, then the
/// content type and the body's length in bytes as headers.
pub open spec fn content(content_type: Seq<u8>, body: Seq<u8>) -> ResponseView {
    ResponseView {
        status_line: text("200 Ok"),
        headers: seq![
            (text("Content-Type"), content_type),
            (text("Content-Length"), decimal(body.len())),
        ],
        body,
    }
}

/// Every `Content-Length` header states the body's length in bytes.
pub open spec fn well_formed(r: ResponseView) -> bool {
    forall|i: int|
        0 <= i < r.headers.len() && #[trigger] r.headers[i].0 == text("Content-Length")
            ==> r.headers[i].1 == decimal(r.body.len())
}

/// The header lines, each as `name: value` followed by a line break.
pub open spec fn header_block(headers: Seq<(Seq<u8>, Seq<u8>)>) -> Seq<u8>
    decreases headers.len(),
{
    if headers.len() == 0 {
        Seq::empty()
    } else {
        header_block(headers.drop_last()) + headers.last().0 + text(": ") + headers.last().1
            + text("\r\n")
    }
}

/// The bytes sent for a response: the status line behind the protocol
/// version, the header lines, an empty line, and the body with nothing after
/// it.
pub open spec fn wire(r: ResponseView) -> Seq<u8> {
    text("HTTP/1.1 ") + r.status_line + text("\r\n") + header_block(r.headers) + text("\r\n")
        + r.body
}

/// The lengths of the two header names that a response may carry.
pub proof fn lemma_header_names()
    ensures
        text("Content-Type").len() == 12,
        text("Content-Length").len() == 14,
{
    reveal_strlit("Content-Type");
    reveal_strlit("Content-Length");
    assert(vstd::utf8::is_ascii_chars("Content-Type"@));
    assert(vstd::utf8::is_ascii_chars("Content-Length"@));
    vstd::utf8::is_ascii_chars_encode_utf8("Content-Type"@);
    vstd::utf8::is_ascii_chars_encode_utf8("Content-Length"@);
}

/// Responses built by [`Response::empty`] and [`Response::with_content`]
/// state their body's length truthfully.
pub proof fn lemma_built_well_formed(status_line: Seq<u8>, content_type: Seq<u8>, body: Seq<u8>)
    ensures
        well_formed(bare(status_line)),
        well_formed(content(content_type, body)),
{
    lemma_header_names();
}

impl Response {
    /// A response with the given status line, no headers and no body.
    pub fn empty(status_line: &str) -> (r: Response)
        ensures
            r@ == bare(text(status_line)),
            well_formed(r@),
    {
        let r = Response {
            status_line: literal(status_line),
            headers: Vec::new(),
            body: Vec::new(),
        };
        assert(r@.headers =~= Seq::empty());
        r
    }

    /// The `200 Ok` response that carries `body` under the given content type.
    pub fn with_content(content_type: &str, body: Vec<u8>) -> (r: Response)
        ensures
            r@ == content(text(content_type), body@),
            well_formed(r@),
    {
        let mut headers: Vec<Header> = Vec::new();
        headers.push(Header { name: literal("Content-Type"), value: literal(content_type) });
        headers.push(
            Header { name: literal("Content-Length"), value: format_decimal(body.len()) },
        );
        let r = Response { status_line: literal("200 Ok"), headers, body };
        proof {
            assert(r@.headers =~= content(text(content_type), body@).headers);
            lemma_built_well_formed(r@.status_line, text(content_type), body@);
        }
        r
    }

    /// Serialises the response.
    pub fn to_bytes(&self) -> (out: Vec<u8>)
        ensures
            out@ == wire(self@),
    {
        let ghost fields = self@.headers;
        let mut out = literal("HTTP/1.1 ");
        out.extend_from_slice(self.status_line.as_slice());
        out.extend_from_slice("\r\n".as_bytes());
        let ghost head = out@;
        let mut i: usize = 0;
        while i < self.headers.len()
            invariant
                i <= self.headers.len(),
                fields == self@.headers,
                head == text("HTTP/1.1 ") + self@.status_line + text("\r\n"),
                out@ == head + header_block(fields.take(i as int)),
            decreases self.headers.len() - i,
        {
            let ghost before = out@;
            out.extend_from_slice(self.headers[i].name.as_slice());
            out.extend_from_slice(": ".as_bytes());
            out.extend_from_slice(self.headers[i].value.as_slice());
            out.extend_from_slice("\r\n".as_bytes());
            proof {
                let next = fields.take(i + 1);
                assert(next.drop_last() =~= fields.take(i as int));
                assert(next.last() == self.headers@[i as int]@);
                assert(out@ =~= head + header_block(next));
            }
            i += 1;
        }
        assert(fields.take(self.headers.len() as int) =~= fields);
        out.extend_from_slice("\r\n".as_bytes());
        out.extend_from_slice(self.body.as_slice());
        out
    }
}

} // verus!
