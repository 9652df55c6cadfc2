//! The request model and the hand-written parser that produces it.
//!
//! The grammar is line based. The first line carries the method and the path,
//! separated by single spaces. The lines that follow, up to the first empty
//! line, are the header block; what comes after that empty line is the body.

use vstd::prelude::*;
use vstd::slice::*;
use crate::bytes::{index_of, lemma_position, position, trim, trimmed, COLON, CR, LF, SP};

verus! {

/// One header as received: the name and the value, both trimmed.
#[derive(Clone, Debug, PartialEq, Eq)]
pub struct Header {
    pub name: Vec<u8>,
    pub value: Vec<u8>,
}

impl View for Header {
    type V = (Seq<u8>, Seq<u8>);

    open spec fn view(&self) -> (Seq<u8>, Seq<u8>) {
        (self.name@, self.value@)
    }
}

/// A parsed request.
///
/// `headers` keeps the header lines in the order received. Read as a mapping,
/// a later header overrides an earlier one of the same name: see
/// [`field_map`] and [`Request::header`].
#[derive(Clone, Debug, PartialEq, Eq)]
pub struct Request {
    pub method: Vec<u8>,
    pub path: Vec<u8>,
    pub headers: Vec<Header>,
    pub body: Vec<u8>,
}

/// The mathematical content of a [`Request`].
pub struct RequestView {
    pub method: Seq<u8>,
    pub path: Seq<u8>,
    pub headers: Seq<(Seq<u8>, Seq<u8>)>,
    pub body: Seq<u8>,
}

impl View for Request {
    type V = RequestView;

    open spec fn view(&self) -> RequestView {
        RequestView {
            method: self.method@,
            path: self.path@,
            headers: self.headers@.map_values(|h: Header| h@),
            body: self.body@,
        }
    }
}

/// Why a text is not a request.
#[derive(Clone, Copy, Debug, PartialEq, Eq)]
pub enum ParseError {
    /// The text is empty: there is no request line.
    MissingRequestLine,
    /// The request line holds no space, so no path follows the method.
    MissingPath,
}

/// `line` without one trailing carriage return.
pub open spec fn strip_cr(line: Seq<u8>) -> Seq<u8> {
    if line.len() > 0 && line.last() == CR {
        line.drop_last()
    } else {
        line
    }
}

/// The first line of `s`. A line ends at a line feed; a carriage return just
/// before that line feed belongs to the line break. A last line without a line
/// feed is taken as it stands.
pub open spec fn first_line(s: Seq<u8>) -> Seq<u8> {
    let n = position(s, LF);
    if 0 <= n < s.len() {
        strip_cr(s.take(n))
    } else {
        s
    }
}

/// What follows the first line of `s` and its line break.
pub open spec fn after_first_line(s: Seq<u8>) -> Seq<u8> {
    let n = position(s, LF);
    if 0 <= n < s.len() {
        s.skip(n + 1)
    } else {
        Seq::empty()
    }
}

/// The lines of `s`, in order. A final line break opens no further line.
pub open spec fn lines(s: Seq<u8>) -> Seq<Seq<u8>>
    decreases s.len(),
{
    if s.len() == 0 {
        Seq::empty()
    } else {
        seq![first_line(s)] + lines(after_first_line(s))
    }
}

/// The name and the value of a header line: the parts before and after its
/// first colon, trimmed.
pub open spec fn field(line: Seq<u8>) -> (Seq<u8>, Seq<u8>) {
    let c = position(line, COLON);
    (trimmed(line.take(c)), trimmed(line.skip(c + 1)))
}

/// The headers of a header block `s`: one for each line that holds a colon,
/// up to the first empty line.
pub open spec fn header_fields(s: Seq<u8>) -> Seq<(Seq<u8>, Seq<u8>)>
    decreases s.len(),
{
    if s.len() == 0 || first_line(s).len() == 0 {
        Seq::empty()
    } else if position(first_line(s), COLON) < first_line(s).len() {
        seq![field(first_line(s))] + header_fields(after_first_line(s))
    } else {
        header_fields(after_first_line(s))
    }
}

/// What follows the first empty line of `s`; empty where there is none.
pub open spec fn body_of(s: Seq<u8>) -> Seq<u8>
    decreases s.len(),
{
    if s.len() == 0 {
        Seq::empty()
    } else if first_line(s).len() == 0 {
        after_first_line(s)
    } else {
        body_of(after_first_line(s))
    }
}

/// The request that a text denotes, or the reason why it denotes none.
///
/// The method is what precedes the first space of the request line, the path
/// what stands between the first space and the second (or the end of the line).
pub open spec fn parse(t: Seq<u8>) -> Result<RequestView, ParseError> {
    let line = first_line(t);
    let sp = position(line, SP);
    let target = line.skip(sp + 1);
    let rest = after_first_line(t);
    if t.len() == 0 {
        Err(ParseError::MissingRequestLine)
    } else if sp >= line.len() {
        Err(ParseError::MissingPath)
    } else {
        Ok(
            RequestView {
                method: line.take(sp),
                path: target.take(position(target, SP)),
                headers: header_fields(rest),
                body: body_of(rest),
            },
        )
    }
}

/// The mapping that a header sequence denotes: the last header of a name
/// decides its value.
pub open spec fn field_map(fields: Seq<(Seq<u8>, Seq<u8>)>) -> Map<Seq<u8>, Seq<u8>>
    decreases fields.len(),
{
    if fields.len() == 0 {
        Map::empty()
    } else {
        field_map(fields.drop_last()).insert(fields.last().0, fields.last().1)
    }
}

/// A name that no header bears is not in the mapping.
pub proof fn lemma_field_map_absent(fields: Seq<(Seq<u8>, Seq<u8>)>, name: Seq<u8>)
    requires
        forall|j: int| 0 <= j < fields.len() ==> fields[j].0 != name,
    ensures
        !field_map(fields).contains_key(name),
    decreases fields.len(),
{
    if fields.len() > 0 {
        lemma_field_map_absent(fields.drop_last(), name);
    }
}

/// The last header of a name gives the mapping's value for it.
pub proof fn lemma_field_map_last(fields: Seq<(Seq<u8>, Seq<u8>)>, name: Seq<u8>, k: int)
    requires
        0 <= k < fields.len(),
        fields[k].0 == name,
        forall|j: int| k < j < fields.len() ==> fields[j].0 != name,
    ensures
        field_map(fields).contains_key(name),
        field_map(fields)[name] == fields[k].1,
    decreases fields.len(),
{
    if k < fields.len() - 1 {
        lemma_field_map_last(fields.drop_last(), name, k);
    }
}

/// Splits `s` into its first line and what follows the line break.
pub fn split_line(s: &[u8]) -> (r: (&[u8], &[u8]))
    ensures
        r.0@ == first_line(s@),
        r.1@ == after_first_line(s@),
        s@.len() > 0 ==> r.1@.len() < s@.len(),
{
    let n = index_of(s, LF);
    if n < s.len() {
        let rest = slice_subrange(s, n + 1, s.len());
        if n > 0 && s[n - 1] == CR {
            assert(s@.subrange(0, n - 1) =~= s@.take(n as int).drop_last());
            (slice_subrange(s, 0, n - 1), rest)
        } else {
            (slice_subrange(s, 0, n), rest)
        }
    } else {
        assert(s@.subrange(0, 0) =~= Seq::<u8>::empty());
        (s, slice_subrange(s, 0, 0))
    }
}

/// Reads one header line that holds a colon.
fn parse_field(line: &[u8]) -> (h: Header)
    requires
        position(line@, COLON) < line@.len(),
    ensures
        h@ == field(line@),
{
    let c = index_of(line, COLON);
    let n = line.len();
    let name = trim(slice_subrange(line, 0, c));
    let value = trim(slice_subrange(line, c + 1, n));
    Header { name: slice_to_vec(name), value: slice_to_vec(value) }
}

/// Reads the header block at the start of `s` and finds the body behind it.
fn parse_headers(s: &[u8]) -> (r: (Vec<Header>, Vec<u8>))
    ensures
        r.0@.map_values(|h: Header| h@) == header_fields(s@),
        r.1@ == body_of(s@),
{
    let mut headers: Vec<Header> = Vec::new();
    let mut rest: &[u8] = s;
    let mut body: &[u8] = slice_subrange(s, 0, 0);
    let mut open: bool = true;
    while open && rest.len() > 0
        invariant
            header_fields(s@) == headers@.map_values(|h: Header| h@) + (if open {
                header_fields(rest@)
            } else {
                Seq::empty()
            }),
            body_of(s@) == (if open {
                body_of(rest@)
            } else {
                body@
            }),
            open ==> body@.len() == 0,
        decreases rest.len() + (if open { 1int } else { 0int }),
    {
        let (line, tail) = split_line(rest);
        let ghost before = headers@.map_values(|h: Header| h@);
        if line.len() == 0 {
            body = tail;
            open = false;
        } else if index_of(line, COLON) < line.len() {
            let h = parse_field(line);
            headers.push(h);
            assert(headers@.map_values(|h: Header| h@) =~= before.push(h@));
            assert(before + (seq![h@] + header_fields(tail@)) =~= before.push(h@)
                + header_fields(tail@));
        }
        rest = tail;
    }
    (headers, slice_to_vec(body))
}

/// The view of a parser's result.
pub open spec fn outcome(r: Result<Request, ParseError>) -> Result<RequestView, ParseError> {
    match r {
        Ok(request) => Ok(request@),
        Err(e) => Err(e),
    }
}

/// Parses a request text.
///
/// Fails exactly on an empty text and on a request line without a space;
/// otherwise the request is the one that [`parse`] describes.
pub fn parse_request(text: &[u8]) -> (r: Result<Request, ParseError>)
    ensures
        outcome(r) == parse(text@),
{
    if text.len() == 0 {
        return Err(ParseError::MissingRequestLine);
    }
    let (line, rest) = split_line(text);
    let sp = index_of(line, SP);
    if sp >= line.len() {
        return Err(ParseError::MissingPath);
    }
    let target = slice_subrange(line, sp + 1, line.len());
    let end = index_of(target, SP);
    proof {
        lemma_position(target@, SP);
    }
    let method = slice_to_vec(slice_subrange(line, 0, sp));
    let path = slice_to_vec(slice_subrange(target, 0, end));
    let (headers, body) = parse_headers(rest);
    Ok(Request { method, path, headers, body })
}

impl Request {
    /// The value of the header `name`, compared byte for byte; where the name
    /// occurs more than once, the value received last.
    pub fn header(&self, name: &[u8]) -> (r: Option<&Vec<u8>>)
        ensures
            match r {
                Some(value) => field_map(self@.headers).contains_key(name@) && field_map(
                    self@.headers,
                )[name@] == value@,
                None => !field_map(self@.headers).contains_key(name@),
            },
    {
        let ghost fields = self@.headers;
        let mut i: usize = self.headers.len();
        while i > 0
            invariant
                i <= self.headers.len(),
                fields == self@.headers,
                forall|j: int| i <= j < fields.len() ==> fields[j].0 != name@,
            decreases i,
        {
            i -= 1;
            if crate::bytes::same_bytes(self.headers[i].name.as_slice(), name) {
                proof {
                    lemma_field_map_last(fields, name@, i as int);
                }
                return Some(&self.headers[i].value);
            }
        }
        proof {
            lemma_field_map_absent(fields, name@);
        }
        None
    }
}

} // verus!
