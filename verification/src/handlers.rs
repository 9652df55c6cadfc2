//! One handler per route. Each takes what it needs of a parsed request and
//! builds the response, or says which file the caller has to read or write
//! before a response can be built.

use vstd::prelude::*;
use vstd::slice::*;
use vstd::string::*;
use vstd::utf8::valid_utf8;
use crate::bytes::{joined, has_prefix, remove_all, same_bytes, starts_with, text, without, SP};
use crate::config::ServerConfig;
use crate::decode::is_utf8;
use crate::request::{field_map, lemma_field_map_absent, lemma_field_map_last, lines, split_line,
    Request, RequestView};
use crate::response::{bare, content, well_formed, Response, ResponseView};
use crate::router::{route, route_of, Route};

verus! {

/// The response of the liveness check.
pub fn health_check() -> (r: Response)
    ensures
        r@ == bare(text("200 OK")),
        well_formed(r@),
{
    Response::empty("200 OK")
}

/// The response for a path that no route matches, and for a file that cannot
/// be served.
pub fn not_found() -> (r: Response)
    ensures
        r@ == bare(text("404 Not Found")),
        well_formed(r@),
{
    Response::empty("404 Not Found")
}

/// The part of `path` behind `prefix`.
pub open spec fn segment(path: Seq<u8>, prefix: Seq<u8>) -> Seq<u8> {
    path.skip(prefix.len() as int)
}

/// The response of the echo route: the path's segment behind `/echo/`, as it
/// stands, as plain text.
pub open spec fn echo_response(path: Seq<u8>) -> ResponseView {
    content(text("text/plain"), segment(path, text("/echo/")))
}

/// Reflects the path segment behind `/echo/`.
pub fn echo(path: &[u8]) -> (r: Response)
    requires
        has_prefix(path@, text("/echo/")),
    ensures
        r@ == echo_response(path@),
        well_formed(r@),
{
    let body = slice_to_vec(slice_subrange(path, "/echo/".len(), path.len()));
    Response::with_content("text/plain", body)
}

/// The headers with every space removed from names and values.
pub open spec fn squeezed(fields: Seq<(Seq<u8>, Seq<u8>)>) -> Seq<(Seq<u8>, Seq<u8>)> {
    fields.map_values(|f: (Seq<u8>, Seq<u8>)| (without(f.0, SP), without(f.1, SP)))
}

/// The caller's user agent: the value of the header that reads `User-Agent`
/// once spaces are removed, itself without spaces; empty where there is no
/// such header. The name is compared byte for byte, and the last such header
/// decides.
pub open spec fn user_agent_of(fields: Seq<(Seq<u8>, Seq<u8>)>) -> Seq<u8> {
    let named = field_map(squeezed(fields));
    if named.contains_key(text("User-Agent")) {
        named[text("User-Agent")]
    } else {
        Seq::empty()
    }
}

/// The response of the header-reflection route.
pub open spec fn user_agent_response(request: RequestView) -> ResponseView {
    content(text("text/plain"), user_agent_of(request.headers))
}

/// Reflects the caller's `User-Agent` header.
pub fn user_agent(request: &Request) -> (r: Response)
    ensures
        r@ == user_agent_response(request@),
        well_formed(r@),
{
    let ghost fields = squeezed(request@.headers);
    let mut i: usize = request.headers.len();
    while i > 0
        invariant
            i <= request.headers.len(),
            fields == squeezed(request@.headers),
            forall|j: int| i <= j < fields.len() ==> fields[j].0 != text("User-Agent"),
        decreases i,
    {
        i -= 1;
        let name = remove_all(request.headers[i].name.as_slice(), SP);
        if same_bytes(name.as_slice(), "User-Agent".as_bytes()) {
            let value = remove_all(request.headers[i].value.as_slice(), SP);
            proof {
                lemma_field_map_last(fields, text("User-Agent"), i as int);
            }
            return Response::with_content("text/plain", value);
        }
    }
    proof {
        lemma_field_map_absent(fields, text("User-Agent"));
    }
    Response::with_content("text/plain", Vec::new())
}

/// What a request to the file route asks of the file system.
#[derive(Clone, Debug, PartialEq, Eq)]
pub enum FileRequest {
    /// Read the file at `path`.
    Load { path: Vec<u8> },
    /// Create or overwrite the file at `path` with `content`.
    Store { path: Vec<u8>, content: Vec<u8> },
}

/// The mathematical content of a [`FileRequest`].
pub enum FileRequestView {
    Load { path: Seq<u8> },
    Store { path: Seq<u8>, content: Seq<u8> },
}

impl View for FileRequest {
    type V = FileRequestView;

    open spec fn view(&self) -> FileRequestView {
        match self {
            FileRequest::Load { path } => FileRequestView::Load { path: path@ },
            FileRequest::Store { path, content } => FileRequestView::Store {
                path: path@,
                content: content@,
            },
        }
    }
}

/// The last line of `ls` that is not empty; empty where there is none.
pub open spec fn last_nonempty(ls: Seq<Seq<u8>>) -> Seq<u8>
    decreases ls.len(),
{
    if ls.len() == 0 {
        Seq::empty()
    } else if ls.last().len() > 0 {
        ls.last()
    } else {
        last_nonempty(ls.drop_last())
    }
}

/// The content that an upload stores: the last non-empty line of the body.
pub open spec fn upload_content(body: Seq<u8>) -> Seq<u8> {
    last_nonempty(lines(body))
}

/// Extracts the content to store from a request body.
pub fn extract_upload(body: &[u8]) -> (out: Vec<u8>)
    ensures
        out@ == upload_content(body@),
{
    let mut rest: &[u8] = body;
    let mut found: &[u8] = slice_subrange(body, 0, 0);
    let ghost mut done: Seq<Seq<u8>> = Seq::empty();
    assert(done + lines(body@) =~= lines(body@));
    while rest.len() > 0
        invariant
            lines(body@) == done + lines(rest@),
            found@ == last_nonempty(done),
        decreases rest.len(),
    {
        let (line, tail) = split_line(rest);
        proof {
            let next = done.push(line@);
            assert(next + lines(tail@) =~= done + (seq![line@] + lines(tail@)));
            assert(next.drop_last() =~= done);
            done = next;
        }
        if line.len() > 0 {
            found = line;
        }
        rest = tail;
    }
    assert(done + lines(rest@) =~= done);
    slice_to_vec(found)
}

/// The file that a path of the file route names: the segment behind
/// `/files/`, appended to the directory and a slash as it stands.
pub open spec fn file_path(directory: Seq<u8>, path: Seq<u8>) -> Seq<u8> {
    directory + text("/") + segment(path, text("/files/"))
}

/// Whether a method asks for an upload: it begins with `POST`. Every other
/// method reads.
pub open spec fn is_upload(method: Seq<u8>) -> bool {
    has_prefix(method, text("POST"))
}

/// What a request to the file route asks for.
pub open spec fn file_request_of(directory: Seq<u8>, request: RequestView) -> FileRequestView {
    if is_upload(request.method) {
        FileRequestView::Store {
            path: file_path(directory, request.path),
            content: upload_content(request.body),
        }
    } else {
        FileRequestView::Load { path: file_path(directory, request.path) }
    }
}

/// Turns a request to the file route into the file operation it asks for.
pub fn file_request(config: &ServerConfig, request: &Request) -> (r: FileRequest)
    requires
        has_prefix(request@.path, text("/files/")),
    ensures
        r@ == file_request_of(config.static_directory@, request@),
{
    let name = slice_subrange(request.path.as_slice(), "/files/".len(), request.path.len());
    let mut path = joined(config.static_directory.as_slice(), "/".as_bytes());
    path.extend_from_slice(name);
    assert(name@ =~= segment(request@.path, text("/files/")));
    assert(path@ =~= file_path(config.static_directory@, request@.path));
    if starts_with(request.method.as_slice(), "POST".as_bytes()) {
        FileRequest::Store { path, content: extract_upload(request.body.as_slice()) }
    } else {
        FileRequest::Load { path }
    }
}

/// The response to a download, given what reading the file brought: its
/// bytes where they could be read and are valid UTF-8, and a plain
/// `404 Not Found` otherwise.
pub open spec fn download_response(contents: Option<Seq<u8>>) -> ResponseView {
    match contents {
        Some(bytes) if valid_utf8(bytes) => content(text("application/octet-stream"), bytes),
        _ => bare(text("404 Not Found")),
    }
}

/// The view of what a read brought.
pub open spec fn read_view(contents: Option<Vec<u8>>) -> Option<Seq<u8>> {
    match contents {
        Some(bytes) => Some(bytes@),
        None => None,
    }
}

/// Builds the response to a download. `contents` is `None` where the file
/// could not be read.
pub fn file_loaded(contents: Option<Vec<u8>>) -> (r: Response)
    ensures
        r@ == download_response(read_view(contents)),
        well_formed(r@),
{
    match contents {
        Some(bytes) => {
            if is_utf8(bytes.as_slice()) {
                Response::with_content("application/octet-stream", bytes)
            } else {
                not_found()
            }
        },
        None => not_found(),
    }
}

/// The response to an upload that was stored.
pub fn file_stored() -> (r: Response)
    ensures
        r@ == bare(text("201")),
        well_formed(r@),
{
    Response::empty("201")
}

/// What the server does with a request: answer at once, or turn to the file
/// system first.
#[derive(Clone, Debug, PartialEq, Eq)]
pub enum Dispatch {
    /// Send this response.
    Reply(Response),
    /// Perform this file operation, then answer with [`file_loaded`] or
    /// [`file_stored`].
    File(FileRequest),
}

/// The mathematical content of a [`Dispatch`].
pub enum DispatchView {
    Reply(ResponseView),
    File(FileRequestView),
}

impl View for Dispatch {
    type V = DispatchView;

    open spec fn view(&self) -> DispatchView {
        match self {
            Dispatch::Reply(response) => DispatchView::Reply(response@),
            Dispatch::File(request) => DispatchView::File(request@),
        }
    }
}

/// What the server does with a request, by the route of its path.
pub open spec fn dispatch_of(directory: Seq<u8>, request: RequestView) -> DispatchView {
    match route_of(request.path) {
        Route::Root => DispatchView::Reply(bare(text("200 OK"))),
        Route::Echo => DispatchView::Reply(echo_response(request.path)),
        Route::UserAgent => DispatchView::Reply(user_agent_response(request)),
        Route::Files => DispatchView::File(file_request_of(directory, request)),
        Route::NotFound => DispatchView::Reply(bare(text("404 Not Found"))),
    }
}

/// Routes a request and runs the handler of its route.
pub fn dispatch(config: &ServerConfig, request: &Request) -> (d: Dispatch)
    ensures
        d@ == dispatch_of(config.static_directory@, request@),
        d matches Dispatch::Reply(response) ==> well_formed(response@),
{
    match route(request.path.as_slice()) {
        Route::Root => Dispatch::Reply(health_check()),
        Route::Echo => Dispatch::Reply(echo(request.path.as_slice())),
        Route::UserAgent => Dispatch::Reply(user_agent(request)),
        Route::Files => Dispatch::File(file_request(config, request)),
        Route::NotFound => Dispatch::Reply(not_found()),
    }
}

} // verus!
