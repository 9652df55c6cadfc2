//! What holds of the server as a whole, from the bytes of a request to the
//! bytes of the response.

use vstd::prelude::*;
use vstd::string::*;
use vstd::utf8::{encode_utf8_valid_utf8, is_ascii_chars, is_ascii_chars_encode_utf8, valid_utf8,
    valid_utf8_concat};
use crate::bytes::{decimal, has_prefix, is_blank, lemma_position_is, text, trim_end, trim_start,
    trimmed, without, COLON, CR, LF, SP};
use crate::connection::{carry_out, step_of, ActionView, EventView, State};
use crate::decode::{decoded, READ_LIMIT};
use crate::handlers::{dispatch_of, file_path, is_upload, last_nonempty, segment, squeezed,
    upload_content, user_agent_of};
use crate::request::{after_first_line, body_of, field, field_map, first_line, header_fields, lines,
    parse, RequestView};
use crate::response::{bare, content, wire};
use crate::router::{route_of, Route};

verus! {

/// `b` does not occur in `s`.
pub open spec fn free_of(s: Seq<u8>, b: u8) -> bool {
    forall|i: int| 0 <= i < s.len() ==> s[i] != b
}

/// The text of a request: the request line for `method` and `path`, closed by
/// a line break, and `rest` behind it.
pub open spec fn request_text(method: Seq<u8>, path: Seq<u8>, rest: Seq<u8>) -> Seq<u8> {
    method + text(" ") + path + text(" HTTP/1.1\r\n") + rest
}

/// The bytes of the literals that the laws speak of.
proof fn lemma_literals()
    ensures
        text(" ") =~= seq![32u8],
        text("/") =~= seq![47u8],
        text("\r\n") =~= seq![13u8, 10u8],
        text("GET") =~= seq![71u8, 69u8, 84u8],
        text("POST") =~= seq![80u8, 79u8, 83u8, 84u8],
        text("/echo/") =~= seq![47u8, 101u8, 99u8, 104u8, 111u8, 47u8],
        text("/files/") =~= seq![47u8, 102u8, 105u8, 108u8, 101u8, 115u8, 47u8],
        text("/user-agent") =~= seq![
            47u8,
            117u8,
            115u8,
            101u8,
            114u8,
            45u8,
            97u8,
            103u8,
            101u8,
            110u8,
            116u8,
        ],
        text("User-Agent") =~= seq![
            85u8,
            115u8,
            101u8,
            114u8,
            45u8,
            65u8,
            103u8,
            101u8,
            110u8,
            116u8,
        ],
        text(" HTTP/1.1\r\n") =~= seq![
            32u8,
            72u8,
            84u8,
            84u8,
            80u8,
            47u8,
            49u8,
            46u8,
            49u8,
            13u8,
            10u8,
        ],
{
    reveal_strlit(" ");
    reveal_strlit("/");
    reveal_strlit("\r\n");
    reveal_strlit("GET");
    reveal_strlit("POST");
    reveal_strlit("/echo/");
    reveal_strlit("/files/");
    reveal_strlit("/user-agent");
    reveal_strlit(" HTTP/1.1\r\n");
    reveal_strlit("User-Agent");
    assert(is_ascii_chars(" "@));
    assert(is_ascii_chars("/"@));
    assert(is_ascii_chars("\r\n"@));
    assert(is_ascii_chars("GET"@));
    assert(is_ascii_chars("POST"@));
    assert(is_ascii_chars("/echo/"@));
    assert(is_ascii_chars("/files/"@));
    assert(is_ascii_chars("/user-agent"@));
    assert(is_ascii_chars(" HTTP/1.1\r\n"@));
    assert(is_ascii_chars("User-Agent"@));
    is_ascii_chars_encode_utf8(" "@);
    is_ascii_chars_encode_utf8("/"@);
    is_ascii_chars_encode_utf8("\r\n"@);
    is_ascii_chars_encode_utf8("GET"@);
    is_ascii_chars_encode_utf8("POST"@);
    is_ascii_chars_encode_utf8("/echo/"@);
    is_ascii_chars_encode_utf8("/files/"@);
    is_ascii_chars_encode_utf8("/user-agent"@);
    is_ascii_chars_encode_utf8(" HTTP/1.1\r\n"@);
    is_ascii_chars_encode_utf8("User-Agent"@);
}

/// A request line is read back as written: where neither the method nor the
/// path holds a space or a line feed, the parser finds exactly that method
/// and that path, and takes the headers and the body from what follows the
/// line.
pub proof fn law_request_line(method: Seq<u8>, path: Seq<u8>, rest: Seq<u8>)
    requires
        free_of(method, SP),
        free_of(method, LF),
        free_of(path, SP),
        free_of(path, LF),
    ensures
        parse(request_text(method, path, rest)) == Ok::<RequestView, crate::request::ParseError>(
            RequestView { method, path, headers: header_fields(rest), body: body_of(rest) },
        ),
{
    lemma_literals();
    let t = request_text(method, path, rest);
    let m = method.len() as int;
    let p = path.len() as int;
    let n = m + 1 + p + 10;
    assert(t.len() == n + 1 + rest.len());
    assert(t[n] == LF);
    assert forall|j: int| 0 <= j < n implies t[j] != LF by {
        if j < m {
            assert(t[j] == method[j]);
        } else if j == m {
        } else if j < m + 1 + p {
            assert(t[j] == path[j - m - 1]);
        } else {
            assert(t[j] == text(" HTTP/1.1\r\n")[j - m - 1 - p]);
        }
    }
    lemma_position_is(t, LF, n);
    let raw = t.take(n);
    assert(raw.last() == CR);
    let line = raw.drop_last();
    assert(first_line(t) == line);
    assert(line.len() == n - 1);
    assert(line[m] == SP);
    assert forall|j: int| 0 <= j < m implies line[j] != SP by {
        assert(line[j] == method[j]);
    }
    lemma_position_is(line, SP, m);
    let target = line.skip(m + 1);
    assert(target[p] == SP);
    assert forall|j: int| 0 <= j < p implies target[j] != SP by {
        assert(target[j] == path[j]);
    }
    lemma_position_is(target, SP, p);
    assert(line.take(m) =~= method);
    assert(target.take(p) =~= path);
    assert(after_first_line(t) =~= rest);
}

/// A request that fits the read buffer and is valid UTF-8 is served from its
/// own bytes: decoding changes nothing.
pub proof fn law_valid_text_is_kept(input: Seq<u8>)
    requires
        input.len() <= READ_LIMIT,
        valid_utf8(input),
    ensures
        decoded(input) == input,
{
}

/// A request text is valid UTF-8 where its method, its path and what follows
/// the request line are.
proof fn lemma_request_text_valid(method: Seq<u8>, path: Seq<u8>, rest: Seq<u8>)
    requires
        valid_utf8(method),
        valid_utf8(path),
        valid_utf8(rest),
    ensures
        valid_utf8(request_text(method, path, rest)),
{
    encode_utf8_valid_utf8(" "@);
    encode_utf8_valid_utf8(" HTTP/1.1\r\n"@);
    valid_utf8_concat(method, text(" "));
    valid_utf8_concat(method + text(" "), path);
    valid_utf8_concat(method + text(" ") + path, text(" HTTP/1.1\r\n"));
    valid_utf8_concat(method + text(" ") + path + text(" HTTP/1.1\r\n"), rest);
}

/// From the bytes of a request to what the server does: a request with a
/// well-formed request line, valid UTF-8 and within the read buffer, is
/// dispatched by its path, with its method, headers and body as written.
pub proof fn law_request_is_dispatched(
    method: Seq<u8>,
    path: Seq<u8>,
    rest: Seq<u8>,
    directory: Seq<u8>,
)
    requires
        free_of(method, SP),
        free_of(method, LF),
        free_of(path, SP),
        free_of(path, LF),
        valid_utf8(method),
        valid_utf8(path),
        valid_utf8(rest),
        request_text(method, path, rest).len() <= READ_LIMIT,
    ensures
        step_of(
            State::Reading,
            directory,
            EventView::Received(request_text(method, path, rest)),
        ) == carry_out(
            dispatch_of(
                directory,
                RequestView { method, path, headers: header_fields(rest), body: body_of(rest) },
            ),
        ),
{
    lemma_literals();
    lemma_request_text_valid(method, path, rest);
    law_request_line(method, path, rest);
}

/// The echo route reflects its segment. For every `s` without a space or a
/// line feed, `GET /echo/s` is answered with status `200 Ok`, the body `s`
/// exactly, and a `Content-Length` that states the length of `s` in bytes.
pub proof fn law_echo_reflects(s: Seq<u8>, rest: Seq<u8>, directory: Seq<u8>)
    requires
        free_of(s, SP),
        free_of(s, LF),
        valid_utf8(s),
        valid_utf8(rest),
        request_text(text("GET"), text("/echo/") + s, rest).len() <= READ_LIMIT,
    ensures
        step_of(
            State::Reading,
            directory,
            EventView::Received(request_text(text("GET"), text("/echo/") + s, rest)),
        ) == (State::Responding, ActionView::Send(wire(content(text("text/plain"), s)))),
        content(text("text/plain"), s).status_line == text("200 Ok"),
        content(text("text/plain"), s).body == s,
        content(text("text/plain"), s).headers[1] == (text("Content-Length"), decimal(s.len())),
{
    lemma_literals();
    let path = text("/echo/") + s;
    encode_utf8_valid_utf8("GET"@);
    encode_utf8_valid_utf8("/echo/"@);
    valid_utf8_concat(text("/echo/"), s);
    assert(path.take(6) =~= text("/echo/"));
    assert(segment(path, text("/echo/")) =~= s);
    assert(route_of(path) == Route::Echo);
    law_request_is_dispatched(text("GET"), path, rest, directory);
}

/// The bytes of a response without headers and body.
pub proof fn law_bare_wire(status_line: Seq<u8>)
    ensures
        wire(bare(status_line)) == text("HTTP/1.1 ") + status_line + text("\r\n") + text("\r\n"),
{
    assert(wire(bare(status_line)) =~= text("HTTP/1.1 ") + status_line + text("\r\n") + text(
        "\r\n",
    ));
}

/// The root is alive: a request for `/` is answered with `200 OK` and an
/// empty body, whatever its method, headers and body.
pub proof fn law_root_is_alive(method: Seq<u8>, rest: Seq<u8>, directory: Seq<u8>)
    requires
        free_of(method, SP),
        free_of(method, LF),
        valid_utf8(method),
        valid_utf8(rest),
        request_text(method, text("/"), rest).len() <= READ_LIMIT,
    ensures
        step_of(
            State::Reading,
            directory,
            EventView::Received(request_text(method, text("/"), rest)),
        ) == (State::Responding, ActionView::Send(wire(bare(text("200 OK"))))),
        bare(text("200 OK")).body.len() == 0,
{
    lemma_literals();
    encode_utf8_valid_utf8("/"@);
    law_request_is_dispatched(method, text("/"), rest, directory);
}

/// A path that no route matches is answered with `404 Not Found` and an
/// empty body, whatever the method, headers and body.
pub proof fn law_unrouted_is_not_found(
    method: Seq<u8>,
    path: Seq<u8>,
    rest: Seq<u8>,
    directory: Seq<u8>,
)
    requires
        route_of(path) == Route::NotFound,
        free_of(method, SP),
        free_of(method, LF),
        free_of(path, SP),
        free_of(path, LF),
        valid_utf8(method),
        valid_utf8(path),
        valid_utf8(rest),
        request_text(method, path, rest).len() <= READ_LIMIT,
    ensures
        step_of(
            State::Reading,
            directory,
            EventView::Received(request_text(method, path, rest)),
        ) == (State::Responding, ActionView::Send(wire(bare(text("404 Not Found"))))),
        bare(text("404 Not Found")).body.len() == 0,
{
    law_request_is_dispatched(method, path, rest, directory);
}

/// Header lines as they stand in a request: each followed by a carriage
/// return and a line feed.
pub open spec fn header_text(lines: Seq<Seq<u8>>) -> Seq<u8>
    decreases lines.len(),
{
    if lines.len() == 0 {
        Seq::empty()
    } else {
        lines[0] + text("\r\n") + header_text(lines.drop_first())
    }
}

/// The body is what follows the empty line behind the header block.
pub proof fn law_body_follows_headers(headers: Seq<Seq<u8>>, body: Seq<u8>)
    requires
        forall|i: int| 0 <= i < headers.len() ==> headers[i].len() > 0 && free_of(headers[i], LF),
    ensures
        body_of(header_text(headers) + text("\r\n") + body) == body,
    decreases headers.len(),
{
    lemma_literals();
    let s = header_text(headers) + text("\r\n") + body;
    if headers.len() == 0 {
        assert(s =~= text("\r\n") + body);
        lemma_position_is(s, LF, 1);
        assert(s.take(1).drop_last() =~= Seq::<u8>::empty());
        assert(after_first_line(s) =~= body);
    } else {
        let h = headers[0];
        let tail = headers.drop_first();
        let after = header_text(tail) + text("\r\n") + body;
        assert(s =~= h + text("\r\n") + after);
        let n = h.len() as int;
        assert(s[n + 1] == LF);
        assert forall|j: int| 0 <= j < n + 1 implies s[j] != LF by {
            if j < n {
                assert(s[j] == h[j]);
            }
        }
        lemma_position_is(s, LF, n + 1);
        assert(s.take(n + 1).drop_last() =~= h);
        assert(first_line(s) == h);
        assert(after_first_line(s) =~= after);
        assert forall|i: int| 0 <= i < tail.len() implies tail[i].len() > 0 && free_of(
            tail[i],
            LF,
        ) by {
            assert(tail[i] == headers[i + 1]);
        }
        law_body_follows_headers(tail, body);
    }
}

/// A body without a line feed is stored whole.
pub proof fn law_single_line_upload(body: Seq<u8>)
    requires
        free_of(body, LF),
    ensures
        upload_content(body) == body,
{
    if body.len() > 0 {
        lemma_position_is(body, LF, body.len() as int);
        assert(lines(after_first_line(body)) =~= Seq::<Seq<u8>>::empty());
        assert(lines(body) =~= seq![body]);
        assert(lines(body).last() == body);
    } else {
        assert(last_nonempty(lines(body)) =~= body);
    }
}

/// The file route serves the file of its segment.
proof fn lemma_files_route(name: Seq<u8>, directory: Seq<u8>)
    ensures
        route_of(text("/files/") + name) == Route::Files,
        file_path(directory, text("/files/") + name) == directory + text("/") + name,
        is_upload(text("POST")),
        !is_upload(text("GET")),
{
    lemma_literals();
    let path = text("/files/") + name;
    assert(path.take(7) =~= text("/files/"));
    assert(segment(path, text("/files/")) =~= name);
    assert(path[1] == 102u8);
    if has_prefix(path, text("/echo/")) {
        assert(path.take(6)[1] == text("/echo/")[1]);
    }
    if has_prefix(path, text("/user-agent")) {
        assert(path.take(11)[1] == text("/user-agent")[1]);
    }
    assert(text("POST").take(4) =~= text("POST"));
}

/// A file that cannot be read is not found: `GET /files/name` asks for the
/// file `name` under the directory, and where reading it fails, the answer is
/// `404 Not Found` with an empty body.
pub proof fn law_absent_file_is_not_found(name: Seq<u8>, rest: Seq<u8>, directory: Seq<u8>)
    requires
        free_of(name, SP),
        free_of(name, LF),
        valid_utf8(name),
        valid_utf8(rest),
        request_text(text("GET"), text("/files/") + name, rest).len() <= READ_LIMIT,
    ensures
        step_of(
            State::Reading,
            directory,
            EventView::Received(request_text(text("GET"), text("/files/") + name, rest)),
        ) == (State::Loading, ActionView::Load(directory + text("/") + name)),
        step_of(State::Loading, directory, EventView::Loaded(None)) == (
            State::Responding,
            ActionView::Send(wire(bare(text("404 Not Found")))),
        ),
{
    lemma_literals();
    lemma_files_route(name, directory);
    encode_utf8_valid_utf8("GET"@);
    encode_utf8_valid_utf8("/files/"@);
    valid_utf8_concat(text("/files/"), name);
    law_request_is_dispatched(text("GET"), text("/files/") + name, rest, directory);
}

/// What is uploaded is what is downloaded. `POST /files/name` with the body
/// `content` asks to store exactly `content` in the file `name` under the
/// directory, and is answered with `201` once that is done; `GET /files/name`
/// asks to read the same file; and where the read brings `content`, the
/// answer is `200 Ok` with the body `content` exactly.
///
/// The body must be a single line: of a body with a line feed only the last
/// non-empty line is stored.
pub proof fn law_upload_round_trip(
    name: Seq<u8>,
    headers: Seq<Seq<u8>>,
    content_bytes: Seq<u8>,
    rest: Seq<u8>,
    directory: Seq<u8>,
)
    requires
        free_of(name, SP),
        free_of(name, LF),
        valid_utf8(name),
        forall|i: int| 0 <= i < headers.len() ==> headers[i].len() > 0 && free_of(headers[i], LF),
        valid_utf8(header_text(headers)),
        free_of(content_bytes, LF),
        valid_utf8(content_bytes),
        request_text(
            text("POST"),
            text("/files/") + name,
            header_text(headers) + text("\r\n") + content_bytes,
        ).len() <= READ_LIMIT,
        valid_utf8(rest),
        request_text(text("GET"), text("/files/") + name, rest).len() <= READ_LIMIT,
    ensures
        step_of(
            State::Reading,
            directory,
            EventView::Received(
                request_text(
                    text("POST"),
                    text("/files/") + name,
                    header_text(headers) + text("\r\n") + content_bytes,
                ),
            ),
        ) == (State::Storing, ActionView::Store(directory + text("/") + name, content_bytes)),
        step_of(State::Storing, directory, EventView::Stored) == (
            State::Responding,
            ActionView::Send(wire(bare(text("201")))),
        ),
        step_of(
            State::Reading,
            directory,
            EventView::Received(request_text(text("GET"), text("/files/") + name, rest)),
        ) == (State::Loading, ActionView::Load(directory + text("/") + name)),
        step_of(State::Loading, directory, EventView::Loaded(Some(content_bytes))) == (
            State::Responding,
            ActionView::Send(wire(content(text("application/octet-stream"), content_bytes))),
        ),
        content(text("application/octet-stream"), content_bytes).status_line == text("200 Ok"),
        content(text("application/octet-stream"), content_bytes).body == content_bytes,
{
    lemma_literals();
    lemma_files_route(name, directory);
    let path = text("/files/") + name;
    let sent = header_text(headers) + text("\r\n") + content_bytes;
    encode_utf8_valid_utf8("POST"@);
    encode_utf8_valid_utf8("/files/"@);
    encode_utf8_valid_utf8("\r\n"@);
    valid_utf8_concat(text("/files/"), name);
    valid_utf8_concat(header_text(headers), text("\r\n"));
    valid_utf8_concat(header_text(headers) + text("\r\n"), content_bytes);
    law_body_follows_headers(headers, content_bytes);
    law_single_line_upload(content_bytes);
    law_request_is_dispatched(text("POST"), path, sent, directory);
    law_absent_file_is_not_found(name, rest, directory);
}

/// Removing a byte that does not occur changes nothing.
pub proof fn law_without_absent(s: Seq<u8>, b: u8)
    requires
        free_of(s, b),
    ensures
        without(s, b) == s,
    decreases s.len(),
{
    if s.len() > 0 {
        law_without_absent(s.drop_last(), b);
        assert(s.drop_last().push(s.last()) =~= s);
    } else {
        assert(without(s, b) =~= s);
    }
}

/// The text of a `User-Agent` header line followed by the empty line that
/// ends the header block.
pub open spec fn user_agent_header(agent: Seq<u8>) -> Seq<u8> {
    text("User-Agent") + seq![COLON, SP] + agent + text("\r\n") + text("\r\n")
}

/// The header block that holds one `User-Agent` line gives one header, with
/// the agent as its value.
proof fn lemma_user_agent_header(agent: Seq<u8>)
    requires
        forall|i: int| 0 <= i < agent.len() ==> !is_blank(#[trigger] agent[i]),
    ensures
        header_fields(user_agent_header(agent)) == seq![(text("User-Agent"), agent)],
{
    lemma_literals();
    let name = text("User-Agent");
    let s = user_agent_header(agent);
    let a = agent.len() as int;
    assert(s.len() == a + 16);
    assert(s[a + 13] == LF);
    assert forall|j: int| 0 <= j < a + 13 implies s[j] != LF by {
        if 12 <= j < a + 12 {
            assert(s[j] == agent[j - 12]);
        }
    }
    lemma_position_is(s, LF, a + 13);
    let line = s.take(a + 13).drop_last();
    assert(line =~= name + seq![COLON, SP] + agent);
    assert(first_line(s) == line);
    let tail = after_first_line(s);
    assert(tail =~= text("\r\n"));
    lemma_position_is(tail, LF, 1);
    assert(tail.take(1).drop_last() =~= Seq::<u8>::empty());
    assert(first_line(tail).len() == 0);
    assert(header_fields(tail) =~= Seq::<(Seq<u8>, Seq<u8>)>::empty());
    lemma_position_is(line, COLON, 10);
    assert(line.take(10) =~= name);
    let value = line.skip(11);
    assert(value =~= seq![SP] + agent);
    assert(trim_end(name) == name);
    assert(trim_start(name) == name);
    if a == 0 {
        assert(value.drop_last() =~= Seq::<u8>::empty());
        assert(trim_end(value) == trim_end(value.drop_last()));
        assert(trimmed(value) =~= agent);
    } else {
        assert(value.last() == agent[a - 1]);
        assert(trim_end(value) == value);
        assert(value.drop_first() =~= agent);
        assert(trim_start(agent) == agent);
        assert(trimmed(value) == agent);
    }
    assert(field(line) == (name, agent));
    assert(header_fields(s) =~= seq![(name, agent)]);
}

/// The user agent is reflected. For every agent without whitespace,
/// `GET /user-agent` with the header `User-Agent: agent` is answered with
/// status `200 Ok`, the body `agent` exactly, and a `Content-Length` that
/// states its length in bytes.
pub proof fn law_user_agent_reflected(agent: Seq<u8>, directory: Seq<u8>)
    requires
        forall|i: int| 0 <= i < agent.len() ==> !is_blank(#[trigger] agent[i]),
        valid_utf8(agent),
        request_text(text("GET"), text("/user-agent"), user_agent_header(agent)).len()
            <= READ_LIMIT,
    ensures
        step_of(
            State::Reading,
            directory,
            EventView::Received(
                request_text(text("GET"), text("/user-agent"), user_agent_header(agent)),
            ),
        ) == (State::Responding, ActionView::Send(wire(content(text("text/plain"), agent)))),
        content(text("text/plain"), agent).status_line == text("200 Ok"),
        content(text("text/plain"), agent).body == agent,
        content(text("text/plain"), agent).headers[1] == (
            text("Content-Length"),
            decimal(agent.len()),
        ),
{
    lemma_literals();
    let name = text("User-Agent");
    let path = text("/user-agent");
    let rest = user_agent_header(agent);
    lemma_user_agent_header(agent);
    // The one header names the agent, and neither holds a space.
    let fields = seq![(name, agent)];
    law_without_absent(name, SP);
    law_without_absent(agent, SP);
    assert(squeezed(fields) =~= fields);
    assert(fields.drop_last() =~= Seq::<(Seq<u8>, Seq<u8>)>::empty());
    assert(field_map(fields.drop_last()) == Map::<Seq<u8>, Seq<u8>>::empty());
    assert(field_map(fields) == Map::<Seq<u8>, Seq<u8>>::empty().insert(name, agent));
    assert(user_agent_of(fields) == agent);
    // The path is that of the header-reflection route.
    assert(path.take(11) =~= path);
    if has_prefix(path, text("/echo/")) {
        assert(path.take(6)[1] == text("/echo/")[1]);
    }
    assert(route_of(path) == Route::UserAgent);
    // The request is valid UTF-8.
    encode_utf8_valid_utf8("GET"@);
    encode_utf8_valid_utf8("/user-agent"@);
    encode_utf8_valid_utf8("User-Agent"@);
    encode_utf8_valid_utf8("\r\n"@);
    encode_utf8_valid_utf8(": "@);
    assert(seq![COLON, SP] =~= text(": ")) by {
        reveal_strlit(": ");
        assert(is_ascii_chars(": "@));
        is_ascii_chars_encode_utf8(": "@);
    }
    valid_utf8_concat(name, text(": "));
    valid_utf8_concat(name + text(": "), agent);
    valid_utf8_concat(name + text(": ") + agent, text("\r\n"));
    valid_utf8_concat(name + text(": ") + agent + text("\r\n"), text("\r\n"));
    law_request_is_dispatched(text("GET"), path, rest, directory);
}

} // verus!
