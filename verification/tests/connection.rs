use std::collections::HashMap;

use mini_httpd::config::ServerConfig;
use mini_httpd::connection::{receive, step, Action, ConnectionError, Event, Outcome, State};
use mini_httpd::request::ParseError;

fn config() -> ServerConfig {
    ServerConfig::new(b"/data".to_vec())
}

fn first(bytes: &[u8]) -> (State, Action) {
    step(State::Reading, &config(), Event::Received(bytes.to_vec()))
}

/// Runs one connection against an in-memory file store and returns what was
/// sent and how the connection ended.
fn serve(store: &mut HashMap<Vec<u8>, Vec<u8>>, bytes: &[u8]) -> (Option<Vec<u8>>, Outcome) {
    let config = config();
    let mut sent = None;
    let (mut state, mut action) = step(State::Reading, &config, Event::Received(bytes.to_vec()));
    loop {
        let event = match action {
            Action::Load(path) => Event::Loaded(store.get(&path).cloned()),
            Action::Store(path, content) => {
                store.insert(path, content);
                Event::Stored
            }
            Action::Send(bytes) => {
                sent = Some(bytes);
                Event::Sent
            }
            Action::Close(outcome) => {
                assert_eq!(state, State::Closed);
                return (sent, outcome);
            }
        };
        let next = step(state, &config, event);
        state = next.0;
        action = next.1;
    }
}

#[test]
fn get_echo_returns_the_segment() {
    let (state, action) = first(b"GET /echo/abc HTTP/1.1\r\nHost: localhost:4221\r\n\r\n");
    assert_eq!(state, State::Responding);
    assert_eq!(
        action,
        Action::Send(
            b"HTTP/1.1 200 Ok\r\nContent-Type: text/plain\r\nContent-Length: 3\r\n\r\nabc".to_vec()
        )
    );
}

#[test]
fn get_echo_with_multibyte_segment_counts_bytes() {
    let (_, action) = first("GET /echo/h\u{e9}llo HTTP/1.1\r\n\r\n".as_bytes());
    let mut expected =
        b"HTTP/1.1 200 Ok\r\nContent-Type: text/plain\r\nContent-Length: 6\r\n\r\n".to_vec();
    expected.extend_from_slice("h\u{e9}llo".as_bytes());
    assert_eq!(action, Action::Send(expected));
}

#[test]
fn get_root_returns_200() {
    let (state, action) = first(b"GET / HTTP/1.1\r\n\r\n");
    assert_eq!(state, State::Responding);
    assert_eq!(action, Action::Send(b"HTTP/1.1 200 OK\r\n\r\n".to_vec()));
}

#[test]
fn get_unknown_path_returns_404() {
    let (state, action) = first(b"GET /does-not-exist HTTP/1.1\r\n\r\n");
    assert_eq!(state, State::Responding);
    assert_eq!(action, Action::Send(b"HTTP/1.1 404 Not Found\r\n\r\n".to_vec()));
}

#[test]
fn get_user_agent_returns_the_header() {
    let (_, action) = first(
        b"GET /user-agent HTTP/1.1\r\nHost: localhost:4221\r\nUser-Agent: test-agent\r\n\r\n",
    );
    assert_eq!(
        action,
        Action::Send(
            b"HTTP/1.1 200 Ok\r\nContent-Type: text/plain\r\nContent-Length: 10\r\n\r\ntest-agent"
                .to_vec()
        )
    );
}

#[test]
fn post_then_get_round_trips() {
    let mut store = HashMap::new();
    let (sent, outcome) = serve(
        &mut store,
        b"POST /files/note.txt HTTP/1.1\r\nContent-Length: 11\r\n\r\nhello world",
    );
    assert_eq!(sent, Some(b"HTTP/1.1 201\r\n\r\n".to_vec()));
    assert_eq!(outcome, Outcome::Served);
    assert_eq!(store.get(&b"/data/note.txt".to_vec()), Some(&b"hello world".to_vec()));

    let (sent, outcome) = serve(&mut store, b"GET /files/note.txt HTTP/1.1\r\n\r\n");
    assert_eq!(
        sent,
        Some(
            b"HTTP/1.1 200 Ok\r\nContent-Type: application/octet-stream\r\nContent-Length: 11\r\n\r\nhello world"
                .to_vec()
        )
    );
    assert_eq!(outcome, Outcome::Served);
}

#[test]
fn second_post_overwrites() {
    let mut store = HashMap::new();
    serve(&mut store, b"POST /files/f HTTP/1.1\r\n\r\none");
    serve(&mut store, b"POST /files/f HTTP/1.1\r\n\r\ntwo");
    let (sent, _) = serve(&mut store, b"GET /files/f HTTP/1.1\r\n\r\n");
    assert_eq!(
        sent,
        Some(
            b"HTTP/1.1 200 Ok\r\nContent-Type: application/octet-stream\r\nContent-Length: 3\r\n\r\ntwo"
                .to_vec()
        )
    );
}

#[test]
fn get_absent_file_returns_404() {
    let mut store = HashMap::new();
    let (sent, outcome) = serve(&mut store, b"GET /files/absent-name HTTP/1.1\r\n\r\n");
    assert_eq!(sent, Some(b"HTTP/1.1 404 Not Found\r\n\r\n".to_vec()));
    assert_eq!(outcome, Outcome::Served);
}

#[test]
fn distinct_connections_get_their_own_answers() {
    let mut store = HashMap::new();
    for i in 0..40usize {
        let word = format!("word-{}", i * 7919);
        let request = format!("GET /echo/{} HTTP/1.1\r\nHost: localhost\r\n\r\n", word);
        let (sent, outcome) = serve(&mut store, request.as_bytes());
        let expected = format!(
            "HTTP/1.1 200 Ok\r\nContent-Type: text/plain\r\nContent-Length: {}\r\n\r\n{}",
            word.len(),
            word
        );
        assert_eq!(sent, Some(expected.into_bytes()));
        assert_eq!(outcome, Outcome::Served);
    }
}

#[test]
fn empty_read_closes_without_response_or_error() {
    let (state, action) = first(b"");
    assert_eq!(state, State::Closed);
    assert_eq!(action, Action::Close(Outcome::EmptyRead));
}

#[test]
fn request_line_without_path_is_a_parse_failure() {
    let (state, action) = first(b"GET");
    assert_eq!(state, State::Closed);
    assert_eq!(
        action,
        Action::Close(Outcome::Failed(ConnectionError::ParseFailure(ParseError::MissingPath)))
    );
}

#[test]
fn failed_read_closes_with_read_failure() {
    let (state, action) = step(State::Reading, &config(), Event::ReadFailed);
    assert_eq!(state, State::Closed);
    assert_eq!(action, Action::Close(Outcome::Failed(ConnectionError::ReadFailure)));
}

#[test]
fn failed_upload_closes_without_response() {
    let (state, action) = first(b"POST /files/f HTTP/1.1\r\n\r\ndata");
    assert_eq!(state, State::Storing);
    assert_eq!(action, Action::Store(b"/data/f".to_vec(), b"data".to_vec()));
    let (state, action) = step(state, &config(), Event::StoreFailed);
    assert_eq!(state, State::Closed);
    assert_eq!(action, Action::Close(Outcome::Failed(ConnectionError::HandlerFailure)));
}

#[test]
fn failed_send_closes_with_write_failure() {
    let (state, _) = first(b"GET / HTTP/1.1\r\n\r\n");
    let (state, action) = step(state, &config(), Event::SendFailed);
    assert_eq!(state, State::Closed);
    assert_eq!(action, Action::Close(Outcome::Failed(ConnectionError::WriteFailure)));
}

#[test]
fn sent_response_closes_as_served() {
    let (state, _) = first(b"GET / HTTP/1.1\r\n\r\n");
    let (state, action) = step(state, &config(), Event::Sent);
    assert_eq!(state, State::Closed);
    assert_eq!(action, Action::Close(Outcome::Served));
}

#[test]
fn events_out_of_turn_close_the_connection() {
    let unexpected = Action::Close(Outcome::Failed(ConnectionError::UnexpectedEvent));
    assert_eq!(step(State::Reading, &config(), Event::Sent), (State::Closed, unexpected.clone()));
    assert_eq!(
        step(State::Loading, &config(), Event::Stored),
        (State::Closed, unexpected.clone())
    );
    assert_eq!(
        step(State::Responding, &config(), Event::Received(b"GET / HTTP/1.1\r\n\r\n".to_vec())),
        (State::Closed, unexpected.clone())
    );
    assert_eq!(step(State::Closed, &config(), Event::Sent), (State::Closed, unexpected));
}

#[test]
fn request_beyond_the_buffer_is_cut() {
    let mut request = b"GET /echo/".to_vec();
    request.extend_from_slice(&vec![b'a'; 600]);
    request.extend_from_slice(b" HTTP/1.1\r\n\r\n");
    let (_, action) = first(&request);
    let mut expected =
        b"HTTP/1.1 200 Ok\r\nContent-Type: text/plain\r\nContent-Length: 502\r\n\r\n".to_vec();
    expected.extend_from_slice(&vec![b'a'; 502]);
    assert_eq!(action, Action::Send(expected));
}

#[test]
fn ill_formed_bytes_in_the_path_are_replaced() {
    let (_, action) = first(&[
        b'G', b'E', b'T', b' ', b'/', b'e', b'c', b'h', b'o', b'/', 0xff, b' ', b'H', b'\r', b'\n',
    ]);
    let mut expected =
        b"HTTP/1.1 200 Ok\r\nContent-Type: text/plain\r\nContent-Length: 3\r\n\r\n".to_vec();
    expected.extend_from_slice(&[0xef, 0xbf, 0xbd]);
    assert_eq!(action, Action::Send(expected));
}

#[test]
fn receive_is_the_step_out_of_reading() {
    let bytes = b"GET /files/x HTTP/1.1\r\n\r\n";
    assert_eq!(receive(&config(), bytes), first(bytes));
    assert_eq!(receive(&config(), bytes), (State::Loading, Action::Load(b"/data/x".to_vec())));
}
