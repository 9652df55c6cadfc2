use mini_httpd::config::ServerConfig;
use mini_httpd::handlers::{dispatch, echo, extract_upload, file_loaded, file_request,
    file_stored, health_check, not_found, user_agent, Dispatch, FileRequest};
use mini_httpd::request::{parse_request, Request};

fn request(text: &str) -> Request {
    parse_request(text.as_bytes()).unwrap()
}

#[test]
fn health_check_is_200_without_headers_or_body() {
    assert_eq!(health_check().to_bytes(), b"HTTP/1.1 200 OK\r\n\r\n".to_vec());
}

#[test]
fn not_found_is_404_without_headers_or_body() {
    assert_eq!(not_found().to_bytes(), b"HTTP/1.1 404 Not Found\r\n\r\n".to_vec());
}

#[test]
fn file_stored_is_201_without_headers_or_body() {
    assert_eq!(file_stored().to_bytes(), b"HTTP/1.1 201\r\n\r\n".to_vec());
}

#[test]
fn echo_reflects_the_segment() {
    let r = echo(b"/echo/abc");
    assert_eq!(r.body, b"abc".to_vec());
    assert_eq!(
        r.to_bytes(),
        b"HTTP/1.1 200 Ok\r\nContent-Type: text/plain\r\nContent-Length: 3\r\n\r\nabc".to_vec()
    );
}

#[test]
fn echo_of_nothing_is_empty() {
    let r = echo(b"/echo/");
    assert_eq!(
        r.to_bytes(),
        b"HTTP/1.1 200 Ok\r\nContent-Type: text/plain\r\nContent-Length: 0\r\n\r\n".to_vec()
    );
}

#[test]
fn echo_keeps_everything_behind_the_prefix() {
    assert_eq!(echo(b"/echo/a/echo/b%20c").body, b"a/echo/b%20c".to_vec());
}

#[test]
fn user_agent_is_reflected() {
    let r = user_agent(&request("GET /user-agent HTTP/1.1\r\nHost: x\r\nUser-Agent: test-agent\r\n\r\n"));
    assert_eq!(
        r.to_bytes(),
        b"HTTP/1.1 200 Ok\r\nContent-Type: text/plain\r\nContent-Length: 10\r\n\r\ntest-agent"
            .to_vec()
    );
}

#[test]
fn user_agent_loses_its_spaces() {
    let r = user_agent(&request("GET /user-agent HTTP/1.1\r\nUser-Agent: my  test agent/1.0\r\n\r\n"));
    assert_eq!(r.body, b"mytestagent/1.0".to_vec());
    assert_eq!(r.headers[1].value, b"15".to_vec());
}

#[test]
fn user_agent_name_may_hold_spaces_but_not_another_case() {
    let spaced = user_agent(&request("GET /user-agent HTTP/1.1\r\nUser - Agent: a\r\n\r\n"));
    assert_eq!(spaced.body, b"a".to_vec());
    let lower = user_agent(&request("GET /user-agent HTTP/1.1\r\nuser-agent: a\r\n\r\n"));
    assert_eq!(lower.body, Vec::<u8>::new());
}

#[test]
fn user_agent_absent_gives_an_empty_body() {
    let r = user_agent(&request("GET /user-agent HTTP/1.1\r\nHost: x\r\n\r\n"));
    assert_eq!(
        r.to_bytes(),
        b"HTTP/1.1 200 Ok\r\nContent-Type: text/plain\r\nContent-Length: 0\r\n\r\n".to_vec()
    );
}

#[test]
fn last_user_agent_wins_and_the_length_is_that_of_the_body() {
    let r = user_agent(&request(
        "GET /user-agent HTTP/1.1\r\nUser-Agent: first\r\nUser-Agent: second-one\r\n\r\n",
    ));
    assert_eq!(r.body, b"second-one".to_vec());
    assert_eq!(r.headers[1].value, b"10".to_vec());
}

#[test]
fn upload_is_the_last_non_empty_line() {
    assert_eq!(extract_upload(b"hello"), b"hello".to_vec());
    assert_eq!(extract_upload(b"one\r\ntwo"), b"two".to_vec());
    assert_eq!(extract_upload(b"one\r\ntwo\r\n\r\n"), b"two".to_vec());
    assert_eq!(extract_upload(b""), Vec::<u8>::new());
    assert_eq!(extract_upload(b"\r\n\r\n"), Vec::<u8>::new());
}

#[test]
fn file_request_reads_for_get() {
    let config = ServerConfig::new(b"/srv".to_vec());
    let r = file_request(&config, &request("GET /files/a.txt HTTP/1.1\r\n\r\n"));
    assert_eq!(r, FileRequest::Load { path: b"/srv/a.txt".to_vec() });
}

#[test]
fn file_request_writes_for_post() {
    let config = ServerConfig::new(b"/srv/".to_vec());
    let r = file_request(
        &config,
        &request("POST /files/sub/a.txt HTTP/1.1\r\nContent-Length: 5\r\n\r\nhello"),
    );
    assert_eq!(
        r,
        FileRequest::Store { path: b"/srv//sub/a.txt".to_vec(), content: b"hello".to_vec() }
    );
}

#[test]
fn file_request_without_directory_uses_the_empty_prefix() {
    let config = ServerConfig::new(Vec::new());
    let r = file_request(&config, &request("GET /files/a HTTP/1.1\r\n\r\n"));
    assert_eq!(r, FileRequest::Load { path: b"/a".to_vec() });
}

#[test]
fn methods_that_begin_with_post_upload_and_all_others_read() {
    let config = ServerConfig::new(b"d".to_vec());
    let post = file_request(&config, &request("POSTED /files/a HTTP/1.1\r\n\r\nx"));
    assert_eq!(post, FileRequest::Store { path: b"d/a".to_vec(), content: b"x".to_vec() });
    let put = file_request(&config, &request("PUT /files/a HTTP/1.1\r\n\r\nx"));
    assert_eq!(put, FileRequest::Load { path: b"d/a".to_vec() });
    let lower = file_request(&config, &request("post /files/a HTTP/1.1\r\n\r\nx"));
    assert_eq!(lower, FileRequest::Load { path: b"d/a".to_vec() });
}

#[test]
fn file_loaded_serves_the_bytes() {
    let r = file_loaded(Some(b"data".to_vec()));
    assert_eq!(
        r.to_bytes(),
        b"HTTP/1.1 200 Ok\r\nContent-Type: application/octet-stream\r\nContent-Length: 4\r\n\r\ndata"
            .to_vec()
    );
}

#[test]
fn file_loaded_serves_an_empty_file() {
    let r = file_loaded(Some(Vec::new()));
    assert_eq!(
        r.to_bytes(),
        b"HTTP/1.1 200 Ok\r\nContent-Type: application/octet-stream\r\nContent-Length: 0\r\n\r\n"
            .to_vec()
    );
}

#[test]
fn file_that_cannot_be_read_is_not_found() {
    assert_eq!(file_loaded(None).to_bytes(), b"HTTP/1.1 404 Not Found\r\n\r\n".to_vec());
}

#[test]
fn file_that_is_not_utf8_is_not_found() {
    assert_eq!(
        file_loaded(Some(vec![b'a', 0xff, b'b'])).to_bytes(),
        b"HTTP/1.1 404 Not Found\r\n\r\n".to_vec()
    );
    assert_eq!(
        file_loaded(Some(vec![0xc3])).to_bytes(),
        b"HTTP/1.1 404 Not Found\r\n\r\n".to_vec()
    );
}

#[test]
fn file_with_multibyte_text_is_served() {
    let bytes = "gr\u{fc}\u{df}e \u{1f600}".as_bytes().to_vec();
    let r = file_loaded(Some(bytes.clone()));
    assert_eq!(r.status_line, b"200 Ok".to_vec());
    assert_eq!(r.body, bytes);
}

#[test]
fn dispatch_follows_the_route_order() {
    let config = ServerConfig::new(b"dir".to_vec());
    assert_eq!(
        dispatch(&config, &request("GET / HTTP/1.1\r\n\r\n")),
        Dispatch::Reply(health_check())
    );
    assert_eq!(
        dispatch(&config, &request("GET /echo/x HTTP/1.1\r\n\r\n")),
        Dispatch::Reply(echo(b"/echo/x"))
    );
    assert_eq!(
        dispatch(&config, &request("GET /user-agent HTTP/1.1\r\nUser-Agent: u\r\n\r\n")),
        Dispatch::Reply(user_agent(&request("GET /user-agent HTTP/1.1\r\nUser-Agent: u\r\n\r\n")))
    );
    assert_eq!(
        dispatch(&config, &request("GET /files/f HTTP/1.1\r\n\r\n")),
        Dispatch::File(FileRequest::Load { path: b"dir/f".to_vec() })
    );
    assert_eq!(
        dispatch(&config, &request("GET /nope HTTP/1.1\r\n\r\n")),
        Dispatch::Reply(not_found())
    );
}

#[test]
fn dispatch_ignores_the_method_outside_the_file_route() {
    let config = ServerConfig::new(Vec::new());
    assert_eq!(
        dispatch(&config, &request("DELETE /echo/x HTTP/1.1\r\n\r\n")),
        Dispatch::Reply(echo(b"/echo/x"))
    );
    assert_eq!(
        dispatch(&config, &request("POST / HTTP/1.1\r\n\r\n")),
        Dispatch::Reply(health_check())
    );
}
