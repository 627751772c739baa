use rpcnet::err::NetError;
use rpcnet::http1::{chunk_step, ChunkStep, ContentType, FinishStep, Http1Codec, Request, StreamStep};
use rpcnet::http_error::HttpError;
use rpcnet::response::Response;
use std::time::Duration;

#[test]
fn new_request_defaults() {
    let r = Request::new("http://example.com/");
    assert_eq!(b"GET".to_vec(), r.client_method);
    assert_eq!(b"/".to_vec(), r.path);
    assert!(r.method.is_empty());
    assert_eq!(ContentType::Unset, r.content_length);
    assert_eq!(5, r.max_redirects);
    assert_eq!(10 * 1024 * 1024, r.max_package_size);
    assert_eq!(Duration::from_secs(10), r.read_timeout);
    assert_eq!(0, r.header.len());
    assert_eq!("", r.host);
    assert_eq!(0, r.port);
}

#[test]
fn max_redirects_is_capped() {
    let mut r = Request::new("");
    assert_eq!(100, r.set_max_redirects(150).max_redirects);
    assert_eq!(7, r.set_max_redirects(7).max_redirects);
}

#[test]
fn with_readtimeout_sets_timeout() {
    let r = Request::new("").with_readtimeout(Duration::from_millis(1500));
    assert_eq!(Duration::from_millis(1500), r.read_timeout);
}

#[test]
fn reads_complete_head() {
    let mut r = Request::new("");
    let data = b"GET /index?a=1 HTTP/1.1\r\nHost: example.com\r\nX-Test: a:b\r\n\r\nbody";
    assert!(r.check_data(data));
    assert_eq!(b"GET".to_vec(), r.method);
    assert_eq!(b"/index?a=1".to_vec(), r.path);
    assert_eq!(b"HTTP/1.1".to_vec(), r.proto);
    assert_eq!(Some(&b" example.com"[..]), r.header.get(b"host"));
    assert_eq!(Some(&b" a"[..]), r.header.get(b"x-test"));
    assert_eq!(None, r.header.get(b"Host"));
    assert_eq!(data.len() - 4, r.body_start);
    assert_eq!(ContentType::Length(0), r.content_length);
}

#[test]
fn incomplete_head_asks_for_more() {
    let mut r = Request::new("");
    assert!(!r.check_data(b"GET / HTTP/1.1\r\nHost: a\r\n"));
    assert_eq!(b"GET".to_vec(), r.method);
    assert_eq!(ContentType::Unset, r.content_length);
    assert!(!r.check_data(b"GET / HT"));
    assert!(r.check_data(b"GET / HTTP/1.1\r\nHost: a\r\n\r\n"));
}

#[test]
fn head_is_stable_under_more_bytes() {
    let mut a = Request::new("");
    let mut b = Request::new("");
    assert!(a.check_data(b"GET / HTTP/1.1\r\n\r\n"));
    assert!(b.check_data(b"GET / HTTP/1.1\r\n\r\nGET /x HTTP/1.1\r\n"));
    assert_eq!(a.method, b.method);
    assert_eq!(a.path, b.path);
    assert_eq!(a.body_start, b.body_start);
}

#[test]
fn short_first_lines_are_skipped() {
    let mut r = Request::new("");
    assert!(r.check_data(b"junk\r\nPOST /p HTTP/1.0\r\n\r\n"));
    assert_eq!(b"POST".to_vec(), r.method);
    assert_eq!(b"/p".to_vec(), r.path);
    assert_eq!(b"HTTP/1.0".to_vec(), r.proto);
}

#[test]
fn later_header_overrides_and_lines_without_colon_are_ignored() {
    let mut r = Request::new("");
    assert!(r.check_data(b"GET / HTTP/1.1\r\nA: 1\r\nnocolon\r\na: 2\r\n\r\n"));
    assert_eq!(1, r.header.len());
    assert_eq!(Some(&b" 2"[..]), r.header.get(b"a"));
}

#[test]
fn lone_cr_hides_next_byte() {
    let mut r = Request::new("");
    // The CR after "x" swallows the CR of the following pair, so the LF
    // alone ends nothing and the head is incomplete.
    assert!(!r.check_data(b"GET / HTTP/1.1\r\nx\r\r\n"));
}

#[test]
fn format_message_text() {
    let mut r = Request::new("");
    r.request_host = "example.com".to_string();
    r.header.insert(b"k".to_vec(), b"v".to_vec());
    let text = String::from_utf8(r.format_message()).unwrap();
    assert_eq!(
        "GET / HTTP/1.1\r\nAccept-Language: zh-CN,zh-Hans;q=0.9\r\nAccept-Encoding: gzip, deflate\r\nHost: example.com\r\nConnection: keep-alive\r\nk: v\r\n\r\n\r\n",
        text
    );
    r.post_body = "hello".to_string();
    let text = String::from_utf8(r.format_message()).unwrap();
    assert!(text.ends_with("k: v\r\ncontent-length: 5\r\n\r\nhello"));
}

#[test]
fn read_finish_plans() {
    let mut r = Request::new("");
    match r.read_finish() {
        Err(HttpError::Custom(s)) => assert_eq!("err content_length", s),
        _ => panic!(),
    }
    r.body_start = 10;
    r.content_length = ContentType::Length(5);
    match r.read_finish() {
        Ok(FinishStep::Shift(n)) => assert_eq!(15, n),
        _ => panic!(),
    }
    r.content_length = ContentType::Chunked;
    assert!(matches!(r.read_finish(), Ok(FinishStep::Chunked)));
}

#[test]
fn chunk_sizes() {
    assert!(matches!(chunk_step("0"), Ok(ChunkStep::Last)));
    match chunk_step("1a") {
        Ok(ChunkStep::Skip(n)) => assert_eq!(28, n),
        _ => panic!(),
    }
    match chunk_step("+FF") {
        Ok(ChunkStep::Skip(n)) => assert_eq!(257, n),
        _ => panic!(),
    }
    assert!(matches!(chunk_step("zz"), Err(HttpError::InvalidArgument(_))));
    assert!(matches!(chunk_step(""), Err(HttpError::InvalidArgument(_))));
    assert!(matches!(chunk_step("100000000"), Err(HttpError::InvalidArgument(_))));
}

#[test]
fn redirect_steps() {
    let mut r = Request::new("");
    r.code = 200;
    r.body_start = 7;
    assert!(!r.is_redirect());
    assert!(matches!(r.stream_step(), StreamStep::Finish(7)));
    r.code = 302;
    assert!(r.is_redirect());
    assert!(matches!(r.stream_step(), StreamStep::Redirect));
}

#[test]
fn follow_redirect_cases() {
    let mut r = Request::new("");
    match r.follow_redirect() {
        Err(HttpError::Custom(s)) => assert_eq!("Location url not found", s),
        _ => panic!(),
    }
    r.header.insert(b"location".to_vec(), b"/next".to_vec());
    let msg = r.follow_redirect().unwrap().unwrap();
    assert_eq!(b"/next".to_vec(), r.path);
    assert_eq!(1, r.redirects);
    assert!(msg.starts_with(b"GET /next HTTP/1.1\r\n"));
    r.redirects = 5;
    assert!(matches!(r.follow_redirect(), Err(HttpError::TooManyRedirects)));
    r.set_max_redirects(0);
    assert!(matches!(r.follow_redirect(), Ok(None)));
}

#[test]
fn redirects_stop_at_the_limit() {
    let mut r = Request::new("");
    r.set_max_redirects(1);
    r.header.insert(b"location".to_vec(), b"/a".to_vec());
    assert!(r.follow_redirect().unwrap().is_some());
    assert!(matches!(r.follow_redirect(), Err(HttpError::TooManyRedirects)));
    assert_eq!(1, r.redirects);
}

#[test]
fn parsed_location_is_followed() {
    let mut r = Request::new("");
    assert!(r.check_data(b"HTTP/1.1 302 Found\r\nLocation: /x\r\n\r\n"));
    let msg = r.follow_redirect().unwrap().unwrap();
    // The field value keeps the space after the colon.
    assert_eq!(b" /x".to_vec(), r.path);
    assert!(msg.starts_with(b"GET  /x "));
}

#[test]
fn codec_passes_frames() {
    let mut c = Http1Codec {};
    let mut r = Request::new("");
    match c.encode(vec![1, 2], &mut r) {
        Ok(Some(v)) => assert_eq!(vec![1, 2], v),
        _ => panic!(),
    }
    assert_eq!(None, c.decode(&mut r, b"GET / HTTP/1.1\r\n"));
    assert_eq!(Some(Vec::new()), c.decode(&mut r, b"GET / HTTP/1.1\r\n\r\n"));
}

#[test]
fn response_from_request() {
    let mut r = Request::new("");
    r.code = 404;
    let mut resp = Response::from_request(&mut r).unwrap();
    assert_eq!(404, resp.code);
    assert!(matches!(resp.read_by_maxsize(10), Err(HttpError::UknowError)));
    assert!(resp.writestring("x").is_ok());
    let e: NetError = HttpError::UknowError.into();
    assert!(matches!(e, NetError::Custom(_)));
}

#[test]
fn headers_replace_in_place() {
    let mut h = rpcnet::headers::Headers::new();
    h.insert(b"a".to_vec(), b"1".to_vec());
    h.insert(b"b".to_vec(), b"2".to_vec());
    h.insert(b"a".to_vec(), b"3".to_vec());
    assert_eq!(2, h.len());
    assert_eq!((&b"a"[..], &b"3"[..]), h.entry(0));
    assert_eq!((&b"b"[..], &b"2"[..]), h.entry(1));
    assert_eq!(Some(&b"3"[..]), h.get(b"a"));
    assert_eq!(None, h.get(b"c"));
    h.clear();
    assert_eq!(0, h.len());
}

#[test]
fn header_names_use_unicode_lower_case() {
    let mut r = Request::new("");
    assert!(r.check_data("GET / HTTP/1.1\r\nÄB: x\r\n\r\n".as_bytes()));
    assert_eq!(Some(&b" x"[..]), r.header.get("äb".as_bytes()));
}
