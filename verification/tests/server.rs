use tinyhttp::config::init;
use tinyhttp::request::{parse, parse_headers_and_body, parse_path, parse_type, Header, Http, Request};
use tinyhttp::response::{render_response, u64_to_dec, Response};
use tinyhttp::serve::{handle, handle_get, handle_post, render_listing, step, Flow, FsEvent, HttpError, MetaKind};

const SECRET: &[u8] = b"OylFIrcuIk8KN1sJCEADaDFd7fi4TmKz";

fn http_with(path: &[u8], headers: Option<Vec<(&[u8], &[u8])>>) -> Http {
    Http {
        path: path.to_vec(),
        headers: headers.map(|hs| {
            hs.into_iter()
                .map(|(n, v)| Header { name: n.to_vec(), value: v.to_vec() })
                .collect()
        }),
        body: Vec::new(),
    }
}

#[test]
fn parse_type_tokens() {
    assert!(matches!(parse_type(b"GET"), Request::Get));
    assert!(matches!(parse_type(b"POST"), Request::Post));
    assert!(matches!(parse_type(b"get"), Request::Undefined));
    assert!(matches!(parse_type(b"PUT"), Request::Undefined));
    assert!(matches!(parse_type(b""), Request::Undefined));
}

#[test]
fn parse_path_takes_first_token() {
    assert_eq!(parse_path(b"/missing.txt HTTP/1.1"), b"/missing.txt".to_vec());
    assert_eq!(parse_path(b"  /a b"), b"/a".to_vec());
    assert_eq!(parse_path(b"/x\r"), b"/x".to_vec());
    assert_eq!(parse_path(b""), Vec::<u8>::new());
    assert_eq!(parse_path(b"   "), Vec::<u8>::new());
    assert_eq!(parse_path(b"nolead"), b"nolead".to_vec());
}

#[test]
fn parse_get_request_line() {
    let (req, http) = parse(b"GET /missing.txt HTTP/1.1\n\n");
    assert!(matches!(req, Request::Get));
    assert_eq!(http.path, b"/missing.txt".to_vec());
    assert!(http.body.is_empty());
    assert_eq!(http.headers.as_ref().map(|hs| hs.len()), Some(0));
}

#[test]
fn parse_post_with_auth_header() {
    let mut raw = b"POST /flag HTTP/1.1\nAuth: ".to_vec();
    raw.extend_from_slice(SECRET);
    raw.extend_from_slice(b"\n\n");
    let (req, http) = parse(&raw);
    assert!(matches!(req, Request::Post));
    assert_eq!(http.path, b"/flag".to_vec());
    let hs = http.headers.expect("headers parsed");
    assert_eq!(hs.len(), 1);
    assert_eq!(hs[0].name, b"Auth".to_vec());
    assert_eq!(hs[0].value, SECRET.to_vec());
}

#[test]
fn parse_without_space_is_undefined() {
    let (req, http) = parse(b"GETPATH");
    assert!(matches!(req, Request::Undefined));
    assert!(http.headers.is_none());
    assert!(http.path.is_empty());
}

#[test]
fn parse_bad_utf8_is_undefined() {
    let (req, http) = parse(&[0xff, 0xfe, b' ', b'/', b'\n']);
    assert!(matches!(req, Request::Undefined));
    assert!(http.headers.is_none());
}

#[test]
fn parse_without_newline_keeps_request_line() {
    let (req, http) = parse(b"GET /x");
    assert!(matches!(req, Request::Get));
    assert_eq!(http.path, b"/x".to_vec());
    assert_eq!(http.headers.as_ref().map(|hs| hs.len()), Some(0));
}

#[test]
fn parse_trailing_zero_bytes_are_harmless() {
    let mut raw = b"GET /a HTTP/1.1\n\n".to_vec();
    raw.resize(1028, 0);
    let (req, http) = parse(&raw);
    assert!(matches!(req, Request::Get));
    assert_eq!(http.path, b"/a".to_vec());
}

#[test]
fn headers_split_once_on_colon_space() {
    let (hs, body) = parse_headers_and_body(b"Host: example\nX: a: b\n");
    let hs = hs.expect("headers parsed");
    assert!(body.is_empty());
    assert_eq!(hs.len(), 2);
    assert_eq!(hs[0].name, b"Host".to_vec());
    assert_eq!(hs[0].value, b"example".to_vec());
    assert_eq!(hs[1].name, b"X".to_vec());
    assert_eq!(hs[1].value, b"a: b".to_vec());
}

#[test]
fn parse_leading_space_is_undefined() {
    let (req, http) = parse(b" GET /x HTTP/1.1\n\n");
    assert!(matches!(req, Request::Undefined));
    assert!(http.headers.is_none());
}

#[test]
fn headers_allow_empty_name() {
    let (hs, _) = parse_headers_and_body(b": v\n");
    let hs = hs.expect("headers parsed");
    assert_eq!(hs.len(), 1);
    assert_eq!(hs[0].name, Vec::<u8>::new());
    assert_eq!(hs[0].value, b"v".to_vec());
}

#[test]
fn headers_drop_lines_without_separator() {
    let (hs, _) = parse_headers_and_body(b"garbage\nAuth: x\nalso:bad\n");
    let hs = hs.expect("headers parsed");
    assert_eq!(hs.len(), 1);
    assert_eq!(hs[0].name, b"Auth".to_vec());
    assert_eq!(hs[0].value, b"x".to_vec());
}

#[test]
fn headers_strip_carriage_return_before_newline() {
    let (hs, _) = parse_headers_and_body(b"Host: h\r\nLast: v\r");
    let hs = hs.expect("headers parsed");
    assert_eq!(hs.len(), 2);
    assert_eq!(hs[0].value, b"h".to_vec());
    // the final line has no newline, so its carriage return stays
    assert_eq!(hs[1].value, b"v\r".to_vec());
}

#[test]
fn init_builds_fixed_configuration() {
    let cfg = init();
    assert_eq!(cfg.doc_root, b"www".to_vec());
    assert_eq!(cfg.secret, SECRET.to_vec());
    assert_eq!(cfg.protected_path, b"the flag".to_vec());
}

#[test]
fn get_starts_at_resolved_path() {
    let cfg = init();
    let http = http_with(b"/a.txt", Some(vec![]));
    match handle_get(&cfg, &http) {
        Flow::StatPath { path } => assert_eq!(path, b"www/a.txt".to_vec()),
        _ => panic!("expected a metadata probe"),
    }
}

#[test]
fn get_file_is_served_verbatim() {
    let cfg = init();
    let http = http_with(b"/a.txt", Some(vec![]));
    let flow = handle(&cfg, Request::Get, &http);
    let flow = step(flow, FsEvent::Meta(MetaKind::File));
    match &flow {
        Flow::ReadFile { path } => assert_eq!(path, &b"www/a.txt".to_vec()),
        _ => panic!("expected a file read"),
    }
    match step(flow, FsEvent::Bytes(b"hello".to_vec())) {
        Flow::Done { result } => assert_eq!(result, Ok(b"hello".to_vec())),
        _ => panic!("expected an outcome"),
    }
}

#[test]
fn get_missing_entry_is_not_found() {
    let cfg = init();
    let http = http_with(b"/missing.txt", Some(vec![]));
    let flow = step(handle(&cfg, Request::Get, &http), FsEvent::NoMeta);
    match flow {
        Flow::Done { result } => assert_eq!(result, Err(HttpError::NotFound)),
        _ => panic!("expected an outcome"),
    }
}

#[test]
fn get_special_entry_is_not_found() {
    let cfg = init();
    let http = http_with(b"/dev", Some(vec![]));
    let flow = step(handle(&cfg, Request::Get, &http), FsEvent::Meta(MetaKind::Other));
    assert!(matches!(flow, Flow::Done { result: Err(HttpError::NotFound) }));
}

#[test]
fn get_failed_read_is_not_found() {
    let cfg = init();
    let http = http_with(b"/a.txt", Some(vec![]));
    let flow = step(handle(&cfg, Request::Get, &http), FsEvent::Meta(MetaKind::File));
    let flow = step(flow, FsEvent::ReadFailed);
    assert!(matches!(flow, Flow::Done { result: Err(HttpError::NotFound) }));
}

#[test]
fn get_directory_with_index_serves_it() {
    let cfg = init();
    let http = http_with(b"/d", Some(vec![]));
    let flow = step(handle(&cfg, Request::Get, &http), FsEvent::Meta(MetaKind::Dir));
    match &flow {
        Flow::StatIndex { dir, index } => {
            assert_eq!(dir, &b"www/d".to_vec());
            assert_eq!(index, &b"www/d/index.html".to_vec());
        },
        _ => panic!("expected an index probe"),
    }
    let flow = step(flow, FsEvent::Meta(MetaKind::File));
    match &flow {
        Flow::ReadFile { path } => assert_eq!(path, &b"www/d/index.html".to_vec()),
        _ => panic!("expected a file read"),
    }
    match step(flow, FsEvent::Bytes(b"<html>".to_vec())) {
        Flow::Done { result } => assert_eq!(result, Ok(b"<html>".to_vec())),
        _ => panic!("expected an outcome"),
    }
}

#[test]
fn get_directory_without_index_lists_entries() {
    let cfg = init();
    let http = http_with(b"/d", Some(vec![]));
    let flow = step(handle(&cfg, Request::Get, &http), FsEvent::Meta(MetaKind::Dir));
    let flow = step(flow, FsEvent::NoMeta);
    match &flow {
        Flow::ListDir { dir } => assert_eq!(dir, &b"www/d".to_vec()),
        _ => panic!("expected a listing"),
    }
    let names = vec![b"a.txt".to_vec(), b".hidden".to_vec(), b"sub".to_vec()];
    match step(flow, FsEvent::Names(names)) {
        Flow::Done { result } => assert_eq!(result, Ok(b"www/d/a.txt\nwww/d/sub\n".to_vec())),
        _ => panic!("expected an outcome"),
    }
}

#[test]
fn get_index_that_is_a_directory_is_listed() {
    let cfg = init();
    let http = http_with(b"/d", Some(vec![]));
    let flow = step(handle(&cfg, Request::Get, &http), FsEvent::Meta(MetaKind::Dir));
    let flow = step(flow, FsEvent::Meta(MetaKind::Dir));
    match flow {
        Flow::ListDir { dir } => assert_eq!(dir, b"www/d/index.html".to_vec()),
        _ => panic!("expected a listing of the reassigned path"),
    }
}

#[test]
fn listing_skips_dotfiles_only() {
    let dir = b"www".to_vec();
    let names = vec![b".git".to_vec(), b"one".to_vec(), b"".to_vec(), b".".to_vec(), b"..up".to_vec()];
    let body = render_listing(&dir, &names);
    assert_eq!(body, b"www/one\nwww/\n".to_vec());
}

#[test]
fn listing_of_nothing_is_empty() {
    let body = render_listing(&b"www".to_vec(), &Vec::new());
    assert!(body.is_empty());
}

#[test]
fn post_with_exact_secret_reads_protected_file() {
    let cfg = init();
    let http = http_with(b"/flag", Some(vec![(b"Auth", SECRET)]));
    let flow = handle(&cfg, Request::Post, &http);
    match &flow {
        Flow::ReadFile { path } => assert_eq!(path, &b"the flag".to_vec()),
        _ => panic!("expected a read of the protected file"),
    }
    match step(flow, FsEvent::Bytes(b"secret-data".to_vec())) {
        Flow::Done { result } => assert_eq!(result, Ok(b"secret-data".to_vec())),
        _ => panic!("expected an outcome"),
    }
}

#[test]
fn post_last_auth_header_wins() {
    let cfg = init();
    let http = http_with(b"/flag", Some(vec![(b"Auth", b"wrong"), (b"Auth", SECRET)]));
    assert!(matches!(handle_post(&cfg, &http), Flow::ReadFile { .. }));
    let http = http_with(b"/flag", Some(vec![(b"Auth", SECRET), (b"Auth", b"wrong")]));
    assert!(matches!(handle_post(&cfg, &http), Flow::Done { result: Err(HttpError::NotFound) }));
}

#[test]
fn post_wrong_token_is_not_found() {
    let cfg = init();
    let http = http_with(b"/flag", Some(vec![(b"Auth", b"OylFIrcuIk8KN1sJCEADaDFd7fi4TmKa")]));
    assert!(matches!(handle_post(&cfg, &http), Flow::Done { result: Err(HttpError::NotFound) }));
}

#[test]
fn post_missing_auth_header_is_not_found() {
    let cfg = init();
    let http = http_with(b"/flag", Some(vec![(b"Other", SECRET)]));
    assert!(matches!(handle_post(&cfg, &http), Flow::Done { result: Err(HttpError::NotFound) }));
}

#[test]
fn post_without_header_map_is_not_found() {
    let cfg = init();
    let http = http_with(b"/flag", None);
    assert!(matches!(handle_post(&cfg, &http), Flow::Done { result: Err(HttpError::NotFound) }));
}

#[test]
fn post_other_path_is_not_found() {
    let cfg = init();
    let http = http_with(b"/flags", Some(vec![(b"Auth", SECRET)]));
    assert!(matches!(handle_post(&cfg, &http), Flow::Done { result: Err(HttpError::NotFound) }));
}

#[test]
fn undefined_method_is_not_found() {
    let cfg = init();
    let http = Http::new();
    let flow = handle(&cfg, Request::Undefined, &http);
    match flow {
        Flow::Done { result } => assert_eq!(result, Err(HttpError::NotFound)),
        _ => panic!("an undefined method must reach no handler"),
    }
}

#[test]
fn decimal_rendering_is_exact() {
    assert_eq!(u64_to_dec(0), b"0".to_vec());
    assert_eq!(u64_to_dec(9), b"9".to_vec());
    assert_eq!(u64_to_dec(10), b"10".to_vec());
    assert_eq!(u64_to_dec(1028), b"1028".to_vec());
    assert_eq!(u64_to_dec(u64::MAX), b"18446744073709551615".to_vec());
}

#[test]
fn render_success_frames_body() {
    let r: Response = render_response(Ok(b"abc".to_vec()));
    assert_eq!(r.status, b"HTTP/1.1 200\n".to_vec());
    assert_eq!(r.header, b"Content-Length: 3\r\n\r\n".to_vec());
    assert_eq!(r.body, b"abc".to_vec());
}

#[test]
fn render_empty_success_has_zero_length() {
    let r = render_response(Ok(Vec::new()));
    assert_eq!(r.header, b"Content-Length: 0\r\n\r\n".to_vec());
    assert!(r.body.is_empty());
}

#[test]
fn render_not_found_is_exact() {
    let r = render_response(Err(HttpError::NotFound));
    assert_eq!(r.status, b"HTTP/1.1 404 Not Found\r\n\r\n".to_vec());
    assert_eq!(r.header, b"Content-Length: 9\r\n\r\n".to_vec());
    assert_eq!(r.body, b"Not found".to_vec());
}

#[test]
fn render_unknown_is_exact() {
    let r = render_response(Err(HttpError::Unknown));
    assert_eq!(r.status, b"HTTP/1.1 520 Unknown Error\r\n\r\n".to_vec());
    assert_eq!(r.header, b"Content-Length: 7\r\n\r\n".to_vec());
    assert_eq!(r.body, b"Unknown".to_vec());
}

#[test]
fn content_length_matches_written_bytes() {
    let body = vec![7u8; 1028];
    let r = render_response(Ok(body));
    assert_eq!(r.header, b"Content-Length: 1028\r\n\r\n".to_vec());
    assert_eq!(r.body.len(), 1028);
}

#[test]
fn missing_file_scenario_end_to_end() {
    let cfg = init();
    let (req, http) = parse(b"GET /missing.txt HTTP/1.1\n\n");
    let flow = handle(&cfg, req, &http);
    match &flow {
        Flow::StatPath { path } => assert_eq!(path, &b"www/missing.txt".to_vec()),
        _ => panic!("expected a metadata probe"),
    }
    let flow = step(flow, FsEvent::NoMeta);
    let result = match flow {
        Flow::Done { result } => result,
        _ => panic!("expected an outcome"),
    };
    let r = render_response(result);
    assert_eq!(r.status, b"HTTP/1.1 404 Not Found\r\n\r\n".to_vec());
    assert_eq!(r.body, b"Not found".to_vec());
}

#[test]
fn flag_scenario_end_to_end() {
    let cfg = init();
    let mut raw = b"POST /flag HTTP/1.1\nAuth: ".to_vec();
    raw.extend_from_slice(SECRET);
    raw.extend_from_slice(b"\n\n");
    let (req, http) = parse(&raw);
    let flow = handle(&cfg, req, &http);
    match &flow {
        Flow::ReadFile { path } => assert_eq!(path, &b"the flag".to_vec()),
        _ => panic!("expected a read of the protected file"),
    }
    let flow = step(flow, FsEvent::Bytes(b"secret-data".to_vec()));
    let result = match flow {
        Flow::Done { result } => result,
        _ => panic!("expected an outcome"),
    };
    let r = render_response(result);
    assert_eq!(r.status, b"HTTP/1.1 200\n".to_vec());
    assert_eq!(r.header, b"Content-Length: 11\r\n\r\n".to_vec());
    assert_eq!(r.body, b"secret-data".to_vec());
}
