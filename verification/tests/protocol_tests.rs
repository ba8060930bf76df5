use webbench::protocol::raw_request;
use webbench::protocol::Header;
use webbench::protocol::Http;
use webbench::protocol::ProtocolError;
use webbench::protocol::RequestParts;
use webbench::Method;
use webbench::Version;

fn header(name: &str, value: &str) -> Header {
    Header { name: name.as_bytes().to_vec(), value: value.as_bytes().to_vec() }
}

#[test]
fn renders_a_bare_request_line() {
    let req = RequestParts {
        method: Method::GET,
        path: b"/".to_vec(),
        version: Version::H11,
        headers: Vec::new(),
    };
    let raw = raw_request(&req).unwrap();
    assert_eq!(raw, b"GET / HTTP/1.1\r\n\r\n".to_vec());
}

#[test]
fn renders_the_full_close_mode_request() {
    let req = RequestParts {
        method: Method::GET,
        path: b"/".to_vec(),
        version: Version::H11,
        headers: vec![header("Host", "x"), header("Connection", "close")],
    };
    let raw = raw_request(&req).unwrap();
    assert_eq!(raw, b"GET / HTTP/1.1\r\nHost: x\r\nConnection: close\r\n\r\n".to_vec());
}

#[test]
fn renders_through_the_http_renderer() {
    let req = RequestParts {
        method: Method::HEAD,
        path: b"/index.html".to_vec(),
        version: Version::H10,
        headers: Vec::new(),
    };
    let raw = Http::new().raw_request(&req).unwrap();
    assert_eq!(raw, b"HEAD /index.html HTTP/1.0\r\n\r\n".to_vec());
}

#[test]
fn method_names_on_the_wire() {
    assert_eq!(Method::OPTIONS.wire_bytes(), b"OPTIONS".to_vec());
    assert_eq!(Method::GET.wire_bytes(), b"GET".to_vec());
    assert_eq!(Method::HEAD.wire_bytes(), b"HEAD".to_vec());
    assert_eq!(Method::TRACE.wire_bytes(), b"TRACE".to_vec());
}

#[test]
fn version_names_on_the_wire() {
    assert_eq!(Version::H09.wire_bytes(), b"HTTP/0.9".to_vec());
    assert_eq!(Version::H10.wire_bytes(), b"HTTP/1.0".to_vec());
    assert_eq!(Version::H11.wire_bytes(), b"HTTP/1.1".to_vec());
}

#[test]
fn empty_path_is_rejected() {
    let req = RequestParts {
        method: Method::GET,
        path: Vec::new(),
        version: Version::H11,
        headers: Vec::new(),
    };
    assert_eq!(raw_request(&req), Err(ProtocolError::InvalidPath));
}

#[test]
fn path_with_a_space_is_rejected() {
    let req = RequestParts {
        method: Method::GET,
        path: b"/a b".to_vec(),
        version: Version::H11,
        headers: Vec::new(),
    };
    assert_eq!(raw_request(&req), Err(ProtocolError::InvalidPath));
}

#[test]
fn header_value_with_a_line_break_is_rejected() {
    let req = RequestParts {
        method: Method::GET,
        path: b"/".to_vec(),
        version: Version::H11,
        headers: vec![header("Host", "x\r\nInjected: yes")],
    };
    assert_eq!(raw_request(&req), Err(ProtocolError::InvalidHeader));
}

#[test]
fn empty_header_name_is_rejected() {
    let req = RequestParts {
        method: Method::GET,
        path: b"/".to_vec(),
        version: Version::H11,
        headers: vec![header("", "x")],
    };
    assert_eq!(raw_request(&req), Err(ProtocolError::InvalidHeader));
}

#[test]
fn bad_path_is_reported_before_bad_headers() {
    let req = RequestParts {
        method: Method::GET,
        path: Vec::new(),
        version: Version::H11,
        headers: vec![header("", "x")],
    };
    assert_eq!(raw_request(&req), Err(ProtocolError::InvalidPath));
}
