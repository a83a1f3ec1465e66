use hasty::HttpMethods;
use hasty::Request;
use hasty::Response;
use hasty::ResponseCode;
use hasty::TransferEncoding;

#[test]
fn serialize_get_basic() {
    let mut request = Request::new();
    request.set_host("example.com".to_owned());
    let payload = request.to_payload();
    assert_eq!(payload, b"GET / HTTP/1.1\r\nHost: example.com\r\n\r\n".to_vec());
}

#[test]
fn serialize_post_with_body() {
    let mut request = Request::new();
    request.set_host("example.com".to_owned());
    request.set_path("/upload".to_owned());
    request.set_method(HttpMethods::Post);
    request.set_body(Some(vec![1, 2, 3, 4]));
    request.set_content_type("application/octet-stream".to_owned());
    let payload = request.to_payload();
    let mut expected = Vec::new();
    expected.extend_from_slice(b"POST /upload HTTP/1.1\r\nHost: example.com\r\n");
    expected.extend_from_slice(
        b"content-length: 4\r\ncontent-type: application/octet-stream;charset=UTF-8\r\n\r\n",
    );
    expected.extend_from_slice(&[1, 2, 3, 4]);
    expected.extend_from_slice(b"\r\n");
    assert_eq!(payload, expected);
}

#[test]
fn serialize_custom_header() {
    let request = Request::new().with_raw_header("my-header".to_owned(), "looking good!".to_owned());
    let mut request = request;
    request.set_host("h".to_owned());
    let payload = request.to_payload();
    assert_eq!(
        payload,
        b"GET / HTTP/1.1\r\nHost: h\r\nmy-header: looking good!\r\n\r\n".to_vec()
    );
}

#[test]
fn headers_round_trip() {
    let mut request = Request::new();
    request.set_host("example.com".to_owned());
    request.add_raw_header("Alpha".to_owned(), "one".to_owned());
    request.add_raw_header("Beta".to_owned(), "two: and more".to_owned());
    let payload = request.to_payload();

    // The serialized head begins with the request line; feed the header
    // lines after it to the response parser behind a status line.
    let head_len = payload.len() - 2;
    let request_line_end = b"GET / HTTP/1.1\r\n".len();
    let mut wire = b"HTTP/1.1 200 OK\r\n".to_vec();
    wire.extend_from_slice(&payload[request_line_end..head_len]);

    let mut response = Response::new();
    let te = response.parse_headers(&wire).unwrap();
    assert_eq!(te, TransferEncoding::Normal);
    assert_eq!(response.get_header("Host".to_owned()), Some("example.com".to_owned()));
    assert_eq!(response.get_header("Alpha".to_owned()), Some("one".to_owned()));
    assert_eq!(response.get_header("Beta".to_owned()), Some("two: and more".to_owned()));
}

#[test]
fn parse_status_not_found() {
    let mut response = Response::new();
    let te = response.parse_headers(b"HTTP/1.1 404 Not Found\r\nServer: t\r\n").unwrap();
    assert_eq!(te, TransferEncoding::Normal);
    assert_eq!(response.response_code(), ResponseCode::NotFound);
}

#[test]
fn parse_status_unknown_is_undefined() {
    let mut response = Response::new();
    let te = response.parse_headers(b"HTTP/1.1 999 Whatever\r\n");
    assert!(te.is_ok());
    assert_eq!(response.response_code(), ResponseCode::Undefined);
}

#[test]
fn parse_rejects_other_protocols() {
    let mut response = Response::new();
    let e = response.parse_headers(b"SPDY/3 200 OK\r\n").unwrap_err();
    assert_eq!(e, "Invalid http response!".to_owned());
}

#[test]
fn parse_rejects_missing_code() {
    let mut response = Response::new();
    let e = response.parse_headers(b"HTTP/1.1\r\n").unwrap_err();
    assert_eq!(e, "Unable to parse response code".to_owned());
    let mut response = Response::new();
    let e = response.parse_headers(b"HTTP/1.1 abc OK\r\n").unwrap_err();
    assert_eq!(e, "Unable to parse response code".to_owned());
}

#[test]
fn parse_rejects_invalid_utf8() {
    let mut response = Response::new();
    let mut data = b"HTTP/1.1 200 OK\r\nX: ".to_vec();
    data.push(0xff);
    assert!(response.parse_headers(&data).is_err());
}

#[test]
fn malformed_header_line_skipped() {
    let mut response = Response::new();
    let te = response
        .parse_headers(b"HTTP/1.1 200 OK\r\nGood: yes\r\nthis line has no separator\r\nAlso: fine\r\n")
        .unwrap();
    assert_eq!(te, TransferEncoding::Normal);
    assert_eq!(response.get_header("Good".to_owned()), Some("yes".to_owned()));
    assert_eq!(response.get_header("Also".to_owned()), Some("fine".to_owned()));
    assert_eq!(response.headers().len(), 2);
}

#[test]
fn duplicate_header_last_wins() {
    let mut response = Response::new();
    response
        .parse_headers(b"HTTP/1.1 200 OK\r\nX: first\r\nX: second\r\n")
        .unwrap();
    assert_eq!(response.get_header("X".to_owned()), Some("second".to_owned()));
    assert_eq!(response.headers().len(), 1);
}

#[test]
fn transfer_encoding_detected_case_insensitively() {
    let mut response = Response::new();
    let te = response
        .parse_headers(b"HTTP/1.1 200 OK\r\nTransfer-Encoding: CHUNKED\r\n")
        .unwrap();
    assert_eq!(te, TransferEncoding::Chunked);

    let mut response = Response::new();
    let te = response
        .parse_headers(b"HTTP/1.1 200 OK\r\nTransfer-Encoding: identity\r\n")
        .unwrap();
    assert_eq!(te, TransferEncoding::Normal);
}

#[test]
fn status_token_allows_plus_sign() {
    // The numeric token is read like the standard integer parser reads
    // it: a leading plus sign is accepted.
    let mut response = Response::new();
    response.parse_headers(b"HTTP/1.1 +404 Not Found\r\n").unwrap();
    assert_eq!(response.response_code(), ResponseCode::NotFound);
}

#[test]
fn status_token_overflow_is_an_error() {
    let mut response = Response::new();
    let e = response.parse_headers(b"HTTP/1.1 99999999999 Huge\r\n").unwrap_err();
    assert_eq!(e, "Unable to parse response code".to_owned());
}

#[test]
fn request_builders() {
    let request = Request::new()
        .with_method(HttpMethods::Post)
        .with_content_type("text/csv".to_owned())
        .with_body(Some(b"a,b".to_vec()));
    let mut request = request;
    request.set_host("h".to_owned());
    let payload = request.to_payload();
    let mut expected = Vec::new();
    expected.extend_from_slice(b"POST / HTTP/1.1\r\nHost: h\r\n");
    expected.extend_from_slice(b"content-length: 3\r\ncontent-type: text/csv;charset=UTF-8\r\n\r\n");
    expected.extend_from_slice(b"a,b");
    expected.extend_from_slice(b"\r\n");
    assert_eq!(payload, expected);
}

#[test]
fn status_code_table() {
    assert_eq!(ResponseCode::from_int(200), ResponseCode::Okay);
    assert_eq!(ResponseCode::from_int(404), ResponseCode::NotFound);
    assert_eq!(ResponseCode::from_int(511), ResponseCode::NetworkAuthenticationRequired);
    assert_eq!(ResponseCode::from_int(0), ResponseCode::Undefined);
    assert_eq!(ResponseCode::from_int(299), ResponseCode::Undefined);
}
