use hasty::Response;
use hasty::ResponseCode;
use hasty::TransferEncoding;

#[test]
fn chunked_decode_two_chunks() {
    let mut response = Response::new();
    response
        .parse_body(b"4\r\nWiki\r\n5\r\nSpeak\r\n0\r\n\r\n", TransferEncoding::Chunked)
        .unwrap();
    assert_eq!(response.body(), b"WikiSpeak".to_vec());
}

#[test]
fn chunked_decode_hex_sizes() {
    let mut response = Response::new();
    response
        .parse_body(b"a\r\n0123456789\r\n0\r\n\r\n", TransferEncoding::Chunked)
        .unwrap();
    assert_eq!(response.body(), b"0123456789".to_vec());

    let mut response = Response::new();
    response
        .parse_body(b"A\r\n0123456789\r\n0\r\n\r\n", TransferEncoding::Chunked)
        .unwrap();
    assert_eq!(response.body(), b"0123456789".to_vec());
}

#[test]
fn chunked_decode_appends_to_body() {
    let mut response = Response::new();
    response.set_body(b"seed");
    response.parse_body(b"2\r\nXY\r\n0\r\n\r\n", TransferEncoding::Chunked).unwrap();
    assert_eq!(response.body(), b"seedXY".to_vec());
}

#[test]
fn normal_body_verbatim() {
    let mut response = Response::new();
    response.parse_body(b"anything at all \xff\x00", TransferEncoding::Normal).unwrap();
    assert_eq!(response.body(), b"anything at all \xff\x00".to_vec());
}

#[test]
fn chunked_missing_delimiter() {
    let mut response = Response::new();
    let e = response
        .parse_body(b"123456789 no delimiter here", TransferEncoding::Chunked)
        .unwrap_err();
    assert_eq!(e, "Error parsing chunked data: unable to read chunk size".to_owned());
}

#[test]
fn chunked_bad_size_token() {
    let mut response = Response::new();
    let e = response.parse_body(b"xy\r\nAB\r\n0\r\n\r\n", TransferEncoding::Chunked).unwrap_err();
    assert_eq!(e, "Error parsing chunked encoding: invalid chunk size".to_owned());
}

#[test]
fn chunked_truncated_payload() {
    let mut response = Response::new();
    let e = response.parse_body(b"5\r\nAB", TransferEncoding::Chunked).unwrap_err();
    assert_eq!(e, "Error parsing chunked data: incomplete chunk".to_owned());
}

#[test]
fn chunk_size_of_six_hex_digits_decodes() {
    // A six-digit size token and its CRLF fill the eight-byte search
    // window exactly.
    let mut wire = b"100000\r\n".to_vec();
    let payload = vec![b'x'; 0x100000];
    wire.extend_from_slice(&payload);
    wire.extend_from_slice(b"\r\n0\r\n\r\n");
    let mut response = Response::new();
    response.parse_body(&wire, TransferEncoding::Chunked).unwrap();
    assert_eq!(response.body(), payload);

    let mut response = Response::new();
    response.parse_body(b"000002\r\nXY\r\n0\r\n\r\n", TransferEncoding::Chunked).unwrap();
    assert_eq!(response.body(), b"XY".to_vec());
}

#[test]
fn chunk_size_allows_plus_sign() {
    // Chunk sizes are read like the standard radix parser reads them:
    // a leading plus sign is accepted.
    let mut response = Response::new();
    response.parse_body(b"+2\r\nXY\r\n0\r\n\r\n", TransferEncoding::Chunked).unwrap();
    assert_eq!(response.body(), b"XY".to_vec());
}

#[test]
fn find_body_start_basic() {
    let data = b"HTTP/1.1 200 OK\r\nA: b\r\n\r\nbody";
    let i = Response::find_body_start(data).unwrap();
    assert_eq!(data[i], b'\n');
    assert_eq!(&data[i + 1..], b"body");
    assert_eq!(i, 24);
}

#[test]
fn find_body_start_absent() {
    assert_eq!(Response::find_body_start(b"HTTP/1.1 200 OK\r\nA: b\r\n"), None);
    assert_eq!(Response::find_body_start(b""), None);
}

#[test]
fn find_body_start_first_occurrence() {
    let data = b"x\r\n\r\nmore\r\n\r\nend";
    assert_eq!(Response::find_body_start(data), Some(4));
}

#[test]
fn from_bytes_normal_message() {
    let data = b"HTTP/1.1 200 OK\r\nContent-Type: text/plain\r\n\r\nhello";
    let mut response = Response::from_bytes(data).unwrap();
    assert_eq!(response.response_code(), ResponseCode::Okay);
    assert_eq!(response.get_header("Content-Type".to_owned()), Some("text/plain".to_owned()));
    assert_eq!(response.body(), b"hello".to_vec());
}

#[test]
fn from_bytes_chunked_message() {
    let data = b"HTTP/1.1 200 OK\r\nTransfer-Encoding: chunked\r\n\r\n4\r\nWiki\r\n5\r\nSpeak\r\n0\r\n\r\n";
    let response = Response::from_bytes(data).unwrap();
    assert_eq!(response.body(), b"WikiSpeak".to_vec());
}

#[test]
fn from_bytes_without_boundary() {
    let e = match Response::from_bytes(b"HTTP/1.1 200 OK\r\nA: b\r\n") {
        Err(e) => e,
        Ok(_) => panic!("a buffer without a header boundary must not parse"),
    };
    assert_eq!(e, "Could not parse http response!".to_owned());
}

#[test]
fn response_accessors() {
    let mut response = Response::new();
    assert_eq!(response.response_code(), ResponseCode::Undefined);
    assert_eq!(response.body(), Vec::<u8>::new());
    response.set_response_code(ResponseCode::ImATeapot);
    assert_eq!(response.response_code(), ResponseCode::ImATeapot);
    response.add_header("a".to_owned(), "1".to_owned());
    response.add_header("b".to_owned(), "2".to_owned());
    response.add_header("a".to_owned(), "3".to_owned());
    assert_eq!(response.get_header("a".to_owned()), Some("3".to_owned()));
    assert_eq!(response.get_header("b".to_owned()), Some("2".to_owned()));
    assert_eq!(response.get_header("c".to_owned()), None);
    let map = response.headers();
    assert_eq!(map.len(), 2);
    assert_eq!(map.get(&"a".to_owned()), Some("3".to_owned()));
    response.set_body(b"xyz");
    assert_eq!(response.body(), b"xyz".to_vec());
}
