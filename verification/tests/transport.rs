use hasty::transports::find_sub_vector;
use hasty::transports::plan_transport;
use hasty::transports::MessageAssembler;
use hasty::transports::TransportKind;
use hasty::Config;
use hasty::Hasty;

#[test]
fn find_sub_vector_reports_end_of_match() {
    let large = b"abcdef".to_vec();
    assert_eq!(find_sub_vector(&large, &b"cd".to_vec()), Some(4));
    assert_eq!(find_sub_vector(&large, &b"ab".to_vec()), Some(2));
    assert_eq!(find_sub_vector(&large, &b"zz".to_vec()), None);
}

#[test]
fn find_sub_vector_finds_match_flush_with_end() {
    let large = b"abcdef".to_vec();
    assert_eq!(find_sub_vector(&large, &b"ef".to_vec()), Some(6));
    assert_eq!(find_sub_vector(&large, &b"abcdef".to_vec()), Some(6));
    assert_eq!(find_sub_vector(&b"ab\r\n".to_vec(), &b"\r\n".to_vec()), Some(4));
}

#[test]
fn find_sub_vector_needle_longer_than_haystack() {
    assert_eq!(find_sub_vector(&b"ab".to_vec(), &b"abc".to_vec()), None);
}

#[test]
fn assembler_plain_message_single_drain() {
    let mut collector = MessageAssembler::new();
    let chunk = b"HTTP/1.1 200 OK\r\nContent-Type: a\r\n\r\nhello".to_vec();
    let done = collector.push_plaintext(&chunk);
    assert!(done);
    assert_eq!(collector.into_bytes(), chunk);
}

#[test]
fn assembler_drops_drain_without_boundary() {
    let mut collector = MessageAssembler::new();
    let done = collector.push_plaintext(&b"no boundary in here".to_vec());
    assert!(done);
    assert_eq!(collector.into_bytes(), Vec::<u8>::new());
}

#[test]
fn assembler_chunked_runs_until_terminal() {
    let mut collector = MessageAssembler::new();
    // The first drain carries the headers and the start of the body, so
    // the header boundary lies inside it.
    let head = b"HTTP/1.1 200 OK\r\nTransfer-Encoding: chunked\r\n\r\n4\r\nWiki\r\n".to_vec();
    assert!(!collector.push_plaintext(&head));
    let part = b"5\r\nSpeak\r\n".to_vec();
    assert!(!collector.push_plaintext(&part));
    let tail = b"0\r\n\r\n".to_vec();
    assert!(collector.push_plaintext(&tail));
    let mut expected = head;
    expected.extend_from_slice(&part);
    expected.extend_from_slice(&tail);
    assert_eq!(collector.into_bytes(), expected);
}

#[test]
fn assembler_accepts_header_only_drain() {
    // A drain ending exactly with the header boundary is a complete
    // plain message.
    let mut collector = MessageAssembler::new();
    let chunk = b"HTTP/1.1 204 No Content\r\n\r\n".to_vec();
    assert!(collector.push_plaintext(&chunk));
    assert_eq!(collector.into_bytes(), chunk);
}

#[test]
fn assembler_detects_marker_case_insensitively() {
    let mut collector = MessageAssembler::new();
    let head = b"HTTP/1.1 200 OK\r\nTRANSFER-ENCODING: Chunked\r\n\r\nx".to_vec();
    assert!(!collector.push_plaintext(&head));
}

#[test]
fn plan_https_defaults() {
    let config = Config::new();
    let plan = plan_transport("https", Some("example.com".to_owned()), None, &config).unwrap();
    assert_eq!(plan.kind, TransportKind::Https);
    assert_eq!(plan.host, "example.com".to_owned());
    assert_eq!(plan.port, 443);
    assert!(!plan.skip_verification);
}

#[test]
fn plan_http_defaults() {
    let config = Config::new();
    let plan = plan_transport("http", Some("example.com".to_owned()), Some(8080), &config).unwrap();
    assert_eq!(plan.kind, TransportKind::Http);
    assert_eq!(plan.port, 8080);
    assert!(!plan.skip_verification);
}

#[test]
fn plan_propagates_insecure_policy() {
    let config = Config::new().disable_https_security();
    let plan = plan_transport("https", Some("localhost".to_owned()), Some(3001), &config).unwrap();
    assert!(plan.skip_verification);
    // The policy never disables validation for plain http.
    let plan = plan_transport("http", Some("localhost".to_owned()), None, &config).unwrap();
    assert!(!plan.skip_verification);
}

#[test]
fn plan_rejects_unknown_scheme() {
    let config = Config::new();
    let e = match plan_transport("ftp", Some("example.com".to_owned()), None, &config) {
        Err(e) => e,
        Ok(_) => panic!("an unknown scheme must not select a transport"),
    };
    assert_eq!(e, "Unsupported protocol!".to_owned());
}

#[test]
fn plan_rejects_missing_host() {
    let config = Config::new();
    let e = match plan_transport("https", None, None, &config) {
        Err(e) => e,
        Ok(_) => panic!("a missing host must not select a transport"),
    };
    assert_eq!(e, "Invalid host!".to_owned());
}

#[test]
fn hasty_holds_its_config() {
    let hasty = Hasty::new();
    assert!(!hasty.config().allows_insecure_https());
    let hasty = Hasty::new_with_config(Config::new().disable_https_security());
    assert!(hasty.config().allows_insecure_https());
}
