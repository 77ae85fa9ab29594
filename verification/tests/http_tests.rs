use proxy_vet::http::{baseline_ip, build_request, classify_response, connect_address,
    find_header_end, IdentityDocument, ProbeOutcome};

#[test]
fn request_is_framed_for_the_host_and_path() {
    let r = build_request("example.net", "/meta");
    assert!(r.starts_with("GET /meta HTTP/1.1\r\nHost: example.net\r\n"));
    assert!(r.contains("\r\nUser-Agent: Mozilla/5.0"));
    assert!(r.ends_with("\r\nConnection: close\r\n\r\n"));
}

#[test]
fn connect_address_for_ipv4() {
    assert_eq!(connect_address("1.2.3.4", 8080), "1.2.3.4:8080");
}

#[test]
fn connect_address_brackets_ipv6() {
    assert_eq!(connect_address("2001:db8::1", 443), "[2001:db8::1]:443");
}

#[test]
fn finds_first_empty_line() {
    let bytes = b"HTTP/1.1 200 OK\r\nA: b\r\n\r\nbody".to_vec();
    assert_eq!(find_header_end(&bytes), Some(21));
    assert_eq!(find_header_end(&b"no separator here".to_vec()), None);
    assert_eq!(find_header_end(&b"\r\n\r\n".to_vec()), Some(0));
}

#[test]
fn classifies_identity_response() {
    let bytes = b"HTTP/1.1 200 OK\r\nContent-Type: application/json\r\n\r\n{\"clientIp\":\"1.2.3.4\",\"asn\":13335}\n".to_vec();
    match classify_response(&bytes) {
        ProbeOutcome::Identity(doc) => assert_eq!(doc.client_ip.as_deref(), Some("1.2.3.4")),
        other => panic!("expected an identity, got {:?}", other),
    }
}

#[test]
fn classifies_identity_without_client_ip() {
    let bytes = b"HTTP/1.1 200 OK\r\n\r\n{\"other\":true}".to_vec();
    match classify_response(&bytes) {
        ProbeOutcome::Identity(doc) => assert_eq!(doc.client_ip, None),
        other => panic!("expected an identity, got {:?}", other),
    }
}

#[test]
fn classifies_non_json_body_as_malformed() {
    let bytes = b"HTTP/1.1 502 Bad Gateway\r\n\r\n<html>upstream sad</html>".to_vec();
    assert!(matches!(classify_response(&bytes), ProbeOutcome::MalformedResponse));
}

#[test]
fn classifies_missing_separator() {
    let bytes = b"HTTP/1.1 200 OK\r\ntruncated".to_vec();
    assert!(matches!(classify_response(&bytes), ProbeOutcome::NoSeparator));
}

#[test]
fn non_string_client_ip_reads_as_missing() {
    let bytes = b"HTTP/1.1 200 OK\r\n\r\n{\"clientIp\":42}".to_vec();
    match classify_response(&bytes) {
        ProbeOutcome::Identity(doc) => assert_eq!(doc.client_ip, None),
        other => panic!("expected an identity, got {:?}", other),
    }
}

#[test]
fn non_object_json_reads_as_missing_client_ip() {
    let bytes = b"HTTP/1.1 200 OK\r\n\r\n[1,2,3]".to_vec();
    match classify_response(&bytes) {
        ProbeOutcome::Identity(doc) => assert_eq!(doc.client_ip, None),
        other => panic!("expected an identity, got {:?}", other),
    }
}

#[test]
fn baseline_comes_only_from_an_identity_with_an_address() {
    let ok = ProbeOutcome::Identity(IdentityDocument { client_ip: Some(String::from("9.9.9.9")) });
    assert_eq!(baseline_ip(ok).as_deref(), Some("9.9.9.9"));
    let missing = ProbeOutcome::Identity(IdentityDocument { client_ip: None });
    assert_eq!(baseline_ip(missing), None);
    assert_eq!(baseline_ip(ProbeOutcome::Timeout), None);
}
