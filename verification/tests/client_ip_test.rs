use gateway::client_ip::{extract_client_ip, is_internal_ip, validate_and_clean_ip};

fn headers(pairs: &[(&str, &str)]) -> Vec<(String, String)> {
    pairs
        .iter()
        .map(|(k, v)| (k.to_string(), v.to_string()))
        .collect()
}

#[test]
fn test_is_internal_ip() {
    assert!(is_internal_ip("192.168.1.1"));
    assert!(is_internal_ip("10.0.0.1"));
    assert!(is_internal_ip("172.16.0.1"));
    assert!(is_internal_ip("127.0.0.1"));
    assert!(is_internal_ip("localhost"));

    assert!(!is_internal_ip("203.0.113.1"));
    assert!(!is_internal_ip("8.8.8.8"));
    assert!(!is_internal_ip("1.1.1.1"));
}

#[test]
fn test_validate_and_clean_ip() {
    assert_eq!(
        validate_and_clean_ip("203.0.113.1"),
        Some("203.0.113.1".to_string())
    );
    assert_eq!(
        validate_and_clean_ip("  203.0.113.1  "),
        Some("203.0.113.1".to_string())
    );
    assert_eq!(validate_and_clean_ip("192.168.1.1"), None);
    assert_eq!(validate_and_clean_ip("invalid-ip"), None);
    assert_eq!(validate_and_clean_ip("127.0.0.1"), None);
}

#[test]
fn test_extract_cloudflare_ip() {
    let h = headers(&[
        ("cf-connecting-ip", "203.0.113.1"),
        ("x-forwarded-for", "192.168.1.1, 203.0.113.1"),
    ]);

    let ip = extract_client_ip(&h);
    assert_eq!(ip, "203.0.113.1");
}

#[test]
fn test_extract_x_forwarded_for() {
    let h = headers(&[("x-forwarded-for", "203.0.113.1, 10.0.0.1, 172.16.0.1")]);

    let ip = extract_client_ip(&h);
    assert_eq!(ip, "203.0.113.1");
}

#[test]
fn test_extract_x_real_ip() {
    let h = headers(&[("x-real-ip", "203.0.113.1")]);

    let ip = extract_client_ip(&h);
    assert_eq!(ip, "203.0.113.1");
}

#[test]
fn test_no_valid_ip_headers() {
    let h = headers(&[]);
    let ip = extract_client_ip(&h);
    assert_eq!(ip, "");
}

#[test]
fn test_only_private_ips() {
    let h = headers(&[
        ("x-forwarded-for", "192.168.1.1, 10.0.0.1"),
        ("x-real-ip", "172.16.0.1"),
    ]);

    let ip = extract_client_ip(&h);
    assert_eq!(ip, "");
}

#[test]
fn test_ipv6_support() {
    let h = headers(&[("cf-connecting-ip", "2001:db8::1")]);

    let ip = extract_client_ip(&h);
    assert_eq!(ip, "2001:db8::1");
}

#[test]
fn test_header_priority() {
    let h = headers(&[
        ("x-real-ip", "203.0.113.2"),
        ("cf-connecting-ip", "203.0.113.1"),
        ("x-forwarded-for", "203.0.113.3, 10.0.0.1"),
    ]);

    let ip = extract_client_ip(&h);
    assert_eq!(ip, "203.0.113.1");
}

#[test]
fn test_ipv6_loopback_and_unspecified_rejected() {
    assert_eq!(validate_and_clean_ip("0::1"), None);
    assert_eq!(validate_and_clean_ip("0:0:0:0:0:0:0:0"), None);
    assert_eq!(
        validate_and_clean_ip("2001:db8:0:0:0:0:0:1"),
        Some("2001:db8:0:0:0:0:0:1".to_string())
    );
}
