use gateway::codec::encode_envelope;
use gateway::events::{HttpReq, HttpRequestInfo, RequestContext, UriParts};
use gateway::publisher::{expiration_text, mint_correlation_id, prepare_publish};
use gateway::types::{AuthToken, ClientIp, HttpMethod};
use std::collections::HashSet;

fn is_canonical(id: &str) -> bool {
    let b: Vec<char> = id.chars().collect();
    b.len() == 36
        && (0..36).all(|i| match i {
            8 | 13 | 18 | 23 => b[i] == '-',
            14 => b[i] == '4',
            _ => b[i].is_ascii_hexdigit() && !b[i].is_ascii_uppercase(),
        })
}

#[test]
fn test_mint_correlation_id_format() {
    for _ in 0..100 {
        let id = mint_correlation_id();
        assert!(is_canonical(&id), "unexpected id format: {id}");
    }
}

#[test]
fn test_no_correlation_id_collisions() {
    let n = 1_000_000usize;
    let mut seen: HashSet<String> = HashSet::with_capacity(n);
    for _ in 0..n {
        seen.insert(mint_correlation_id());
    }
    assert_eq!(seen.len(), n);
}

#[test]
fn test_expiration_text() {
    assert_eq!(expiration_text(0), b"120".to_vec());
    assert_eq!(expiration_text(1_000), b"1120".to_vec());
    assert_eq!(expiration_text(1_700_000_000), b"1700000120".to_vec());
}

#[test]
fn test_prepare_publish() {
    let req = HttpReq::new(
        HttpRequestInfo {
            uri: UriParts {
                path_original: b"/api/v1/plans".to_vec(),
                scheme: b"http".to_vec(),
                path: b"/api/v1/plans".to_vec(),
                query_string: Vec::new(),
                host: b"localhost".to_vec(),
            },
            method: HttpMethod::Get,
            matched_path: "/api/v1/plans".to_string(),
        },
        RequestContext {
            client_ip: ClientIp::empty(),
            authorization: AuthToken::empty(),
            user_values: Vec::new(),
        },
        Vec::new(),
        Vec::new(),
    );
    let m = prepare_publish(&req, 1_700_000_000).expect("publishable");
    assert!(is_canonical(&m.message_id));
    assert_eq!(m.content_type, "application/octet-stream");
    assert_eq!(m.delivery_mode, 1);
    assert_eq!(m.expiration, b"1700000120".to_vec());
    assert_eq!(m.routing_key, "http.requests");
    assert_eq!(m.payload, encode_envelope(&req).expect("encode"));
}
