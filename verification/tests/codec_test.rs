use gateway::codec::encode_envelope;
use gateway::decode::decode_envelope;
use gateway::events::{Args, HttpReq, HttpRequestInfo, RequestContext, UriParts};
use gateway::types::{AuthToken, ClientIp, HttpMethod};
use std::io::Read;

fn envelope() -> HttpReq {
    let info = HttpRequestInfo {
        uri: UriParts {
            path_original: b"https://h/api/v1/portfolios/42?x=%00%01".to_vec(),
            scheme: b"https".to_vec(),
            path: b"/api/v1/portfolios/42".to_vec(),
            query_string: b"x=%00%01".to_vec(),
            host: b"h".to_vec(),
        },
        method: HttpMethod::Get,
        matched_path: "/api/v1/portfolios/{pid}".to_string(),
    };
    let context = RequestContext {
        client_ip: ClientIp::new("203.0.113.9".to_string()),
        authorization: AuthToken::new("tok".to_string()),
        user_values: vec![("pid".to_string(), "42".to_string())],
    };
    let query_args = vec![("x".to_string(), "\u{00}\u{01}".to_string())];
    HttpReq::new(info, context, query_args, vec![0u8, 1, 2, 254, 255])
}

#[test]
fn test_envelope_round_trip() {
    let req = envelope();
    let buf = encode_envelope(&req).expect("encode");
    let d = decode_envelope(&buf).expect("reference decoder must accept the encoder's output");

    assert_eq!(d.req_type, b"/api/v1/portfolios/{pid}".to_vec());
    assert_eq!(d.access_token, b"tok".to_vec());
    assert_eq!(d.method, b"GET".to_vec());
    assert_eq!(
        d.user_values,
        vec![(b"pid".to_vec(), b"42".to_vec())]
    );
    assert_eq!(d.uri.path_original, b"https://h/api/v1/portfolios/42?x=%00%01".to_vec());
    assert_eq!(d.uri.scheme, b"https".to_vec());
    assert_eq!(d.uri.path, b"/api/v1/portfolios/42".to_vec());
    assert_eq!(d.uri.query_string, b"x=%00%01".to_vec());
    assert_eq!(d.uri.hash, Vec::<u8>::new());
    assert_eq!(d.uri.host, b"h".to_vec());
    assert_eq!(d.uri.args, vec![(b"x".to_vec(), vec![0u8, 1u8])]);
    assert_eq!(d.body, vec![0u8, 1, 2, 254, 255]);
    assert_eq!(d.client_ip, b"203.0.113.9".to_vec());
}

fn read_str(rd: &mut &[u8]) -> String {
    let len = rmp::decode::read_str_len(rd).expect("str header") as usize;
    let mut v = vec![0u8; len];
    rd.read_exact(&mut v).expect("str bytes");
    String::from_utf8(v).expect("utf8")
}

fn read_bin(rd: &mut &[u8]) -> Vec<u8> {
    let len = rmp::decode::read_bin_len(rd).expect("bin header") as usize;
    let mut v = vec![0u8; len];
    rd.read_exact(&mut v).expect("bin bytes");
    v
}

#[test]
fn test_wire_format_against_reference_library() {
    let req = envelope();
    let buf = encode_envelope(&req).expect("encode");
    let mut rd: &[u8] = &buf;

    assert_eq!(rmp::decode::read_map_len(&mut rd).expect("map"), 7);

    assert_eq!(read_str(&mut rd), "type");
    assert_eq!(read_str(&mut rd), "/api/v1/portfolios/{pid}");

    assert_eq!(read_str(&mut rd), "access_token");
    assert_eq!(read_str(&mut rd), "tok");

    assert_eq!(read_str(&mut rd), "method");
    assert_eq!(read_str(&mut rd), "GET");

    assert_eq!(read_str(&mut rd), "user_values");
    assert_eq!(rmp::decode::read_map_len(&mut rd).expect("uv map"), 1);
    assert_eq!(read_str(&mut rd), "pid");
    assert_eq!(read_str(&mut rd), "42");

    assert_eq!(read_str(&mut rd), "uri");
    assert_eq!(rmp::decode::read_map_len(&mut rd).expect("uri map"), 7);
    assert_eq!(read_str(&mut rd), "path_original");
    assert_eq!(read_bin(&mut rd), b"https://h/api/v1/portfolios/42?x=%00%01".to_vec());
    assert_eq!(read_str(&mut rd), "scheme");
    assert_eq!(read_bin(&mut rd), b"https".to_vec());
    assert_eq!(read_str(&mut rd), "path");
    assert_eq!(read_bin(&mut rd), b"/api/v1/portfolios/42".to_vec());
    assert_eq!(read_str(&mut rd), "query_string");
    assert_eq!(read_bin(&mut rd), b"x=%00%01".to_vec());
    assert_eq!(read_str(&mut rd), "hash");
    assert_eq!(read_bin(&mut rd), Vec::<u8>::new());
    assert_eq!(read_str(&mut rd), "host");
    assert_eq!(read_bin(&mut rd), b"h".to_vec());
    assert_eq!(read_str(&mut rd), "args");
    assert_eq!(rmp::decode::read_map_len(&mut rd).expect("args map"), 1);
    assert_eq!(read_str(&mut rd), "val");
    assert_eq!(rmp::decode::read_map_len(&mut rd).expect("val map"), 1);
    assert_eq!(read_str(&mut rd), "x");
    assert_eq!(read_bin(&mut rd), vec![0u8, 1u8]);

    assert_eq!(read_str(&mut rd), "body");
    assert_eq!(read_bin(&mut rd), vec![0u8, 1, 2, 254, 255]);

    assert_eq!(read_str(&mut rd), "client_ip");
    assert_eq!(read_str(&mut rd), "203.0.113.9");

    assert!(rd.is_empty());
}

#[test]
fn test_encode_is_deterministic() {
    let a = encode_envelope(&envelope()).expect("encode");
    let b = encode_envelope(&envelope()).expect("encode");
    assert_eq!(a, b);
}

#[test]
fn test_long_fields_use_wide_length_prefixes() {
    let mut req = envelope();
    req.body = vec![7u8; 70_000];
    req.req_type = "t".repeat(300);
    let buf = encode_envelope(&req).expect("encode");
    let d = decode_envelope(&buf).expect("decode");
    assert_eq!(d.body.len(), 70_000);
    assert_eq!(d.req_type.len(), 300);

    let mut rd: &[u8] = &buf;
    assert_eq!(rmp::decode::read_map_len(&mut rd).expect("map"), 7);
    assert_eq!(read_str(&mut rd), "type");
    assert_eq!(read_str(&mut rd), "t".repeat(300));
}

#[test]
fn test_decode_rejects_truncated_input() {
    let req = envelope();
    let buf = encode_envelope(&req).expect("encode");
    assert!(decode_envelope(&buf[..buf.len() - 1]).is_none());
    assert!(decode_envelope(&[]).is_none());
}
