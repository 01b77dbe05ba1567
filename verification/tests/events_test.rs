use gateway::codec::encode_envelope;
use gateway::events::{Args, HttpReq, HttpRequestInfo, RequestContext, Uri, UriParts};
use gateway::types::{AuthToken, ClientIp, HttpMethod};

fn sample_req() -> HttpReq {
    let info = HttpRequestInfo {
        uri: UriParts {
            path_original: b"http://localhost:8000/api/v1/test".to_vec(),
            scheme: b"http".to_vec(),
            path: b"/api/v1/test".to_vec(),
            query_string: Vec::new(),
            host: b"localhost:8000".to_vec(),
        },
        method: HttpMethod::Post,
        matched_path: "/api/v1/test".to_string(),
    };
    let context = RequestContext {
        client_ip: ClientIp::new("192.168.1.1".to_string()),
        authorization: AuthToken::new("Bearer token".to_string()),
        user_values: Vec::new(),
    };
    let query_args = vec![("key".to_string(), "value".to_string())];
    HttpReq::new(info, context, query_args, b"test data".to_vec())
}

#[test]
fn test_http_req_serialization() {
    let http_req = sample_req();

    let serialized = encode_envelope(&http_req);
    assert!(serialized.is_ok());
    let serialized_data = serialized.expect("serialization should succeed in test");
    assert!(!serialized_data.is_empty());
}

#[test]
fn test_args_struct() {
    let args = Args {
        val: vec![
            ("param1".to_string(), b"value1".to_vec()),
            ("param2".to_string(), b"value2".to_vec()),
        ],
    };

    let mut req = sample_req();
    req.uri.args = args;
    let serialized = encode_envelope(&req);
    assert!(serialized.is_ok());
}

#[test]
fn test_uri_struct_creation() {
    let uri_struct = Uri {
        path_original: b"/test/path".to_vec(),
        scheme: b"https".to_vec(),
        path: b"/test".to_vec(),
        query_string: b"param=value".to_vec(),
        hash: Vec::new(),
        host: b"example.com".to_vec(),
        args: Args { val: Vec::new() },
    };

    assert_eq!(uri_struct.scheme, b"https".to_vec());
    assert_eq!(uri_struct.host, b"example.com".to_vec());
    assert_eq!(uri_struct.path, b"/test".to_vec());
}

#[test]
fn test_http_req_new_fills_fields() {
    let req = sample_req();
    assert_eq!(req.req_type, "/api/v1/test");
    assert_eq!(req.access_token.as_str(), "Bearer token");
    assert_eq!(req.method, HttpMethod::Post);
    assert_eq!(req.client_ip.as_str(), "192.168.1.1");
    assert_eq!(req.body, b"test data".to_vec());
    assert!(req.uri.hash.is_empty());
    assert_eq!(req.uri.args.val.len(), 1);
    assert_eq!(req.uri.args.val[0].0, "key");
    assert_eq!(req.uri.args.val[0].1, b"value".to_vec());
}
