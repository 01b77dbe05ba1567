use gateway::types::{AuthToken, ClientIp, HttpMethod, NatsHost, Port};

#[test]
fn test_port_validation() {
    assert!(Port::new(0).is_err());
    assert!(Port::new(8080).is_ok());
    assert_eq!(Port::new(8080).unwrap().as_u16(), 8080);
}

#[test]
fn test_client_ip() {
    let ip = ClientIp::new("192.168.1.1".to_string());
    assert_eq!(ip.as_str(), "192.168.1.1");
    assert!(!ip.is_empty());

    let empty_ip = ClientIp::empty();
    assert!(empty_ip.is_empty());
}

#[test]
fn test_auth_token() {
    let token = AuthToken::new("Bearer abc123".to_string());
    assert_eq!(token.as_str(), "Bearer abc123");
    assert!(!token.is_empty());

    let empty_token = AuthToken::empty();
    assert!(empty_token.is_empty());
}

#[test]
fn test_http_method_from_string() {
    assert_eq!(HttpMethod::from_str("GET").unwrap(), HttpMethod::Get);
    assert_eq!(HttpMethod::from_str("post").unwrap(), HttpMethod::Post);
    assert!(HttpMethod::from_str("INVALID").is_err());
}

#[test]
fn test_http_method_display() {
    assert_eq!(HttpMethod::Get.to_string(), "GET");
    assert_eq!(HttpMethod::Post.to_string(), "POST");
}

#[test]
fn test_nats_host_validation() {
    assert!(NatsHost::new("".to_string()).is_err());
    assert!(NatsHost::new("localhost".to_string()).is_err());
    assert!(NatsHost::new("localhost:4222".to_string()).is_ok());
    assert_eq!(
        NatsHost::new("localhost:4222".to_string()).unwrap().as_str(),
        "localhost:4222"
    );
}

#[test]
fn test_into_string_round_trips() {
    assert_eq!(ClientIp::new("1.2.3.4".to_string()).into_string(), "1.2.3.4");
    assert_eq!(AuthToken::new("tok".to_string()).into_string(), "tok");
    assert_eq!(
        NatsHost::new("h:1".to_string()).unwrap().into_string(),
        "h:1"
    );
}
