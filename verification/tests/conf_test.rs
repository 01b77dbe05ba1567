use gateway::conf::{Conf, ConfError, NatsConf};
use gateway::types::{NatsHost, Port};

#[test]
fn test_valid_config_parsing() {
    let test_conf = Conf {
        listen_port: Port::new(8080).unwrap(),
        enable_cors: true,
        nats: NatsConf {
            host: NatsHost::new("localhost:4222".to_string()).unwrap(),
        },
        allowed_origins: vec!["http://localhost:3000".to_string()],
        is_debug: true,
    };

    assert_eq!(test_conf.listen_port.as_u16(), 8080);
    assert_eq!(test_conf.nats.host.as_str(), "localhost:4222");
    assert_eq!(test_conf.allowed_origins, vec!["http://localhost:3000"]);
    assert!(test_conf.is_debug);
}

#[test]
fn test_conf_error_display() {
    let error = ConfError {
        message: "Test error message".to_string(),
    };

    assert_eq!(error.to_string(), "ConfError: Test error message");
}

#[test]
fn test_nats_conf_clone() {
    let nats_conf = NatsConf {
        host: NatsHost::new("test.host:4222".to_string()).unwrap(),
    };
    let cloned = nats_conf.clone();

    assert_eq!(nats_conf.host.as_str(), cloned.host.as_str());
}
