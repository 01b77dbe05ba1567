use gateway::rmq::{pool_config, prefetch_count, request_queue_spec, response_exchange_spec,
    response_queue_spec, needs_channel};
use gateway::subscriber::{classify_delivery, connection_ready, reconnect_backoff_ms, supervise,
    ConnectAttempt, ConsumeEnd, SupervisorDecision};

#[test]
fn test_classify_delivery_complete() {
    let e = classify_delivery(
        Some("id-1".to_string()),
        Some("201".to_string()),
        b"payload".to_vec(),
    )
    .expect("well-formed delivery");
    assert_eq!(e.id(), "id-1");
    assert_eq!(e.data, b"payload".to_vec());
    assert_eq!(e.code, "201");
}

#[test]
fn test_classify_delivery_defaults_missing_code_to_500() {
    let e = classify_delivery(Some("id-2".to_string()), None, Vec::new()).expect("well-formed");
    assert_eq!(e.code, "500");
}

#[test]
fn test_classify_delivery_rejects_missing_id() {
    assert!(classify_delivery(None, Some("200".to_string()), b"x".to_vec()).is_none());
}

#[test]
fn test_supervisor_decisions() {
    assert!(matches!(
        supervise(ConsumeEnd::ShutdownSignal),
        SupervisorDecision::Stop
    ));
    assert!(matches!(
        supervise(ConsumeEnd::StreamEnded),
        SupervisorDecision::Reconnect
    ));
    assert!(connection_ready(ConnectAttempt::Connected));
    assert!(!connection_ready(ConnectAttempt::PoolFailed));
    assert!(!connection_ready(ConnectAttempt::ChannelFailed));
    assert_eq!(reconnect_backoff_ms(), 250);
}

#[test]
fn test_topology_contract() {
    let rq = request_queue_spec();
    assert_eq!(rq.name, "http.requests");
    assert!(rq.durable && !rq.exclusive && !rq.auto_delete);

    let re = response_exchange_spec();
    assert_eq!(re.name, "http.responses");
    assert!(re.fanout && re.durable && !re.auto_delete);

    let pq = response_queue_spec();
    assert_eq!(pq.name, "");
    assert!(!pq.durable && !pq.exclusive && pq.auto_delete);

    assert_eq!(prefetch_count(), 1);
    let pc = pool_config();
    assert_eq!(pc.max_size, 10);
    assert_eq!(pc.wait_timeout_secs, 5);
    assert_eq!(pc.create_timeout_secs, 5);
    assert_eq!(pc.recycle_timeout_secs, 300);
    assert!(needs_channel(false, false));
    assert!(needs_channel(true, false));
    assert!(!needs_channel(true, true));
}
