use gateway::broker::{Broker, Command, Event};

#[test]
fn test_subscribe_publish_take() {
    let mut b = Broker::new();
    b.subscribe("id-1".to_string());
    b.publish(Event::new("id-1".to_string(), b"payload".to_vec(), "200".to_string()));
    let got = b.take("id-1").expect("delivery");
    assert_eq!(got.id(), "id-1");
    assert_eq!(got.data, b"payload".to_vec());
    assert_eq!(got.code, "200");
    assert!(b.take("id-1").is_none());
}

#[test]
fn test_publish_without_subscriber_is_discarded() {
    let mut b = Broker::new();
    b.subscribe("a".to_string());
    b.publish(Event::new("b".to_string(), b"stray".to_vec(), "200".to_string()));
    assert!(b.take("a").is_none());
    b.publish(Event::new("a".to_string(), b"mine".to_vec(), "200".to_string()));
    assert_eq!(b.take("a").expect("delivery").data, b"mine".to_vec());
}

#[test]
fn test_publish_after_unsubscribe_is_discarded() {
    let mut b = Broker::new();
    b.subscribe("a".to_string());
    b.unsubscribe("a");
    b.publish(Event::new("a".to_string(), b"late".to_vec(), "200".to_string()));
    assert!(b.take("a").is_none());
}

#[test]
fn test_unsubscribe_is_idempotent() {
    let mut b = Broker::new();
    b.unsubscribe("ghost");
    b.subscribe("a".to_string());
    b.unsubscribe("a");
    b.unsubscribe("a");
    assert!(b.take("a").is_none());
}

#[test]
fn test_second_publish_is_dropped() {
    let mut b = Broker::new();
    b.subscribe("a".to_string());
    b.publish(Event::new("a".to_string(), b"first".to_vec(), "200".to_string()));
    b.publish(Event::new("a".to_string(), b"second".to_vec(), "200".to_string()));
    assert_eq!(b.take("a").expect("delivery").data, b"first".to_vec());
    assert!(b.take("a").is_none());
}

#[test]
fn test_correlation_over_many_ids() {
    let mut b = Broker::new();
    let n = 10_000usize;
    for i in 0..n {
        b.subscribe(format!("id-{i}"));
    }
    for i in 0..n {
        let id = format!("id-{i}");
        b.publish(Event::new(id.clone(), id.clone().into_bytes(), "200".to_string()));
    }
    for i in 0..n {
        let id = format!("id-{i}");
        let got = b.take(&id).expect("each id sees its own response");
        assert_eq!(got.data, id.into_bytes());
    }
}

#[test]
fn test_step_replaces_subscription() {
    let mut b = Broker::new();
    b.step(Command::Subscribe("a".to_string()));
    b.step(Command::Publish(Event::new("a".to_string(), b"stale".to_vec(), "200".to_string())));
    b.step(Command::Subscribe("a".to_string()));
    assert!(b.take("a").is_none());
    b.step(Command::Publish(Event::new("a".to_string(), b"fresh".to_vec(), "200".to_string())));
    assert_eq!(b.take("a").expect("delivery").data, b"fresh".to_vec());
    b.step(Command::Unsubscribe("a".to_string()));
    b.publish(Event::new("a".to_string(), b"late".to_vec(), "200".to_string()));
    assert!(b.take("a").is_none());
}

#[test]
fn test_drain_delivers_queued_events() {
    let mut b = Broker::new();
    b.subscribe("a".to_string());
    b.subscribe("b".to_string());
    let queued = vec![
        Event::new("a".to_string(), b"for-a".to_vec(), "200".to_string()),
        Event::new("ghost".to_string(), b"dropped".to_vec(), "200".to_string()),
        Event::new("b".to_string(), b"for-b".to_vec(), "200".to_string()),
    ];
    b.drain(queued);
    assert_eq!(b.take("a").expect("drained").data, b"for-a".to_vec());
    assert_eq!(b.take("b").expect("drained").data, b"for-b".to_vec());
    assert!(b.take("ghost").is_none());
}
