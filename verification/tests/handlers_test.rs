use gateway::broker::Event;
use gateway::handlers::{
    create_error_response, create_response, health_check, not_found, parse_status_code,
    proxy_step, response_for, take_outcome, Action, Phase, ProxyEvent, ProxyOutcome,
    JSON_API_TYPE,
};

#[test]
fn test_health_check() {
    let r = health_check();
    assert_eq!(r.status, 200);
    assert_eq!(r.content_type, "application/vnd.api+json");
    assert_eq!(
        String::from_utf8(r.body).unwrap(),
        "{\"data\":{\"id\":\"1\",\"type\":\"statuses\",\"attributes\":{\"name\":\"success\"}}}"
    );
}

#[test]
fn test_not_found() {
    let r = not_found();
    assert_eq!(r.status, 404);
    assert_eq!(r.content_type, "application/vnd.api+json");
    let body = String::from_utf8(r.body).unwrap();
    assert!(body.contains("\"code\":\"404\""));
    assert!(body.contains("\"title\":\"Not found\""));
}

#[test]
fn test_response_headers() {
    assert_eq!(health_check().content_type, JSON_API_TYPE);
    assert_eq!(not_found().content_type, JSON_API_TYPE);
    assert_eq!(create_response(200, Vec::new()).content_type, JSON_API_TYPE);
    assert_eq!(
        create_error_response(500, "500", "x", "y").content_type,
        JSON_API_TYPE
    );
}

#[test]
fn test_parse_status_code() {
    assert_eq!(parse_status_code("200"), Some(200));
    assert_eq!(parse_status_code("404"), Some(404));
    assert_eq!(parse_status_code("999"), Some(999));
    assert_eq!(parse_status_code("099"), None);
    assert_eq!(parse_status_code("99"), None);
    assert_eq!(parse_status_code("1000"), None);
    assert_eq!(parse_status_code("abc"), None);
    assert_eq!(parse_status_code(""), None);
}

#[test]
fn test_response_for_delivered() {
    let e = Event::new("x".to_string(), b"{\"ok\":true}".to_vec(), "201".to_string());
    let r = response_for(ProxyOutcome::Delivered(e));
    assert_eq!(r.status, 201);
    assert_eq!(r.body, b"{\"ok\":true}".to_vec());
    assert_eq!(r.content_type, JSON_API_TYPE);
}

#[test]
fn test_response_for_delivered_with_bad_code() {
    let e = Event::new("x".to_string(), b"body".to_vec(), "garbage".to_string());
    let r = response_for(ProxyOutcome::Delivered(e));
    assert_eq!(r.status, 500);
    assert_eq!(r.body, b"body".to_vec());
}

#[test]
fn test_response_for_timeout() {
    let r = response_for(ProxyOutcome::TimedOut);
    assert_eq!(r.status, 408);
    let body = String::from_utf8(r.body).unwrap();
    assert!(body.contains("\"code\":\"408\""));
    assert!(body.contains("\"title\":\"Request timeout\""));
}

#[test]
fn test_response_for_encode_and_publish_failures() {
    let r = response_for(ProxyOutcome::EncodeFailed);
    assert_eq!(r.status, 500);
    assert!(String::from_utf8(r.body).unwrap().contains("\"code\":\"500\""));

    let r = response_for(ProxyOutcome::PublishFailed);
    assert_eq!(r.status, 500);
    assert!(String::from_utf8(r.body).unwrap().contains("\"code\":\"500\""));
}

#[test]
fn test_proxy_protocol_happy_path() {
    let mut actions: Vec<Action> = Vec::new();
    let mut phase = Phase::Start;
    let e = Event::new("id".to_string(), b"p".to_vec(), "200".to_string());
    let events = vec![
        ProxyEvent::EncodeOk,
        ProxyEvent::SubscribeDone,
        ProxyEvent::PublishOk,
        ProxyEvent::Delivered(e),
        ProxyEvent::UnsubscribeDone,
    ];
    for ev in events {
        let (next, act) = proxy_step(phase, ev);
        phase = next;
        actions.push(act);
    }
    let publishes = actions.iter().filter(|a| matches!(a, Action::Publish)).count();
    let unsubscribes = actions
        .iter()
        .filter(|a| matches!(a, Action::Unsubscribe))
        .count();
    let respond_at = actions
        .iter()
        .position(|a| matches!(a, Action::Respond))
        .expect("protocol responds");
    let unsub_at = actions
        .iter()
        .position(|a| matches!(a, Action::Unsubscribe))
        .expect("protocol unsubscribes");
    assert_eq!(publishes, 1);
    assert_eq!(unsubscribes, 1);
    assert!(unsub_at < respond_at);
    let outcome = take_outcome(phase).expect("finished");
    assert!(matches!(outcome, ProxyOutcome::Delivered(_)));
}

#[test]
fn test_proxy_protocol_encode_failure_still_unsubscribes() {
    let (p1, a1) = proxy_step(Phase::Start, ProxyEvent::EncodeErr);
    assert!(matches!(a1, Action::Unsubscribe));
    let (p2, a2) = proxy_step(p1, ProxyEvent::UnsubscribeDone);
    assert!(matches!(a2, Action::Respond));
    let outcome = take_outcome(p2).expect("finished");
    assert!(matches!(outcome, ProxyOutcome::EncodeFailed));
}

#[test]
fn test_proxy_protocol_timeout_path() {
    let (p1, _) = proxy_step(Phase::Start, ProxyEvent::EncodeOk);
    let (p2, _) = proxy_step(p1, ProxyEvent::SubscribeDone);
    let (p3, _) = proxy_step(p2, ProxyEvent::PublishOk);
    let (p4, a4) = proxy_step(p3, ProxyEvent::TimedOut);
    assert!(matches!(a4, Action::Unsubscribe));
    let (p5, a5) = proxy_step(p4, ProxyEvent::UnsubscribeDone);
    assert!(matches!(a5, Action::Respond));
    let outcome = take_outcome(p5).expect("finished");
    assert!(matches!(outcome, ProxyOutcome::TimedOut));
    let r = response_for(outcome);
    assert_eq!(r.status, 408);
}

#[test]
fn test_proxy_protocol_ignores_out_of_place_events() {
    let (p, a) = proxy_step(Phase::Start, ProxyEvent::TimedOut);
    assert!(matches!(a, Action::Ignore));
    assert!(matches!(p, Phase::Start));
}
