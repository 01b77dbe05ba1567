use gateway::metrics::AppMetrics;
use gateway::responses::errors::{Error, Errors};
use gateway::responses::statuses::{Attributes, Statuses, StatusesData};
use gateway::routes::{health_route, route_table};
use gateway::types::HttpMethod;

#[test]
fn test_error_serialization() {
    let error = Error {
        code: "404".to_string(),
        title: "Not Found".to_string(),
        detail: "The requested resource was not found".to_string(),
    };

    let json = String::from_utf8(error.to_json()).expect("Should serialize error");
    assert!(json.contains("\"code\":\"404\""));
    assert!(json.contains("\"title\":\"Not Found\""));
    assert!(json.contains("\"detail\":\"The requested resource was not found\""));
}

#[test]
fn test_errors_serialization() {
    let errors = Errors {
        errors: vec![
            Error {
                code: "400".to_string(),
                title: "Bad Request".to_string(),
                detail: "Invalid request format".to_string(),
            },
            Error {
                code: "401".to_string(),
                title: "Unauthorized".to_string(),
                detail: "Authentication required".to_string(),
            },
        ],
    };

    let json = String::from_utf8(errors.to_json()).expect("Should serialize errors");
    assert!(json.contains("\"errors\""));
    assert!(json.contains("\"400\""));
    assert!(json.contains("\"401\""));
    assert!(json.contains("\"Bad Request\""));
    assert!(json.contains("\"Unauthorized\""));
}

#[test]
fn test_empty_errors_collection() {
    let errors = Errors { errors: vec![] };

    let json = String::from_utf8(errors.to_json()).expect("Should serialize empty errors");
    assert_eq!(json, "{\"errors\":[]}");
}

#[test]
fn test_error_with_empty_fields() {
    let error = Error {
        code: "".to_string(),
        title: "".to_string(),
        detail: "".to_string(),
    };

    let json = String::from_utf8(error.to_json()).expect("Should serialize error with empty fields");
    assert!(json.contains("\"code\":\"\""));
    assert!(json.contains("\"title\":\"\""));
    assert!(json.contains("\"detail\":\"\""));
}

#[test]
fn test_json_escaping() {
    let error = Error {
        code: "\"".to_string(),
        title: "back\\slash".to_string(),
        detail: "line\nbreak".to_string(),
    };
    let json = String::from_utf8(error.to_json()).expect("serialize");
    assert_eq!(
        json,
        "{\"code\":\"\\\"\",\"title\":\"back\\\\slash\",\"detail\":\"line\\u000abreak\"}"
    );
}

#[test]
fn test_statuses_serialization() {
    let statuses = Statuses {
        data: StatusesData {
            id: "1".to_string(),
            kind: "statuses".to_string(),
            attributes: Attributes {
                name: "success".to_string(),
            },
        },
    };

    let json = String::from_utf8(statuses.to_json()).expect("Should serialize statuses");
    assert!(json.contains("\"data\""));
    assert!(json.contains("\"id\":\"1\""));
    assert!(json.contains("\"type\":\"statuses\""));
    assert!(json.contains("\"attributes\""));
    assert!(json.contains("\"name\":\"success\""));
}

#[test]
fn test_statuses_data_serialization() {
    let statuses_data = StatusesData {
        id: "123".to_string(),
        kind: "health".to_string(),
        attributes: Attributes {
            name: "healthy".to_string(),
        },
    };

    let json = String::from_utf8(statuses_data.to_json()).expect("Should serialize statuses data");
    assert!(json.contains("\"id\":\"123\""));
    assert!(json.contains("\"type\":\"health\""));
    assert!(json.contains("\"attributes\""));
}

#[test]
fn test_attributes_serialization() {
    let attributes = Attributes {
        name: "operational".to_string(),
    };

    let json = String::from_utf8(attributes.to_json()).expect("Should serialize attributes");
    assert_eq!(json, "{\"name\":\"operational\"}");
}

#[test]
fn test_statuses_with_empty_strings() {
    let statuses = Statuses {
        data: StatusesData {
            id: "".to_string(),
            kind: "".to_string(),
            attributes: Attributes {
                name: "".to_string(),
            },
        },
    };

    let json =
        String::from_utf8(statuses.to_json()).expect("Should serialize statuses with empty strings");
    assert!(json.contains("\"id\":\"\""));
    assert!(json.contains("\"type\":\"\""));
    assert!(json.contains("\"name\":\"\""));
}

#[test]
fn test_metrics_counters() {
    let mut m = AppMetrics::new();
    m.record_http_request("GET", "/api/v1/plans", 200, 12);
    m.record_http_request("POST", "/api/v1/users", 500, 3);
    assert_eq!(m.http_requests_total, 2);
    assert_eq!(m.http_request_duration_ms, 15);

    m.record_nats_request("http", true, 5);
    m.record_nats_request("http", false, 7);
    assert_eq!(m.nats_requests_total, 2);
    assert_eq!(m.nats_request_duration_ms, 12);
    assert_eq!(m.nats_errors_total, 1);

    assert!(m.render().contains("http_requests_total"));
}

#[test]
fn test_route_table_shape() {
    let health = health_route();
    assert_eq!(health.template, "/api/v1/statuses");
    assert!(matches!(health.method, HttpMethod::Get));

    let table = route_table();
    assert_eq!(table.len(), 48);
    assert!(table.iter().all(|r| r.template.starts_with("/api/v1/")));
    assert!(table
        .iter()
        .any(|r| r.template == "/api/v1/portfolios/{pid}/securities/{sid}/transactions"));
    assert!(table
        .iter()
        .any(|r| matches!(r.method, HttpMethod::Delete)
            && r.template == "/api/v1/refresh-tokens/{refresh-token}"));
}
