use std::sync::Arc;
use test_harness::http::{
    dispatch_request, find_matching, not_found_response, recorder_action, HttpInteraction, HttpInteractionMatcher,
    HttpRequest, HttpResponse, MockDispatch, RecorderAction, RecordingMode,
};
use test_harness::json::{json_or_string_text_of, json_or_string_value, JsonValue};
use test_harness::kv::StrMap;
use test_harness::mock::{create_http_mock, create_mock_manager, create_mock_server, MockManager};
use test_harness::model::TestHarnessError;
use test_harness::network::{
    packet_loss_preset, preset_for, simulated_latency_ms, LatencyConfig as NetLatency, NetworkConditionType,
};
use test_harness::recorder::{
    HeaderFields, HeaderMatcher, Interaction, InteractionMatcher, InteractionRequest, MethodMatcher,
    PathAndMethodMatcher, PathMatcher,
};
use test_harness::response_behavior::{
    apply_transformations, create_custom_error_response, create_error_response, error_conditions_hold,
    response_latency_ms, ErrorCondition, ErrorConditionType, ErrorType, LatencyConfig, LatencyDistribution,
    ResponseTransformation, TransformationCondition, TransformationConditionType, TransformationConfig,
    TransformationType,
};
use test_harness::stub::{generate_stubs, StubGenerationConfig, StubMatcher};
use test_harness::wire_size::{calculate_request_size, calculate_response_size};

fn object(fields: &[(&str, &str)]) -> JsonValue {
    let mut m = StrMap::new();
    for (k, v) in fields {
        m.insert(k.to_string(), v.to_string());
    }
    JsonValue::Object(m)
}

fn field(v: &Option<JsonValue>, name: &str) -> Option<String> {
    match v {
        Some(JsonValue::Object(m)) => m.get(name).cloned(),
        _ => None,
    }
}

#[test]
fn test_response_transformation() {
    let transformations = vec![
        ResponseTransformation {
            name: "Add Header".to_string(),
            transformation_type: TransformationType::AddHeader,
            field: Some("X-Test".to_string()),
            value: Some("test-value".to_string()),
            conditions: Vec::new(),
        },
        ResponseTransformation {
            name: "Add Body Field".to_string(),
            transformation_type: TransformationType::AddBodyField,
            field: Some("added".to_string()),
            value: Some("true".to_string()),
            conditions: Vec::new(),
        },
    ];
    let config = TransformationConfig { enabled: true, transformations };
    let request = HttpRequest::new("GET".to_string(), "/api/test".to_string());
    let response = HttpResponse::new(200).with_body(object(&[("message", "\"success\"")]));
    let modified = apply_transformations(&config, &request, response);
    assert_eq!(modified.headers.get("X-Test").unwrap(), "test-value");
    assert_eq!(field(&modified.body, "added").unwrap(), "\"true\"");
    assert_eq!(field(&modified.body, "message").unwrap(), "\"success\"");
}

#[test]
fn test_error_simulation() {
    let modified = create_error_response(ErrorType::NotFound);
    assert_eq!(modified.status, 404);
    assert!(modified.body.is_some());
    assert_eq!(field(&modified.body, "error").unwrap(), "\"NotFound\"");
    assert_eq!(field(&modified.body, "message").unwrap(), "\"Not Found\"");
    assert_eq!(modified.headers.get("Content-Type").unwrap(), "application/json");
}

#[test]
fn test_latency_simulation() {
    let config = LatencyConfig {
        enabled: true,
        fixed_ms: Some(50),
        min_ms: 10,
        max_ms: 100,
        distribution: LatencyDistribution::Uniform,
    };
    assert_eq!(response_latency_ms(&config), Some(50));
}

#[test]
fn uniform_latency_stays_within_bounds() {
    let config = LatencyConfig { enabled: true, fixed_ms: None, min_ms: 10, max_ms: 20, distribution: LatencyDistribution::Uniform };
    for _ in 0..50 {
        let ms = response_latency_ms(&config).unwrap();
        assert!((10..=20).contains(&ms));
    }
    let normal = LatencyConfig { distribution: LatencyDistribution::Normal, ..config };
    assert_eq!(response_latency_ms(&normal), None);
}

#[test]
fn error_types_have_their_statuses() {
    let expected = [
        (ErrorType::ServerError, 500, "Internal Server Error"),
        (ErrorType::NotFound, 404, "Not Found"),
        (ErrorType::BadRequest, 400, "Bad Request"),
        (ErrorType::Unauthorized, 401, "Unauthorized"),
        (ErrorType::Forbidden, 403, "Forbidden"),
        (ErrorType::Timeout, 504, "Gateway Timeout"),
        (ErrorType::RateLimited, 429, "Too Many Requests"),
        (ErrorType::ServiceUnavailable, 503, "Service Unavailable"),
        (ErrorType::Custom, 500, "Error"),
    ];
    for (t, status, message) in expected {
        assert_eq!(t.status_code(), status);
        assert_eq!(t.default_message(), message);
    }
    assert_eq!(ErrorType::RateLimited.name(), "RateLimited");
}

#[test]
fn custom_error_response_carries_details() {
    let mut headers = StrMap::new();
    headers.insert("Retry-After".to_string(), "5".to_string());
    let details = object(&[("code", "42")]);
    let r = create_custom_error_response("Quota", 429, "slow down", Some(&details), Some("{\"code\":42}"), &headers);
    assert_eq!(r.status, 429);
    assert_eq!(r.headers.get("Retry-After").unwrap(), "5");
    assert_eq!(field(&r.body, "error").unwrap(), "\"Quota\"");
    assert_eq!(field(&r.body, "details").unwrap(), "{\"code\":42}");
}

#[test]
fn error_conditions_check_path_header_and_query() {
    let request = HttpRequest::new("POST".to_string(), "/pay".to_string())
        .with_header("X-Mode".to_string(), "fail".to_string())
        .with_query("user".to_string(), "7".to_string());
    let holds = vec![
        ErrorCondition { condition_type: ErrorConditionType::Path, value: "/pay".to_string() },
        ErrorCondition { condition_type: ErrorConditionType::Header, value: "X-Mode: fail".to_string() },
        ErrorCondition { condition_type: ErrorConditionType::Query, value: "user = 7".to_string() },
    ];
    assert!(error_conditions_hold(&holds, &request));
    let fails = vec![ErrorCondition { condition_type: ErrorConditionType::Method, value: "GET".to_string() }];
    assert!(!error_conditions_hold(&fails, &request));
}

#[test]
fn transformation_conditions_and_status_change() {
    let config = TransformationConfig {
        enabled: true,
        transformations: vec![ResponseTransformation {
            name: "teapot".to_string(),
            transformation_type: TransformationType::ChangeStatus,
            field: None,
            value: Some("418".to_string()),
            conditions: vec![TransformationCondition {
                condition_type: TransformationConditionType::Status,
                value: "200".to_string(),
            }],
        }],
    };
    let request = HttpRequest::new("GET".to_string(), "/".to_string());
    assert_eq!(apply_transformations(&config, &request, HttpResponse::new(200)).status, 418);
    assert_eq!(apply_transformations(&config, &request, HttpResponse::new(500)).status, 500);
    let off = TransformationConfig { enabled: false, ..config };
    assert_eq!(apply_transformations(&off, &request, HttpResponse::new(200)).status, 200);
}

#[test]
fn replace_body_reads_json_or_wraps_text() {
    assert_eq!(json_or_string_text_of("{\"a\": 1}"), "{\"a\":1}");
    assert_eq!(json_or_string_text_of("plain text"), "\"plain text\"");
    match json_or_string_value("{\"a\": [1, 2]}") {
        JsonValue::Object(m) => assert_eq!(m.get("a").unwrap(), "[1,2]"),
        other => panic!("expected an object, got {:?}", other),
    }
}

#[test]
fn test_network_condition_types() {
    let (latency, bandwidth) = preset_for(NetworkConditionType::Good).unwrap();
    assert!(latency.enabled);
    assert_eq!(packet_loss_preset(NetworkConditionType::Good), Some((true, 1)));
    assert!(bandwidth.enabled);
    let (latency, bandwidth) = preset_for(NetworkConditionType::Perfect).unwrap();
    assert!(!latency.enabled);
    assert_eq!(packet_loss_preset(NetworkConditionType::Perfect), Some((false, 1)));
    assert!(!bandwidth.enabled);
    assert!(preset_for(NetworkConditionType::Custom).is_none());
    assert_eq!(NetworkConditionType::VeryPoor.name(), "Very Poor");
}

#[test]
fn test_network_simulator() {
    let config = NetLatency { enabled: true, min_ms: 50, max_ms: 50, jitter_ms: 0 };
    assert_eq!(simulated_latency_ms(&config), 50);
    let varied = NetLatency { enabled: true, min_ms: 50, max_ms: 1000, jitter_ms: 10 };
    for _ in 0..20 {
        let ms = simulated_latency_ms(&varied);
        assert!((50..=1010).contains(&ms));
    }
}

fn recorded_interaction() -> Interaction {
    let mut text = StrMap::new();
    text.insert("Content-Type".to_string(), "application/json".to_string());
    text.insert("Authorization".to_string(), "Bearer token".to_string());
    Interaction::new(
        "test".to_string(),
        InteractionRequest {
            path: Some("/api/test".to_string()),
            method: Some("POST".to_string()),
            headers: Some(HeaderFields { text, other: Vec::new() }),
        },
    )
}

#[test]
fn test_interaction_matchers() {
    let interaction = recorded_interaction();
    assert!(PathMatcher::new("/api/test".to_string()).matches(&interaction));
    assert!(!PathMatcher::new("/api/wrong".to_string()).matches(&interaction));
    assert!(MethodMatcher::new("POST".to_string()).matches(&interaction));
    assert!(!MethodMatcher::new("GET".to_string()).matches(&interaction));
    assert!(PathAndMethodMatcher::new("/api/test".to_string(), "POST".to_string()).matches(&interaction));
    assert!(!PathAndMethodMatcher::new("/api/test".to_string(), "GET".to_string()).matches(&interaction));
    assert!(HeaderMatcher::with_value("Content-Type".to_string(), "application/json".to_string()).matches(&interaction));
    assert!(!HeaderMatcher::with_value("Content-Type".to_string(), "text/plain".to_string()).matches(&interaction));
    assert!(HeaderMatcher::new("Authorization".to_string()).matches(&interaction));
    assert!(!HeaderMatcher::new("authorization".to_string()).matches(&interaction));
}

#[test]
fn method_matcher_ignores_case() {
    assert!(MethodMatcher::new("post".to_string()).matches(&recorded_interaction()));
}

#[test]
fn request_to_interaction_keeps_path_method_headers() {
    let request = HttpRequest::new("GET".to_string(), "/x".to_string())
        .with_header("Accept".to_string(), "text/html".to_string());
    let interaction = request.to_interaction("http-1".to_string());
    assert_eq!(interaction.id, "http-1");
    assert!(PathAndMethodMatcher::new("/x".to_string(), "GET".to_string()).matches(&interaction));
    assert!(HeaderMatcher::with_value("Accept".to_string(), "text/html".to_string()).matches(&interaction));
}

#[test]
fn test_http_interaction_recorder() {
    let request = HttpRequest::new("GET".to_string(), "/api/test".to_string())
        .with_query("param".to_string(), "value".to_string())
        .with_header("Content-Type".to_string(), "application/json".to_string());
    let ok = HttpResponse::new(200).with_body(object(&[("message", "\"success\"")]));
    let failed = HttpResponse::new(500).with_body(object(&[("error", "\"error\"")]));
    let recorded = vec![
        HttpInteraction::new("1".to_string(), request.copy(), ok),
        HttpInteraction::new("2".to_string(), HttpRequest::new("POST".to_string(), "/api/test".to_string()), failed),
    ];
    let matcher = HttpInteractionMatcher::new();
    let found = find_matching(&matcher, &recorded, &request);
    assert_eq!(found, Some(0));
    assert_eq!(recorded[found.unwrap()].response.status, 200);
    assert_eq!(recorder_action(RecordingMode::Replay, found), RecorderAction::Replay(0));
    let unknown = HttpRequest::new("DELETE".to_string(), "/api/test".to_string());
    let missing = find_matching(&matcher, &recorded, &unknown);
    assert_eq!(missing, None);
    assert_eq!(recorder_action(RecordingMode::Replay, missing), RecorderAction::NotFound);
    assert_eq!(recorder_action(RecordingMode::Auto, missing), RecorderAction::CallService { record: true });
    assert_eq!(recorder_action(RecordingMode::Passthrough, found), RecorderAction::CallService { record: false });
    assert_eq!(RecordingMode::Auto.name(), "Auto");
}

#[test]
fn query_matching_requires_recorded_parameters() {
    let recorded = vec![HttpInteraction::new(
        "1".to_string(),
        HttpRequest::new("GET".to_string(), "/q".to_string()).with_query("a".to_string(), "1".to_string()),
        HttpResponse::new(200),
    )];
    let matcher = HttpInteractionMatcher::new().with_query_matching(true);
    let same = HttpRequest::new("GET".to_string(), "/q".to_string()).with_query("a".to_string(), "1".to_string());
    let other = HttpRequest::new("GET".to_string(), "/q".to_string()).with_query("a".to_string(), "2".to_string());
    assert_eq!(find_matching(&matcher, &recorded, &same), Some(0));
    assert_eq!(find_matching(&matcher, &recorded, &other), None);
}

#[test]
fn mock_dispatch_prefers_behaviors_then_stubs() {
    assert_eq!(dispatch_request(&vec![false, true, true], &vec![true]), MockDispatch::Behavior(1));
    assert_eq!(dispatch_request(&vec![false], &vec![false, true]), MockDispatch::Stub(1));
    assert_eq!(dispatch_request(&vec![], &vec![]), MockDispatch::NotFound);
    let r = not_found_response("No matching behavior or stub found");
    assert_eq!(r.status, 404);
    assert_eq!(field(&r.body, "error").unwrap(), "\"Not found\"");
    assert_eq!(field(&r.body, "message").unwrap(), "\"No matching behavior or stub found\"");
}

#[test]
fn test_stub_generation() {
    let request = HttpRequest::new("GET".to_string(), "/api/test".to_string())
        .with_header("Content-Type".to_string(), "application/json".to_string());
    let response = HttpResponse::new(200)
        .with_header("Content-Type".to_string(), "application/json".to_string())
        .with_body(object(&[("message", "\"success\"")]));
    let recorded = vec![HttpInteraction::new("test".to_string(), request, response)];
    let stubs = generate_stubs(&recorded, &StubGenerationConfig::default());
    assert_eq!(stubs.len(), 1);
    assert_eq!(stubs[0].response.status, 200);
}

#[test]
fn stub_matcher_leaves_out_excluded_headers() {
    let recorded = HttpRequest::new("GET".to_string(), "/s".to_string())
        .with_header("authorization".to_string(), "secret".to_string())
        .with_header("accept".to_string(), "json".to_string());
    let m = StubMatcher::for_request(&recorded, &StubGenerationConfig::default());
    assert!(m.headers.get("authorization").is_none());
    let later = HttpRequest::new("GET".to_string(), "/s".to_string())
        .with_header("accept".to_string(), "json".to_string())
        .with_header("authorization".to_string(), "other".to_string());
    assert!(m.matches(&later));
    let without_accept = HttpRequest::new("GET".to_string(), "/s".to_string());
    assert!(!m.matches(&without_accept));
}

#[test]
fn test_mock_manager() {
    let mut manager: MockManager<String> = MockManager::new();
    manager.register_mock("http-mock".to_string(), "HTTP mock".to_string()).unwrap();
    assert_eq!(manager.get_mock("http-mock").unwrap(), "HTTP mock");
    manager.unregister_mock("http-mock").unwrap();
    assert!(manager.get_mock("http-mock").is_err());
}

#[test]
fn mock_manager_errors_name_the_mock() {
    let mut manager: MockManager<u32> = create_mock_manager();
    manager.register_mock("m".to_string(), 1).unwrap();
    match manager.register_mock("m".to_string(), 2) {
        Err(TestHarnessError::MockError(msg)) => assert_eq!(msg, "Mock with name 'm' is already registered"),
        other => panic!("unexpected {:?}", other),
    }
    assert_eq!(*manager.get_mock("m").unwrap(), 1);
    match manager.unregister_mock("x") {
        Err(TestHarnessError::MockError(msg)) => assert_eq!(msg, "Mock with name 'x' is not registered"),
        other => panic!("unexpected {:?}", other),
    }
    match manager.get_mock("x") {
        Err(TestHarnessError::MockError(msg)) => assert_eq!(msg, "Mock with name 'x' not found"),
        other => panic!("unexpected {:?}", other),
    }
    assert_eq!(manager.len(), 1);
}

#[test]
fn mock_server_start_stop_and_url() {
    let manager: Arc<MockManager<u8>> = Arc::new(MockManager::new());
    let mut server = create_mock_server("127.0.0.1".to_string(), 8080, manager);
    assert_eq!(server.url(), "http://127.0.0.1:8080");
    server.start().unwrap();
    match server.start() {
        Err(TestHarnessError::MockError(m)) => assert_eq!(m, "Mock server is already running"),
        other => panic!("unexpected {:?}", other),
    }
    server.stop();
    assert!(server.start().is_ok());
    assert_eq!(server.port(), 8080);
    let b = create_http_mock("api".to_string()).with_description("the api".to_string());
    assert_eq!(b.name, "api");
}

#[test]
fn wire_sizes_count_bytes() {
    let request = HttpRequest::new("GET".to_string(), "/ab".to_string())
        .with_header("k".to_string(), "vv".to_string())
        .with_query("q".to_string(), "1".to_string())
        .with_body(object(&[("a", "1"), ("bb", "\"x\"")]));
    // 3 + 3, header 1+2+2, query 1+1+2, body {"a":1,"bb":"x"} = 16
    assert_eq!(calculate_request_size(&request), 6 + 5 + 4 + 16);
    let response = HttpResponse::new(200).with_body(JsonValue::Other("\"é\"".to_string()));
    assert_eq!(calculate_response_size(&response), 3 + 4);
}

#[test]
fn each_created_http_mock_builds() {
    let (first, manager) = create_http_mock("x".to_string()).with_server("localhost".to_string(), 9000).build().unwrap();
    assert_eq!(first.name, "x");
    assert_eq!(first.description.as_deref(), Some(""));
    assert_eq!(first.url().as_deref(), Some("http://localhost:9000"));
    assert_eq!(manager.len(), 1);
    let (second, _) = create_http_mock("x".to_string()).with_description("again".to_string()).build().unwrap();
    assert_eq!(second.description.as_deref(), Some("again"));
    assert!(second.url().is_none());
    let shared = test_harness::mock::HttpMockBuilder::new("x".to_string(), manager);
    match shared.build() {
        Err(TestHarnessError::MockError(m)) => assert_eq!(m, "Mock with name 'x' is already registered"),
        _ => panic!("expected an error"),
    }
}
