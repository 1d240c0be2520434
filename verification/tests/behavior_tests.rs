use test_harness::behavior::{BehaviorBuilder, Response, ResponseBuilder};
use test_harness::json::JsonValue;
use test_harness::kv::StrMap;
use test_harness::model::TestHarnessError;
use test_harness::recorder::{Interaction, InteractionRequest};

fn message(text: &str) -> JsonValue {
    let mut m = StrMap::new();
    m.insert("message".to_string(), format!("\"{}\"", text));
    JsonValue::Object(m)
}

fn request(path: &str, method: &str) -> Interaction {
    Interaction::new(
        "test-interaction".to_string(),
        InteractionRequest { path: Some(path.to_string()), method: Some(method.to_string()), headers: None },
    )
}

#[test]
fn test_response_builder() {
    let response = ResponseBuilder::new().with_data(message("success")).unwrap().with_status(200).build();

    assert!(response.is_success());
    assert_eq!(response.status, 200);
    assert!(response.data.unwrap().equals(&message("success")));

    let response = ResponseBuilder::error(404, "Not found".to_string());

    assert!(response.is_error());
    assert_eq!(response.status, 404);
    assert_eq!(response.error.unwrap(), "Not found");
}

#[test]
fn response_defaults_and_headers() {
    let r = Response::new();
    assert_eq!(r.status, 200);
    assert!(r.is_success());
    assert!(r.data.is_none());
    let r = ResponseBuilder::new()
        .with_header("X-A".to_string(), "1".to_string())
        .with_headers(vec![("X-B".to_string(), "2".to_string()), ("X-A".to_string(), "3".to_string())])
        .build();
    assert_eq!(r.status, 200);
    assert_eq!(r.header("X-A"), Some("3"));
    assert_eq!(r.header("X-B"), Some("2"));
    assert_eq!(r.header("X-C"), None);
}

#[test]
fn response_into_result() {
    let ok = ResponseBuilder::success(message("done")).unwrap();
    assert_eq!(ok.status, 200);
    assert!(ok.into_result().is_ok());
    match ResponseBuilder::new().with_status(502).build().into_result() {
        Err(TestHarnessError::MockError(m)) => assert_eq!(m, "HTTP error: 502"),
        _ => panic!("expected an error"),
    }
    match ResponseBuilder::forbidden("no".to_string()).into_result() {
        Err(TestHarnessError::MockError(m)) => assert_eq!(m, "no"),
        _ => panic!("expected an error"),
    }
    match ResponseBuilder::new().with_error("broken".to_string()).build().into_result() {
        Err(TestHarnessError::MockError(m)) => assert_eq!(m, "broken"),
        _ => panic!("expected an error"),
    }
}

#[test]
fn response_data_and_shortcuts() {
    match Response::new().data() {
        Err(TestHarnessError::MockError(m)) => assert_eq!(m, "No data in response"),
        _ => panic!("expected an error"),
    }
    let r = ResponseBuilder::success(message("x")).unwrap();
    assert!(r.data().unwrap().equals(&message("x")));
    assert_eq!(ResponseBuilder::not_found("a".to_string()).status, 404);
    assert_eq!(ResponseBuilder::bad_request("a".to_string()).status, 400);
    assert_eq!(ResponseBuilder::unauthorized("a".to_string()).status, 401);
    assert_eq!(ResponseBuilder::forbidden("a".to_string()).status, 403);
    assert_eq!(ResponseBuilder::internal_server_error("a".to_string()).status, 500);
    assert_eq!(ResponseBuilder::service_unavailable("a".to_string()).status, 503);
    let t = ResponseBuilder::timeout("slow".to_string());
    assert_eq!(t.status, 408);
    assert_eq!(t.delay, Some(30_000));
    assert_eq!(t.error.as_deref(), Some("slow"));
}

#[test]
fn mock_behavior_counts_answers() {
    let mut behavior = BehaviorBuilder::new("test-behavior".to_string())
        .with_description("Test behavior".to_string())
        .with_matcher(|i: &Interaction| i.request.path.as_deref() == Some("/api/test"))
        .with_responder(|_: &Interaction| {
            ResponseBuilder::new().with_data(message("success")).unwrap().with_status(200).build()
        })
        .build()
        .unwrap();
    assert_eq!(behavior.name(), "test-behavior");
    assert_eq!(behavior.description(), Some("Test behavior"));
    let interaction = request("/api/test", "GET");
    assert!(behavior.matches(&interaction));
    assert!(!behavior.matches(&request("/api/other", "GET")));
    let response = behavior.respond(&interaction);
    assert!(response.is_success());
    assert_eq!(response.status, 200);
    assert!(response.data.unwrap().equals(&message("success")));
    assert_eq!(behavior.invocation_count(), 1);
    behavior.reset();
    assert_eq!(behavior.invocation_count(), 0);
}

#[test]
fn behavior_needs_matcher_and_responder() {
    let b = BehaviorBuilder::<fn(&Interaction) -> bool, fn(&Interaction) -> Response>::new("b".to_string());
    match b.build() {
        Err(TestHarnessError::MockError(m)) => assert_eq!(m, "Matcher function is required"),
        _ => panic!("expected an error"),
    }
    let b = BehaviorBuilder::<fn(&Interaction) -> bool, fn(&Interaction) -> Response>::new("b".to_string())
        .with_matcher(|_| true);
    match b.build() {
        Err(TestHarnessError::MockError(m)) => assert_eq!(m, "Responder function is required"),
        _ => panic!("expected an error"),
    }
}
