use test_harness::behavior::{BehaviorBuilder, MockBehavior, Response, ResponseBuilder};
use test_harness::http::{HttpRequest, HttpResponse};
use test_harness::http_stub::HttpStub;
use test_harness::json::JsonValue;
use test_harness::mock_handling::handle_request;
use test_harness::mock_recorder::MockRecorder;
use test_harness::recorder::{Interaction, PathMatcher};

type Matcher = fn(&Interaction) -> bool;
type Responder = fn(&Interaction) -> Response;
type Stub = HttpStub<fn(&HttpRequest) -> bool, fn(&HttpRequest) -> HttpResponse>;

fn is_api_test(i: &Interaction) -> bool {
    i.request.path.as_deref() == Some("/api/test")
}

fn success(_: &Interaction) -> Response {
    ResponseBuilder::new().with_status(200).with_header("X-From".to_string(), "behavior".to_string()).build()
}

fn stub_response(_: &HttpRequest) -> HttpResponse {
    HttpResponse::new(201)
}

fn setup() -> (Vec<MockBehavior<Matcher, Responder>>, Vec<Stub>, MockRecorder<PathMatcher>) {
    let behavior = BehaviorBuilder::<Matcher, Responder>::new("test-behavior".to_string())
        .with_matcher(is_api_test)
        .with_responder(success)
        .build()
        .unwrap();
    let stub = Stub::for_path_and_method("/api/stub".to_string(), "GET".to_string(), stub_response);
    (vec![behavior], vec![stub], MockRecorder::new())
}

#[test]
fn test_http_mock() {
    let (mut behaviors, stubs, mut recorder) = setup();

    let r = handle_request(
        &mut behaviors,
        &stubs,
        &mut recorder,
        &HttpRequest::new("GET".to_string(), "/api/test".to_string()),
        "http-1".to_string(),
    );
    assert_eq!(r.status, 200);
    assert_eq!(r.headers.get("X-From").map(|s| s.as_str()), Some("behavior"));
    assert_eq!(behaviors[0].invocation_count(), 1);

    let r = handle_request(
        &mut behaviors,
        &stubs,
        &mut recorder,
        &HttpRequest::new("get".to_string(), "/api/stub".to_string()),
        "http-2".to_string(),
    );
    assert_eq!(r.status, 201);

    let r = handle_request(
        &mut behaviors,
        &stubs,
        &mut recorder,
        &HttpRequest::new("GET".to_string(), "/api/unknown".to_string()),
        "http-3".to_string(),
    );
    assert_eq!(r.status, 404);
    match r.body {
        Some(JsonValue::Object(m)) => {
            assert_eq!(m.get("error").map(|s| s.as_str()), Some("\"Not found\""));
            assert_eq!(m.get("message").map(|s| s.as_str()), Some("\"No matching behavior or stub found\""));
        }
        _ => panic!("expected an object body"),
    }

    assert_eq!(behaviors[0].invocation_count(), 1);
    assert_eq!(recorder.count(), 3);
    let by_behavior = recorder.get_interactions_by_behavior("test-behavior");
    assert_eq!(by_behavior.len(), 1);
    assert_eq!(by_behavior[0].interaction.id, "http-1");
    let all = recorder.get_interactions();
    assert!(all[1].behavior.is_none() && all[2].behavior.is_none());
    assert_eq!(all[2].interaction.request.path.as_deref(), Some("/api/unknown"));
}
