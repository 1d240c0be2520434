use test_harness::behavior::ResponseBuilder;
use test_harness::http::{HttpInteraction, HttpRequest, HttpResponse};
use test_harness::http_stub::{HttpStub, RequestMatch};
use test_harness::json::JsonValue;
use test_harness::kv::StrMap;
use test_harness::mock_recorder::{MockRecorder, RecordedInteraction};
use test_harness::model::TestHarnessError;
use test_harness::recorder::{
    CompositeMatcher, Interaction, InteractionMatcher, InteractionRequest, MethodMatcher, PathMatcher,
};

fn interaction(id: &str, path: &str, method: &str) -> Interaction {
    Interaction::new(
        id.to_string(),
        InteractionRequest { path: Some(path.to_string()), method: Some(method.to_string()), headers: None },
    )
}

#[test]
fn test_mock_recorder() {
    let mut recorder: MockRecorder<PathMatcher> = MockRecorder::new();

    recorder.record(interaction("interaction1", "/api/test", "GET"));
    recorder.record_with_behavior(interaction("interaction2", "/api/test", "POST"), "test-behavior".to_string());

    assert_eq!(recorder.count(), 2);

    let behavior_interactions = recorder.get_interactions_by_behavior("test-behavior");
    assert_eq!(behavior_interactions.len(), 1);
    assert_eq!(behavior_interactions[0].interaction.id, "interaction2");

    let path_interactions = recorder.get_interactions_by_matcher(&PathMatcher::new("/api/test".to_string()));
    assert_eq!(path_interactions.len(), 2);

    let method_interactions = recorder.get_interactions_by_matcher(&MethodMatcher::new("POST".to_string()));
    assert_eq!(method_interactions.len(), 1);
    assert_eq!(method_interactions[0].interaction.id, "interaction2");

    recorder.clear();
    assert_eq!(recorder.count(), 0);
}

#[test]
fn recorder_verifies_expectations() {
    let mut recorder: MockRecorder<PathMatcher> = MockRecorder::new();
    recorder.record(interaction("a", "/x", "GET"));
    recorder.record(interaction("b", "/x", "POST"));
    recorder.record(interaction("c", "/y", "GET"));
    recorder.expect(PathMatcher::new("/x".to_string()), 2);
    assert!(recorder.verify().is_ok());
    recorder.expect(PathMatcher::new("/y".to_string()), 3);
    recorder.expect(PathMatcher::new("/z".to_string()), 1);
    match recorder.verify() {
        Err(TestHarnessError::MockError(m)) => assert_eq!(
            m,
            "Verification failed: Expected 3 interactions, but got 1, Expected 1 interactions, but got 0"
        ),
        _ => panic!("expected a verification failure"),
    }
    recorder.clear_expectations();
    assert!(recorder.verify().is_ok());
}

#[test]
fn recorder_marks_interactions_verified() {
    let mut recorder: MockRecorder<PathMatcher> = MockRecorder::new();
    let r = recorder.record(interaction("a", "/x", "GET"));
    assert!(!r.is_verified());
    recorder.record(interaction("b", "/x", "GET"));
    assert_eq!(recorder.verified_count(), 0);
    assert_eq!(recorder.unverified_count(), 2);
    recorder.mark_all_verified();
    assert_eq!(recorder.verified_count(), 2);
    assert_eq!(recorder.unverified_count(), 0);
    let all = recorder.get_interactions();
    assert_eq!(all.len(), 2);
    assert!(all[0].verified && all[1].verified);
    assert_eq!(all[1].interaction.id, "b");
}

#[test]
fn recorded_interaction_fields() {
    let mut r = RecordedInteraction::new(interaction("a", "/x", "GET")).with_behavior("b1".to_string());
    assert_eq!(r.behavior.as_deref(), Some("b1"));
    assert!(!r.is_verified());
    r.verify();
    assert!(r.is_verified());
}

#[test]
fn composite_matchers() {
    let i = interaction("a", "/x", "GET");
    let all = CompositeMatcher::all(vec![PathMatcher::new("/x".to_string()), PathMatcher::new("/y".to_string())]);
    assert!(!all.matches(&i));
    let mut any = CompositeMatcher::any(vec![PathMatcher::new("/y".to_string())]);
    assert!(!any.matches(&i));
    any.add_matcher(PathMatcher::new("/x".to_string()));
    assert!(any.matches(&i));
    let empty_all: CompositeMatcher<PathMatcher> = CompositeMatcher::all(Vec::new());
    assert!(empty_all.matches(&i));
    let empty_any: CompositeMatcher<PathMatcher> = CompositeMatcher::any(Vec::new());
    assert!(!empty_any.matches(&i));
}

fn ok_response(_: &HttpRequest) -> HttpResponse {
    HttpResponse::new(200)
}

#[test]
fn http_stubs_match_requests() {
    type Stub = HttpStub<fn(&HttpRequest) -> bool, fn(&HttpRequest) -> HttpResponse>;
    let get = HttpRequest::new("GET".to_string(), "/api/stub".to_string());
    let post = HttpRequest::new("post".to_string(), "/api/stub".to_string());
    let by_path = Stub::for_path("/api/stub".to_string(), ok_response);
    assert!(by_path.matches(&get));
    assert!(!by_path.matches(&HttpRequest::new("GET".to_string(), "/api/other".to_string())));
    let by_both = Stub::for_path_and_method("/api/stub".to_string(), "POST".to_string(), ok_response);
    assert!(by_both.matches(&post));
    assert!(!by_both.matches(&get));
    let custom = Stub::new(|r: &HttpRequest| r.method == "GET", ok_response);
    assert!(matches!(custom.request_matcher, RequestMatch::Custom(_)));
    assert!(custom.matches(&get));
    assert!(!custom.matches(&post));
    assert_eq!(custom.generate_response(&get).status, 200);
}

#[test]
fn http_response_and_mock_response() {
    let mut fields = StrMap::new();
    fields.insert("k".to_string(), "1".to_string());
    let h = HttpResponse::new(201).with_header("X".to_string(), "y".to_string()).with_body(JsonValue::Object(fields));
    let r = h.to_response();
    assert_eq!(r.status, 201);
    assert_eq!(r.header("X"), Some("y"));
    assert!(r.error.is_none() && r.delay.is_none());
    let back = HttpResponse::from_response(&r);
    assert_eq!(back.status, 201);
    assert!(matches!(back.body, Some(JsonValue::Object(ref m)) if m.get("k").map(|s| s.as_str()) == Some("1")));
    let e = HttpResponse::from_response(&ResponseBuilder::not_found("gone".to_string()));
    assert_eq!(e.status, 404);
    assert!(e.body.is_none());
}

#[test]
fn http_interaction_as_recorded() {
    let req = HttpRequest::new("GET".to_string(), "/api/test".to_string())
        .with_header("Accept".to_string(), "text/html".to_string());
    let i = HttpInteraction::new("i-1".to_string(), req, HttpResponse::new(200));
    let r = i.to_recorded_interaction();
    assert_eq!(r.interaction.id, "i-1");
    assert_eq!(r.interaction.request.path.as_deref(), Some("/api/test"));
    assert_eq!(r.interaction.request.method.as_deref(), Some("GET"));
    let h = r.interaction.request.headers.as_ref().unwrap();
    assert_eq!(h.text.get("Accept").map(|s| s.as_str()), Some("text/html"));
    assert!(h.other.is_empty());
    assert!(r.behavior.is_none());
    assert!(!r.verified);
}
