use test_harness::http::{HttpInteraction, HttpInteractionMatcher, HttpRequest, HttpResponse, RecorderAction, RecordingMode};
use test_harness::interaction_recorder::HttpInteractionRecorder;

fn get(path: &str) -> HttpRequest {
    HttpRequest::new("GET".to_string(), path.to_string())
}

#[test]
fn recorder_replays_what_it_recorded() {
    let mut r = HttpInteractionRecorder::new("rec".to_string(), RecordingMode::Auto, HttpInteractionMatcher::new());
    assert_eq!(r.name(), "rec");
    assert_eq!(r.mode(), RecordingMode::Auto);
    assert_eq!(r.handle_request(&get("/a")), RecorderAction::CallService { record: true });
    r.record_service_response(get("/a"), HttpResponse::new(201), 7);
    assert_eq!(r.get_interactions().len(), 1);
    let rec = &r.get_interactions()[0];
    assert_eq!(rec.latency_ms, 7);
    assert_eq!(rec.response.status, 201);
    assert_eq!(rec.id.len(), 36);
    assert_eq!(r.handle_request(&get("/a")), RecorderAction::Replay(0));
    assert_eq!(r.find_matching(&get("/a")).map(|x| x.response.status), Some(201));
    assert!(r.find_matching(&get("/b")).is_none());
}

#[test]
fn recorder_modes_decide_the_action() {
    let mut r = HttpInteractionRecorder::new("rec".to_string(), RecordingMode::Replay, HttpInteractionMatcher::new());
    assert_eq!(r.handle_request(&get("/a")), RecorderAction::NotFound);
    r.record(HttpInteraction::new("one".to_string(), get("/a"), HttpResponse::new(200)));
    r.record(HttpInteraction::new("two".to_string(), get("/a"), HttpResponse::new(500)));
    assert_eq!(r.handle_request(&get("/a")), RecorderAction::Replay(0));
    assert_eq!(r.find_matching(&get("/a")).map(|x| x.id.as_str()), Some("one"));
    r.set_mode(RecordingMode::Record);
    assert_eq!(r.handle_request(&get("/a")), RecorderAction::CallService { record: true });
    r.set_mode(RecordingMode::Passthrough);
    assert_eq!(r.handle_request(&get("/a")), RecorderAction::CallService { record: false });
    assert_eq!(r.get_interactions().len(), 2);
    r.clear();
    assert!(r.get_interactions().is_empty());
    r.set_mode(RecordingMode::Replay);
    assert_eq!(r.handle_request(&get("/a")), RecorderAction::NotFound);
}
