use test_harness::environment::ParamValue;
use test_harness::model::TestHarnessError;
use test_harness::report_templates::{HandlebarsTemplate, HandlebarsTemplateEngine, TemplateContext};

#[test]
fn template_renders_variables() {
    let t = HandlebarsTemplate::new("greeting".to_string(), "Hello {{name}}, {{count}} tests".to_string()).unwrap();
    assert_eq!(t.name(), "greeting");
    let mut c = TemplateContext::new();
    c.set("name", ParamValue::Text("World".to_string())).unwrap();
    c.set("count", ParamValue::Other("3".to_string())).unwrap();
    assert_eq!(c.get("name").map(|s| s.as_str()), Some("\"World\""));
    assert_eq!(t.render(&c).unwrap(), "Hello World, 3 tests");
    assert_eq!(c.remove("count").as_deref(), Some("3"));
    assert!(c.get("count").is_none());
    c.clear();
    assert!(c.get("name").is_none());
}

#[test]
fn template_that_does_not_parse() {
    match HandlebarsTemplate::new("bad".to_string(), "{{#if x}}never closed".to_string()) {
        Err(TestHarnessError::ReportingError(m)) => assert!(m.starts_with("Failed to register template: ")),
        _ => panic!("expected a registration error"),
    }
}

#[test]
fn engine_keeps_templates_by_name() {
    let mut e = HandlebarsTemplateEngine::new();
    let t = HandlebarsTemplate::new("t".to_string(), "x={{x}}".to_string()).unwrap();
    assert!(e.register_template(t).is_ok());
    assert!(e.has_template("t"));
    assert_eq!(e.get_template("t").map(|t| t.name()), Some("t"));
    let again = HandlebarsTemplate::new("t".to_string(), "other".to_string()).unwrap();
    match e.register_template(again) {
        Err(TestHarnessError::ReportingError(m)) => assert_eq!(m, "Template already exists: t"),
        _ => panic!("expected an error"),
    }
    let mut c = TemplateContext::new();
    c.set("x", ParamValue::Bool(true)).unwrap();
    assert_eq!(e.render("t", &c).unwrap(), "x=true");
    match e.render("u", &c) {
        Err(TestHarnessError::ReportingError(m)) => assert_eq!(m, "Template not found: u"),
        _ => panic!("expected an error"),
    }
    assert!(e.remove_template("t").is_ok());
    assert!(!e.has_template("t"));
    match e.remove_template("t") {
        Err(TestHarnessError::ReportingError(m)) => assert_eq!(m, "Template not found: t"),
        _ => panic!("expected an error"),
    }
}

#[test]
fn variable_that_is_not_json_fails_to_render() {
    let t = HandlebarsTemplate::new("v".to_string(), "{{x}}".to_string()).unwrap();
    let mut c = TemplateContext::new();
    c.set("x", ParamValue::Other("not json".to_string())).unwrap();
    match t.render(&c) {
        Err(TestHarnessError::ReportingError(m)) => assert!(m.starts_with("Failed to render template: "), "{}", m),
        other => panic!("unexpected {:?}", other),
    }
    c.set("x", ParamValue::Other("[1,2]".to_string())).unwrap();
    assert_eq!(t.render(&c).unwrap(), "[1, 2, ]");
}
