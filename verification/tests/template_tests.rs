use test_harness::environment::{EnvironmentConfig, ParamValue, TemplateParameter, TemplateParameterType};
use test_harness::environment_template::{create_template_from_config, EnvironmentTemplateBuilder};
use test_harness::model::TestHarnessError;
use test_harness::provisioning::{teardown_steps, ProvisionAction, TeardownStep, TemplateProvisioning};
use test_harness::templates::generate_cache_key;

fn param(name: &str, required: bool, default: Option<&str>) -> TemplateParameter {
    TemplateParameter {
        name: name.to_string(),
        description: None,
        param_type: TemplateParameterType::String,
        default_value: default.map(|d| ParamValue::Text(d.to_string())),
        required,
        validation: None,
    }
}

#[test]
fn template_builder_defaults() {
    let t = EnvironmentTemplateBuilder::new("web".to_string()).build();
    assert_eq!(t.name, "web");
    assert_eq!(t.id.len(), 36);
    assert_eq!(t.version, "1.0.0");
    assert!(t.description.is_none());
    assert!(t.parameters.is_empty());
    assert!(t.tags.is_empty());
    assert_eq!(t.variables.len(), 0);
    assert_eq!(t.metadata.len(), 0);
    assert_eq!(t.created_at, t.updated_at);
    assert!(t.created_at > 0);
    assert_eq!(t.base_config.name, "test-environment");
}

#[test]
fn template_builder_sets_fields() {
    let t = EnvironmentTemplateBuilder::new("web".to_string())
        .with_id("tpl-1".to_string())
        .with_description("a web stack".to_string())
        .with_variable("REGION".to_string(), "eu".to_string())
        .with_pre_provision_hook("echo pre".to_string())
        .with_post_provision_hook("echo post".to_string())
        .with_pre_teardown_hook("echo down".to_string())
        .with_post_teardown_hook("echo gone".to_string())
        .with_health_check_hook("true".to_string())
        .with_self_healing_hook("echo heal".to_string())
        .with_tag("fast".to_string())
        .with_tag("web".to_string())
        .with_version("2.1.0".to_string())
        .with_metadata("owner".to_string(), ParamValue::Text("qa".to_string()))
        .unwrap()
        .with_metadata("stable".to_string(), ParamValue::Bool(true))
        .unwrap()
        .build_at(1_000);
    assert_eq!(t.id, "tpl-1");
    assert_eq!(t.description.as_deref(), Some("a web stack"));
    assert_eq!(t.variables.get("REGION").map(|s| s.as_str()), Some("eu"));
    assert_eq!(t.hooks.pre_provision.as_deref(), Some("echo pre"));
    assert_eq!(t.hooks.post_provision.as_deref(), Some("echo post"));
    assert_eq!(t.hooks.pre_teardown.as_deref(), Some("echo down"));
    assert_eq!(t.hooks.post_teardown.as_deref(), Some("echo gone"));
    assert_eq!(t.hooks.health_check.as_deref(), Some("true"));
    assert_eq!(t.hooks.self_healing.as_deref(), Some("echo heal"));
    assert_eq!(t.tags, vec!["fast".to_string(), "web".to_string()]);
    assert_eq!(t.version, "2.1.0");
    assert_eq!(t.metadata.get("owner").map(|s| s.as_str()), Some("\"qa\""));
    assert_eq!(t.metadata.get("stable").map(|s| s.as_str()), Some("true"));
    assert_eq!(t.created_at, 1_000);
    assert_eq!(t.updated_at, 1_000);
}

#[test]
fn template_parameter_of_same_name_is_replaced() {
    let t = EnvironmentTemplateBuilder::new("web".to_string())
        .with_parameter(param("name", false, None))
        .with_parameter(param("env.MODE", false, None))
        .with_parameter(param("name", true, Some("x")))
        .build_at(5);
    assert_eq!(t.parameters.len(), 2);
    assert_eq!(t.parameters[0].name, "name");
    assert!(t.parameters[0].required);
    assert_eq!(t.parameters[1].name, "env.MODE");
}

#[test]
fn template_from_config() {
    let mut config = EnvironmentConfig::default();
    config.name = "base".to_string();
    let t = create_template_from_config(config, "from-config".to_string(), Some("copied".to_string()));
    assert_eq!(t.name, "from-config");
    assert_eq!(t.description.as_deref(), Some("copied"));
    assert_eq!(t.base_config.name, "base");
    assert_eq!(t.id.len(), 36);
    assert_eq!(t.version, "1.0.0");
    assert!(t.hooks.pre_provision.is_none());
    assert!(t.parameters.is_empty());
    assert_eq!(t.created_at, t.updated_at);
}

#[test]
fn provisioning_reuses_a_valid_cached_environment() {
    let provided = vec![("name".to_string(), ParamValue::Text("a".to_string()))];
    let (mut p, a) = TemplateProvisioning::start("tpl".to_string(), &provided);
    let key = generate_cache_key("tpl", &provided);
    assert_eq!(key, "tpl:name=\"a\"");
    assert!(matches!(a, ProvisionAction::LookUpCache(ref k) if *k == key));
    let a = p.after_cache_lookup(Some(Some(2_000)), 1_000);
    assert!(matches!(a, ProvisionAction::ReuseCached { ref key, used_at: 1_000 } if key == "tpl:name=\"a\""));
}

#[test]
fn provisioning_without_the_template_fails() {
    let provided: Vec<(String, ParamValue)> = Vec::new();
    let (mut p, _) = TemplateProvisioning::start("missing".to_string(), &provided);
    let a = p.after_cache_lookup(None, 10);
    assert!(matches!(a, ProvisionAction::LookUpTemplate(ref t) if t == "missing"));
    let a = p.after_template_lookup(None, &provided, &Vec::new());
    assert!(matches!(
        a,
        ProvisionAction::Fail(TestHarnessError::ConfigurationError(ref m)) if m == "Template missing not found"
    ));
}

#[test]
fn provisioning_checks_parameters() {
    let provided: Vec<(String, ParamValue)> = Vec::new();
    let t = EnvironmentTemplateBuilder::new("web".to_string())
        .with_id("tpl".to_string())
        .with_parameter(param("name", true, None))
        .build_at(0);
    let (mut p, _) = TemplateProvisioning::start("tpl".to_string(), &provided);
    p.after_cache_lookup(None, 10);
    let a = p.after_template_lookup(Some(t), &provided, &vec![None]);
    assert!(matches!(
        a,
        ProvisionAction::Fail(TestHarnessError::ConfigurationError(ref m)) if m == "Required parameter name is missing"
    ));
}

#[test]
fn provisioning_runs_hooks_and_caches() {
    let provided = vec![("env.MODE".to_string(), ParamValue::Text("fast".to_string()))];
    let t = EnvironmentTemplateBuilder::new("web".to_string())
        .with_id("tpl".to_string())
        .with_parameter(param("env.MODE", false, None))
        .with_parameter(param("name", false, Some("named")))
        .with_pre_provision_hook("echo pre".to_string())
        .with_post_provision_hook("echo post".to_string())
        .build_at(0);
    let (mut p, _) = TemplateProvisioning::start("tpl".to_string(), &provided);
    let a = p.after_cache_lookup(Some(Some(100)), 100);
    assert!(matches!(a, ProvisionAction::RemoveExpired(ref k) if k == "tpl:env.MODE=\"fast\""));
    let a = p.after_removal();
    assert!(matches!(a, ProvisionAction::LookUpTemplate(ref t) if t == "tpl"));
    let a = p.after_template_lookup(Some(t), &provided, &vec![None, None]);
    match a {
        ProvisionAction::Create(c) => {
            assert_eq!(c.name, "named");
            assert_eq!(c.env_vars.get("MODE").map(|s| s.as_str()), Some("fast"));
        }
        _ => panic!("expected creation"),
    }
    let a = p.after_create(Ok(()));
    assert!(matches!(a, ProvisionAction::PreProvisionHook(ref h) if h == "echo pre"));
    let a = p.after_pre_provision(Ok(()));
    assert!(matches!(a, ProvisionAction::SetUp));
    let a = p.after_setup(Ok(()), 500);
    assert!(matches!(a, ProvisionAction::PostProvisionHook(ref h) if h == "echo post"));
    let a = p.after_post_provision(Ok(()), 600);
    match a {
        ProvisionAction::Cache { key, template_id, created_at, expires_at } => {
            assert_eq!(key, "tpl:env.MODE=\"fast\"");
            assert_eq!(template_id, "tpl");
            assert_eq!(created_at, 600);
            assert_eq!(expires_at, Some(3_600_600));
        }
        _ => panic!("expected caching"),
    }
}

#[test]
fn provisioning_stops_at_a_failed_setup() {
    let provided: Vec<(String, ParamValue)> = Vec::new();
    let t = EnvironmentTemplateBuilder::new("web".to_string()).with_id("tpl".to_string()).build_at(0);
    let (mut p, _) = TemplateProvisioning::start("tpl".to_string(), &provided);
    p.after_cache_lookup(None, 0);
    let a = p.after_template_lookup(Some(t), &provided, &Vec::new());
    assert!(matches!(a, ProvisionAction::Create(_)));
    let a = p.after_create(Ok(()));
    assert!(matches!(a, ProvisionAction::SetUp));
    let a = p.after_setup(Err(TestHarnessError::EnvironmentError("boom".to_string())), 1);
    assert!(matches!(a, ProvisionAction::Fail(TestHarnessError::EnvironmentError(ref m)) if m == "boom"));
}

#[test]
fn provisioning_without_post_hook_caches_after_setup() {
    let provided: Vec<(String, ParamValue)> = Vec::new();
    let t = EnvironmentTemplateBuilder::new("web".to_string()).with_id("tpl".to_string()).build_at(0);
    let (mut p, _) = TemplateProvisioning::start("tpl".to_string(), &provided);
    p.after_cache_lookup(None, 0);
    p.after_template_lookup(Some(t), &provided, &Vec::new());
    let a = p.after_create(Err(TestHarnessError::EnvironmentError("no docker".to_string())));
    assert!(matches!(a, ProvisionAction::Fail(_)));
    let t = EnvironmentTemplateBuilder::new("web".to_string()).with_id("tpl".to_string()).build_at(0);
    let (mut p, _) = TemplateProvisioning::start("tpl".to_string(), &provided);
    p.after_cache_lookup(None, 0);
    p.after_template_lookup(Some(t), &provided, &Vec::new());
    p.after_create(Ok(()));
    let a = p.after_setup(Ok(()), 7);
    assert!(matches!(
        a,
        ProvisionAction::Cache { ref key, created_at: 7, expires_at: Some(3_600_007), .. } if key == "tpl:"
    ));
}

#[test]
fn teardown_steps_in_order() {
    let s = teardown_steps(Some("pre".to_string()), Some("post".to_string()));
    assert_eq!(s.len(), 3);
    assert!(matches!(s[0], TeardownStep::RunHook(ref h) if h == "pre"));
    assert!(matches!(s[1], TeardownStep::TearDown));
    assert!(matches!(s[2], TeardownStep::RunHook(ref h) if h == "post"));
    let s = teardown_steps(None, None);
    assert_eq!(s.len(), 1);
    assert!(matches!(s[0], TeardownStep::TearDown));
}
