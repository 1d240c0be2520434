use test_harness::docker::{
    compose_down_command, compose_ps_command, compose_up_command, container_ids, container_name, output_says,
};
use test_harness::environment::{
    apply_parameters_to_config, validate_parameter, DockerConfig, EnvironmentBuilder, EnvironmentConfig,
    EnvironmentFactory, EnvironmentPlan, EnvironmentType, LocalConfig, ParamValue, TemplateParameter,
    TemplateParameterType, TemplateParameterValidation,
};
use test_harness::kv::StrMap;
use test_harness::local_env::{local_services, merged_env_vars};
use test_harness::model::TestHarnessError;
use test_harness::readiness::{not_ready_error, ReadinessWait, WaitStep};
use test_harness::resources::{read_cpu_percent, read_memory_usage, read_rss_bytes};
use test_harness::service_start::{plan_service_start, start_would_loop};
use test_harness::templates::{
    cache_counts, cache_expiry, expired_positions, generate_cache_key, is_expired, is_still_valid,
    missing_environment_error, validate_parameters, HealthAction, HealthCheck,
};

fn param(name: &str, t: TemplateParameterType, required: bool) -> TemplateParameter {
    TemplateParameter {
        name: name.to_string(),
        description: None,
        param_type: t,
        default_value: None,
        required,
        validation: None,
    }
}

fn message(r: Result<(), TestHarnessError>) -> String {
    match r {
        Err(TestHarnessError::ConfigurationError(m)) => m,
        other => panic!("expected a configuration error, got {:?}", other),
    }
}

#[test]
fn required_parameter_without_value_or_default_is_missing() {
    let p = param("port", TemplateParameterType::Integer, true);
    assert_eq!(message(validate_parameter(&p, None, None)), "Required parameter port is missing");
    let mut with_default = param("port", TemplateParameterType::Integer, true);
    with_default.default_value = Some(ParamValue::Other("8080".to_string()));
    assert!(validate_parameter(&with_default, None, None).is_ok());
}

#[test]
fn string_parameter_checks_length_pattern_and_type() {
    let mut p = param("name", TemplateParameterType::String, false);
    p.validation = Some(TemplateParameterValidation {
        min_length: Some(3),
        max_length: Some(5),
        pattern: Some("^[a-z]+$".to_string()),
        allowed_values: None,
    });
    let ok = ParamValue::Text("abcd".to_string());
    assert!(validate_parameter(&p, Some(&ok), None).is_ok());
    let short = ParamValue::Text("ab".to_string());
    assert_eq!(message(validate_parameter(&p, Some(&short), None)), "Parameter name must be at least 3 characters long");
    let long = ParamValue::Text("abcdef".to_string());
    assert_eq!(message(validate_parameter(&p, Some(&long), None)), "Parameter name must be at most 5 characters long");
    let upper = ParamValue::Text("ABC".to_string());
    assert_eq!(message(validate_parameter(&p, Some(&upper), None)), "Parameter name must match pattern ^[a-z]+$");
    let flag = ParamValue::Bool(true);
    assert_eq!(message(validate_parameter(&p, Some(&flag), None)), "Parameter name must be a string");
}

#[test]
fn invalid_pattern_is_reported() {
    let mut p = param("x", TemplateParameterType::String, false);
    p.validation = Some(TemplateParameterValidation {
        min_length: None,
        max_length: None,
        pattern: Some("(".to_string()),
        allowed_values: None,
    });
    let m = message(validate_parameter(&p, Some(&ParamValue::Text("a".to_string())), None));
    assert!(m.starts_with("Invalid regex pattern for parameter x: "));
}

#[test]
fn enum_and_allowed_values() {
    let mut p = param("mode", TemplateParameterType::Enum(vec!["fast".to_string(), "slow".to_string()]), false);
    p.validation = Some(TemplateParameterValidation {
        min_length: None,
        max_length: None,
        pattern: None,
        allowed_values: Some(vec![ParamValue::Text("fast".to_string())]),
    });
    assert!(validate_parameter(&p, Some(&ParamValue::Text("fast".to_string())), None).is_ok());
    assert_eq!(
        message(validate_parameter(&p, Some(&ParamValue::Text("medium".to_string())), None)),
        "Parameter mode must be one of: fast, slow"
    );
    assert_eq!(
        message(validate_parameter(&p, Some(&ParamValue::Text("slow".to_string())), None)),
        "Parameter mode must be one of the allowed values"
    );
}

#[test]
fn validate_parameters_reports_the_first_failure_in_order() {
    let params = vec![
        param("a", TemplateParameterType::String, false),
        param("b", TemplateParameterType::String, true),
        param("c", TemplateParameterType::String, true),
    ];
    let provided: Vec<(String, ParamValue)> = vec![];
    assert_eq!(message(validate_parameters(&params, &provided, &vec![None, None, None])), "Required parameter b is missing");
    let provided = vec![
        ("b".to_string(), ParamValue::Text("x".to_string())),
        ("c".to_string(), ParamValue::Text("y".to_string())),
    ];
    assert!(validate_parameters(&params, &provided, &vec![None, None, None]).is_ok());
    let mut n = param("n", TemplateParameterType::Integer, false);
    n.validation = Some(TemplateParameterValidation { min_length: None, max_length: None, pattern: None, allowed_values: None });
    let provided = vec![("n".to_string(), ParamValue::Other("3".to_string()))];
    assert_eq!(
        message(validate_parameters(&vec![n], &provided, &vec![Some("Parameter n must be at least 5".to_string())])),
        "Parameter n must be at least 5"
    );
}

#[test]
fn apply_parameters_sets_fields_properties_and_id() {
    let mut base = EnvironmentConfig::default();
    base.id = String::new();
    let mut with_default = param("cleanup", TemplateParameterType::Boolean, false);
    with_default.default_value = Some(ParamValue::Bool(false));
    let params = vec![
        param("name", TemplateParameterType::String, false),
        param("env_type", TemplateParameterType::String, false),
        param("property.size", TemplateParameterType::Integer, false),
        param("env.HOME", TemplateParameterType::String, false),
        with_default,
        param("unused", TemplateParameterType::String, false),
    ];
    let provided = vec![
        ("name".to_string(), ParamValue::Text("staging".to_string())),
        ("env_type".to_string(), ParamValue::Text("docker".to_string())),
        ("property.size".to_string(), ParamValue::Other("3".to_string())),
        ("env.HOME".to_string(), ParamValue::Text("/tmp".to_string())),
    ];
    let c = apply_parameters_to_config(base, &params, &provided).unwrap();
    assert_eq!(c.name, "staging");
    assert_eq!(c.env_type, EnvironmentType::Docker);
    assert_eq!(c.properties.get("size").unwrap(), "3");
    assert_eq!(c.env_vars.get("HOME").unwrap(), "/tmp");
    assert!(!c.cleanup);
    assert_eq!(c.id.len(), 36);
}

#[test]
fn apply_parameters_rejects_unknown_environment_type() {
    let params = vec![param("env_type", TemplateParameterType::String, false)];
    let provided = vec![("env_type".to_string(), ParamValue::Text("cloud".to_string()))];
    match apply_parameters_to_config(EnvironmentConfig::default(), &params, &provided) {
        Err(TestHarnessError::ConfigurationError(m)) => assert_eq!(m, "Invalid environment type: cloud"),
        other => panic!("unexpected {:?}", other.map(|c| c.name)),
    }
}

#[test]
fn cache_key_sorts_parameters() {
    let a = vec![
        ("b".to_string(), ParamValue::Bool(true)),
        ("a".to_string(), ParamValue::Text("x".to_string())),
    ];
    let b = vec![
        ("a".to_string(), ParamValue::Text("x".to_string())),
        ("b".to_string(), ParamValue::Bool(true)),
    ];
    assert_eq!(generate_cache_key("tpl", &a), "tpl:a=\"x\",b=true");
    assert_eq!(generate_cache_key("tpl", &a), generate_cache_key("tpl", &b));
    assert_eq!(generate_cache_key("tpl", &vec![]), "tpl:");
}

#[test]
fn cache_expiry_decisions_agree() {
    assert!(is_expired(Some(10), 10));
    assert!(!is_still_valid(Some(10), 10));
    assert!(is_still_valid(Some(11), 10));
    assert!(is_still_valid(None, 10));
    assert!(!is_expired(None, 10));
    assert_eq!(cache_expiry(1_000), Some(3_601_000));
    assert_eq!(cache_expiry(i64::MAX), None);
    let expiries = vec![Some(5), None, Some(20), Some(1)];
    assert_eq!(expired_positions(&expiries, 10), vec![0, 3]);
    let c = cache_counts(&expiries, 10);
    assert_eq!((c.total, c.active, c.expired), (4, 2, 2));
    match missing_environment_error("e1") {
        TestHarnessError::EnvironmentError(m) => assert_eq!(m, "Environment e1 not found in cache"),
        other => panic!("unexpected {:?}", other),
    }
}

#[test]
fn health_check_with_hook_and_healing_hook() {
    let (mut check, first) = HealthCheck::start(Some("probe-health".to_string()), Some("heal.sh".to_string()), vec![]);
    assert!(matches!(first, HealthAction::RunHealthHook(ref h) if h == "probe-health"));
    match check.after_health_hook(false) {
        HealthAction::RunHealingHook(h) => assert_eq!(h, "heal.sh"),
        other => panic!("unexpected {:?}", other),
    }
    assert!(matches!(check.after_healing_hook(true), HealthAction::Done(true)));
}

#[test]
fn health_check_of_services_heals_by_restart() {
    let services = vec!["db".to_string(), "web".to_string()];
    let (mut check, first) = HealthCheck::start(None, None, services);
    assert!(matches!(first, HealthAction::CheckService(ref s) if s == "db"));
    assert!(matches!(check.after_service_check(Ok(true)), HealthAction::CheckService(ref s) if s == "web"));
    assert!(matches!(check.after_service_check(Ok(false)), HealthAction::TearDown));
    assert!(matches!(check.after_teardown(true), HealthAction::SetUp));
    assert!(matches!(check.after_setup(true), HealthAction::Done(true)));
    let (mut healthy, _) = HealthCheck::start(None, None, vec!["db".to_string()]);
    assert!(matches!(healthy.after_service_check(Ok(true)), HealthAction::Done(true)));
    let (mut broken, _) = HealthCheck::start(None, None, vec!["db".to_string()]);
    broken.after_service_check(Err(TestHarnessError::EnvironmentError("gone".to_string())));
    assert!(matches!(broken.after_teardown(false), HealthAction::Done(false)));
    let (_, empty) = HealthCheck::start(None, None, vec![]);
    assert!(matches!(empty, HealthAction::Done(true)));
}

#[test]
fn readiness_wait_probes_once_a_second_until_time_is_up() {
    let mut w = ReadinessWait::new(3);
    let mut probes = 0;
    loop {
        match w.next_step() {
            WaitStep::Probe => {
                probes += 1;
                assert_eq!(w.record_probe(false), WaitStep::Sleep);
            }
            WaitStep::GiveUp => break,
            other => panic!("unexpected {:?}", other),
        }
    }
    assert_eq!(probes, 3);
    let mut ready = ReadinessWait::new(30);
    assert_eq!(ready.next_step(), WaitStep::Probe);
    assert_eq!(ready.record_probe(false), WaitStep::Sleep);
    assert_eq!(ready.next_step(), WaitStep::Probe);
    assert_eq!(ready.record_probe(true), WaitStep::Ready);
    assert_eq!(ReadinessWait::new(0).next_step(), WaitStep::GiveUp);
    match not_ready_error("Service web") {
        TestHarnessError::EnvironmentError(m) => assert_eq!(m, "Service web did not become ready in time"),
        other => panic!("unexpected {:?}", other),
    }
}

#[test]
fn service_start_order_puts_dependencies_first() {
    let names = vec!["web".to_string(), "db".to_string(), "cache".to_string(), "queue".to_string()];
    let deps = vec![
        vec!["db".to_string(), "cache".to_string()],
        vec![],
        vec!["db".to_string()],
        vec![],
    ];
    let running = vec![false, false, false, true];
    let plan = plan_service_start(&names, &deps, &running, &"web".to_string());
    assert_eq!(plan.order, vec![1, 2, 0]);
    assert!(plan.error.is_none());
    let running_db = vec![false, true, false, false];
    assert_eq!(plan_service_start(&names, &deps, &running_db, &"web".to_string()).order, vec![2, 0]);
}

#[test]
fn service_start_stops_at_unknown_dependency() {
    let names = vec!["a".to_string(), "b".to_string()];
    let deps = vec![vec!["b".to_string(), "ghost".to_string()], vec![]];
    let running = vec![false, false];
    let plan = plan_service_start(&names, &deps, &running, &"a".to_string());
    assert_eq!(plan.order, vec![1]);
    match plan.error {
        Some(TestHarnessError::EnvironmentError(m)) => assert_eq!(m, "Service ghost not found"),
        other => panic!("unexpected {:?}", other),
    }
    let missing = plan_service_start(&names, &deps, &running, &"zzz".to_string());
    assert!(missing.order.is_empty());
    assert!(missing.error.is_some());
}

#[test]
fn service_start_detects_a_loop() {
    let names = vec!["a".to_string(), "b".to_string()];
    let deps = vec![vec!["b".to_string()], vec!["a".to_string()]];
    assert!(start_would_loop(&names, &deps, &vec![false, false], &"a".to_string()));
    assert!(!start_would_loop(&names, &deps, &vec![false, true], &"a".to_string()));
}

#[test]
fn local_services_are_described_by_the_settings() {
    let mut local = LocalConfig::default();
    local.service_commands.insert("web".to_string(), "python -m http.server".to_string());
    local.service_working_dirs.insert("web".to_string(), "/srv".to_string());
    local.service_ports.push(("web".to_string(), 8000));
    local.service_dependencies.push(("web".to_string(), vec!["db".to_string()]));
    local.service_health_check_urls.insert("web".to_string(), "http://localhost:8000".to_string());
    let services = local_services(&local);
    assert_eq!(services.len(), 1);
    let s = &services[0];
    assert_eq!(s.name, "web");
    assert_eq!(s.command, "python -m http.server");
    assert_eq!(s.working_dir.as_deref(), Some("/srv"));
    assert_eq!(s.port, Some(8000));
    assert_eq!(s.log_file_name, "web.log");
    assert_eq!(s.dependencies, vec!["db".to_string()]);
    assert!(s.pid.is_none());
    assert!(s.health_check_command.is_none());
}

#[test]
fn kind_variables_replace_configuration_variables() {
    let mut a = StrMap::new();
    a.insert("X".to_string(), "1".to_string());
    a.insert("Y".to_string(), "2".to_string());
    let mut b = StrMap::new();
    b.insert("Y".to_string(), "3".to_string());
    let m = merged_env_vars(&a, &b);
    assert_eq!(m.get("X").unwrap(), "1");
    assert_eq!(m.get("Y").unwrap(), "3");
    assert_eq!(m.len(), 2);
}

#[test]
fn resource_readings() {
    assert_eq!(read_cpu_percent(" 12.5%%\n"), "12.5");
    let m = read_memory_usage("1.5GiB / 15.5GiB\n");
    assert_eq!((m.number.as_str(), m.scale), ("1.5", 1073741824));
    let m = read_memory_usage("512MiB");
    assert_eq!((m.number.as_str(), m.scale), ("512", 1048576));
    let m = read_memory_usage(" 20KiB /1GiB");
    assert_eq!((m.number.as_str(), m.scale), ("20", 1024));
    let m = read_memory_usage("100B / 2GiB");
    assert_eq!((m.number.as_str(), m.scale), ("100B", 1));
    assert_eq!(read_rss_bytes(" 2048\n"), 2048 * 1024);
    assert_eq!(read_rss_bytes("n/a"), 0);
}

#[test]
fn docker_compose_arguments() {
    let mut c = DockerConfig::default();
    assert!(compose_up_command(&c).is_none());
    c.compose_file = Some("dc.yml".to_string());
    c.project_name = Some("p".to_string());
    c.env_file = Some(".env".to_string());
    c.services = vec!["web".to_string()];
    assert_eq!(
        compose_up_command(&c).unwrap(),
        vec!["-f", "dc.yml", "-p", "p", "--env-file", ".env", "up", "-d", "web"]
    );
    assert_eq!(compose_down_command(&c).unwrap(), vec!["-f", "dc.yml", "-p", "p", "down"]);
    c.project_name = None;
    assert_eq!(compose_ps_command(&c).unwrap(), vec!["-f", "dc.yml", "ps", "-q"]);
}

#[test]
fn docker_output_parsing() {
    assert_eq!(container_ids("abc\r\n\n  def  \nlast"), vec!["abc", "def", "last"]);
    assert!(container_ids("").is_empty());
    assert_eq!(container_name(" //web_1\n"), "web_1");
    assert!(output_says("healthy\n", "healthy"));
    assert!(!output_says("unhealthy", "healthy"));
    assert!(output_says(" true ", "true"));
}

#[test]
fn environment_builder_and_plan() {
    let config = EnvironmentBuilder::new()
        .with_name("ci".to_string())
        .with_env_type(EnvironmentType::Docker)
        .with_env_var("A".to_string(), "1".to_string())
        .with_service("db".to_string(), "postgres://db".to_string())
        .with_property("n".to_string(), ParamValue::Text("v".to_string()))
        .config;
    assert_eq!(config.name, "ci");
    assert_eq!(config.env_vars.get("A").unwrap(), "1");
    assert_eq!(config.services.get("db").unwrap(), "postgres://db");
    assert_eq!(config.properties.get("n").unwrap(), "\"v\"");
    match EnvironmentFactory::plan(config) {
        EnvironmentPlan::Docker(d) => assert!(d.compose_file.is_none()),
        _ => panic!("expected a docker environment"),
    }
    let defaults = EnvironmentConfig::default();
    assert_eq!(defaults.name, "test-environment");
    assert_eq!(defaults.base_dir, "test_artifacts");
    assert!(defaults.use_temp_dir && defaults.cleanup);
}

#[test]
fn allowed_values_compare_as_json_values() {
    let mut p = param("ratio", TemplateParameterType::Float, true);
    p.validation = Some(TemplateParameterValidation {
        min_length: None,
        max_length: None,
        pattern: None,
        allowed_values: Some(vec![ParamValue::Other("0.0".to_string()), ParamValue::Other("1".to_string())]),
    });
    assert!(validate_parameter(&p, Some(&ParamValue::Other("-0.0".to_string())), None).is_ok());
    assert!(validate_parameter(&p, Some(&ParamValue::Other("1".to_string())), None).is_ok());
    match validate_parameter(&p, Some(&ParamValue::Other("2".to_string())), None) {
        Err(TestHarnessError::ConfigurationError(m)) => assert_eq!(m, "Parameter ratio must be one of the allowed values"),
        other => panic!("unexpected {:?}", other),
    }
}

#[test]
fn allowed_values_that_are_not_json_compare_as_text() {
    let mut p = param("mode", TemplateParameterType::Float, true);
    p.validation = Some(TemplateParameterValidation {
        min_length: None,
        max_length: None,
        pattern: None,
        allowed_values: Some(vec![ParamValue::Other("fast mode".to_string())]),
    });
    assert!(validate_parameter(&p, Some(&ParamValue::Other("fast mode".to_string())), None).is_ok());
    match validate_parameter(&p, Some(&ParamValue::Other("fast  mode".to_string())), None) {
        Err(TestHarnessError::ConfigurationError(m)) => assert_eq!(m, "Parameter mode must be one of the allowed values"),
        other => panic!("unexpected {:?}", other),
    }
}

fn is_uuid_v4_text(s: &str) -> bool {
    let cs: Vec<char> = s.chars().collect();
    cs.len() == 36
        && cs.iter().enumerate().all(|(i, c)| {
            if i == 8 || i == 13 || i == 18 || i == 23 {
                *c == '-'
            } else {
                c.is_ascii_digit() || ('a'..='f').contains(c)
            }
        })
        && cs[14] == '4'
        && "89ab".contains(cs[19])
}

#[test]
fn fresh_identifiers_are_version_4_uuids() {
    let c = EnvironmentConfig::default();
    assert!(is_uuid_v4_text(&c.id), "{}", c.id);
    let mut base = EnvironmentConfig::default();
    base.id = String::new();
    let c = apply_parameters_to_config(base, &Vec::new(), &Vec::new()).unwrap();
    assert!(is_uuid_v4_text(&c.id), "{}", c.id);
    assert_ne!(c.id, EnvironmentConfig::default().id);
}
