use test_harness::environment::{EnvironmentConfig, LocalConfig};
use test_harness::kv::StrMap;
use test_harness::local_env::LocalService;
use test_harness::model::TestHarnessError;
use test_harness::service_logs::{
    docker_logs_args, local_database_url, local_redis_url, service_not_found_error, tail_lines, text_lines,
};
use test_harness::snapshots::SnapshotStore;

fn service(name: &str) -> LocalService {
    LocalService {
        name: name.to_string(),
        command: format!("run {}", name),
        working_dir: None,
        env_vars: StrMap::new(),
        port: Some(8080),
        pid: None,
        log_file_name: format!("{}.log", name),
        health_check_command: None,
        health_check_url: None,
        dependencies: Vec::new(),
    }
}

#[test]
fn lines_of_a_log() {
    assert_eq!(text_lines("a\r\nb\n\nc"), vec!["a", "b", "", "c"]);
    assert_eq!(text_lines("a\n"), vec!["a"]);
    assert!(text_lines("").is_empty());
}

#[test]
fn tail_of_a_log() {
    let log = "one\ntwo\nthree\nfour\n";
    assert_eq!(tail_lines(log, None), log);
    assert_eq!(tail_lines(log, Some(2)), "three\nfour");
    assert_eq!(tail_lines(log, Some(10)), "one\ntwo\nthree\nfour");
    assert_eq!(tail_lines(log, Some(0)), "");
    assert_eq!(tail_lines("", Some(3)), "");
}

#[test]
fn docker_log_arguments() {
    assert_eq!(docker_logs_args("abc", None), vec!["logs", "abc"]);
    assert_eq!(docker_logs_args("abc", Some(50)), vec!["logs", "abc", "--tail", "50"]);
}

#[test]
fn unknown_service_error() {
    match service_not_found_error("db") {
        TestHarnessError::EnvironmentError(m) => assert_eq!(m, "Service db not found"),
        _ => panic!("expected an environment error"),
    }
}

#[test]
fn local_urls_prefer_local_settings() {
    let mut local = LocalConfig::default();
    let mut config = EnvironmentConfig::default();
    assert_eq!(local_database_url(&local, &config), None);
    config.database_url = Some("postgres://general".to_string());
    config.redis_url = Some("redis://general".to_string());
    assert_eq!(local_database_url(&local, &config), Some("postgres://general"));
    local.database_url = Some("postgres://local".to_string());
    assert_eq!(local_database_url(&local, &config), Some("postgres://local"));
    assert_eq!(local_redis_url(&local, &config), Some("redis://general"));
    local.redis_url = Some("redis://local".to_string());
    assert_eq!(local_redis_url(&local, &config), Some("redis://local"));
}

#[test]
fn restore_gives_back_the_snapshot() {
    let mut store = SnapshotStore::new();
    let mut state = StrMap::new();
    state.insert("count".to_string(), "1".to_string());
    let mut vars = StrMap::new();
    vars.insert("MODE".to_string(), "fast".to_string());
    store.take("first".to_string(), &state, &vars, &vec![service("api")], 100);

    state.insert("count".to_string(), "2".to_string());
    store.take("second".to_string(), &state, &StrMap::new(), &Vec::new(), 200);

    let (s, v) = store.restore("first").unwrap();
    assert_eq!(s.get("count").map(|x| x.as_str()), Some("1"));
    assert_eq!(v.get("MODE").map(|x| x.as_str()), Some("fast"));
    let (s, v) = store.restore("second").unwrap();
    assert_eq!(s.get("count").map(|x| x.as_str()), Some("2"));
    assert_eq!(v.len(), 0);

    let mut names = store.names();
    names.sort();
    assert_eq!(names, vec!["first", "second"]);

    match store.restore("third") {
        Err(TestHarnessError::EnvironmentError(m)) => assert_eq!(m, "Snapshot third not found"),
        _ => panic!("expected an error"),
    }
}

#[test]
fn snapshot_of_the_same_name_is_replaced() {
    let mut store = SnapshotStore::new();
    let mut state = StrMap::new();
    state.insert("k".to_string(), "\"a\"".to_string());
    store.take("s".to_string(), &state, &StrMap::new(), &Vec::new(), 1);
    state.insert("k".to_string(), "\"b\"".to_string());
    store.take("s".to_string(), &state, &StrMap::new(), &Vec::new(), 2);
    assert_eq!(store.names(), vec!["s"]);
    let (s, _) = store.restore("s").unwrap();
    assert_eq!(s.get("k").map(|x| x.as_str()), Some("\"b\""));
}
