//! Verified planning and decision logic for a test harness: test selection,
//! dependency ordering, outcome accounting, mock matching and response shaping.

pub mod model;
pub mod text;
pub mod chars;
pub mod kv;
pub mod json;
pub mod http;
pub mod interaction_recorder;
pub mod recorder;
pub mod mock_recorder;
pub mod network;
pub mod response_behavior;
pub mod stub;
pub mod http_stub;
pub mod mock_handling;
pub mod registry;
pub mod mock;
pub mod behavior;
pub mod metrics;
pub mod report_metrics;
pub mod reporting;
pub mod report_templates;
pub mod formatters;
pub mod environment;
pub mod scenario;
pub mod performance;
pub mod plugins;
pub mod storage;
pub mod ordering;
pub mod engine;
pub mod case_run;
pub mod resources;
pub mod templates;
pub mod environment_template;
pub mod provisioning;
pub mod readiness;
pub mod service_start;
pub mod local_env;
pub mod docker;
pub mod service_logs;
pub mod snapshots;
pub mod wire_size;
pub mod error_recovery_tests;
pub mod integration_tests;
pub mod integration_tests_old;
