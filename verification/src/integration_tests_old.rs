//! The integration suite between the router, the model registry, the
//! connectors and health checking.

use vstd::prelude::*;
use crate::model::{TestCase, TestCategory, TestSuite};

verus! {

/// The integration suite: four integration test cases.
pub fn create_integration_test_suite() -> (s: TestSuite)
    ensures
        s.name@ == "Integration Tests"@,
        s.description matches Some(d) && d@ == "Tests for integration between components"@,
        s.test_cases@.len() == 4,
        s.test_cases@[0].name@ == "router_model_registry_test"@,
        s.test_cases@[1].name@ == "router_connector_test"@,
        s.test_cases@[2].name@ == "health_check_integration_test"@,
        s.test_cases@[3].name@ == "end_to_end_request_flow_test"@,
        forall|i: int| 0 <= i < 4 ==> #[trigger] s.test_cases@[i].category == TestCategory::Integration,
        forall|i: int| 0 <= i < 4 ==> #[trigger] s.test_cases@[i].dependencies@.len() == 0,
{
    let s = TestSuite::new("Integration Tests".to_owned()).with_description(
        "Tests for integration between components".to_owned(),
    );
    s.with_test_case(TestCase::new(TestCategory::Integration, "router_model_registry_test".to_owned()))
        .with_test_case(TestCase::new(TestCategory::Integration, "router_connector_test".to_owned()))
        .with_test_case(TestCase::new(TestCategory::Integration, "health_check_integration_test".to_owned()))
        .with_test_case(TestCase::new(TestCategory::Integration, "end_to_end_request_flow_test".to_owned()))
}

} // verus!
