//! The integration suite between components under error scenarios.

use vstd::prelude::*;
use crate::model::{TestCase, TestCategory, TestSuite};

verus! {

/// The integration suite under error scenarios: one integration test case,
/// the router retry test.
pub fn create_integration_test_suite() -> (s: TestSuite)
    ensures
        s.name@ == "Integration Tests"@,
        s.description matches Some(d) && d@ == "Tests for integration between components"@,
        s.test_cases@.len() == 1,
        s.test_cases@[0].name@ == "router_retry_integration_test"@,
        s.test_cases@[0].category == TestCategory::Integration,
        s.test_cases@[0].dependencies@.len() == 0,
{
    TestSuite::new("Integration Tests".to_owned()).with_description(
        "Tests for integration between components".to_owned(),
    ).with_test_case(TestCase::new(TestCategory::Integration, "router_retry_integration_test".to_owned()))
}

} // verus!
