//! The error recovery suite: retries, circuit breaking, degraded service,
//! error categorization and recovery from timeouts, rate limits and
//! network errors.

use vstd::prelude::*;
use crate::model::{TestCase, TestCategory, TestPriority, TestSuite};

verus! {

/// The suite of error recovery tests: seven cases, all of them integration
/// tests but the error categorization test, which is a unit test.
pub fn create_error_recovery_test_suite() -> (s: TestSuite)
    ensures
        s.name@ == "Error Recovery Tests"@,
        s.description matches Some(d) && d@ == "Tests for error conditions and recovery scenarios"@,
        s.test_cases@.len() == 7,
        s.test_cases@[0].name@ == "retry_policy_test"@,
        s.test_cases@[1].name@ == "circuit_breaker_test"@,
        s.test_cases@[2].name@ == "degraded_service_test"@,
        s.test_cases@[3].name@ == "error_categorization_test"@,
        s.test_cases@[4].name@ == "recovery_from_timeout_test"@,
        s.test_cases@[5].name@ == "recovery_from_rate_limit_test"@,
        s.test_cases@[6].name@ == "recovery_from_network_error_test"@,
        forall|i: int| 0 <= i < 7 && i != 3 ==> s.test_cases@[i].category == TestCategory::Integration,
        s.test_cases@[3].category == TestCategory::Unit,
        forall|i: int| 0 <= i < 7 ==> #[trigger] s.test_cases@[i].dependencies@.len() == 0,
        forall|i: int| 0 <= i < 7 ==> #[trigger] s.test_cases@[i].priority == TestPriority::Medium,
        s.dependencies@.len() == 0,
        !s.parallel,
{
    let s = TestSuite::new("Error Recovery Tests".to_owned()).with_description(
        "Tests for error conditions and recovery scenarios".to_owned(),
    );
    s.with_test_case(TestCase::new(TestCategory::Integration, "retry_policy_test".to_owned()))
        .with_test_case(TestCase::new(TestCategory::Integration, "circuit_breaker_test".to_owned()))
        .with_test_case(TestCase::new(TestCategory::Integration, "degraded_service_test".to_owned()))
        .with_test_case(TestCase::new(TestCategory::Unit, "error_categorization_test".to_owned()))
        .with_test_case(TestCase::new(TestCategory::Integration, "recovery_from_timeout_test".to_owned()))
        .with_test_case(TestCase::new(TestCategory::Integration, "recovery_from_rate_limit_test".to_owned()))
        .with_test_case(TestCase::new(TestCategory::Integration, "recovery_from_network_error_test".to_owned()))
}

} // verus!
