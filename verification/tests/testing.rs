use assertor::AssertionResultAssertion;
use assertor::CheckThatResult;
use assertor::Fact;
use assertor::assert_that;
use assertor::check_that;

#[test]
fn test_assertion() {
    assert_that("same", "same").is_same_to("same");
    assert_that(
        check_that("actual", "actual").is_same_to("expected"),
        "check_that(actual).is_same_to(expected)",
    )
    .facts_are(&vec![Fact::new_simple_fact("not same")]);
}

#[test]
fn facts_are() {
    let failed: CheckThatResult = check_that("actual", "actual").is_same_to("expected");
    assert_that(
        check_that(failed, "failed").facts_are(&vec![]),
        "check_that(failed).facts_are(vec![])",
    )
    .facts_are(&vec![
        Fact::new("value of", "failed.facts()"),
        Fact::new("unexpected (1)", "[Value { value: \"not same\" }]"),
        Fact::new_splitter(),
        Fact::new("expected", "[]"),
        Fact::new("actual", "[Value { value: \"not same\" }]"),
    ]);
}
