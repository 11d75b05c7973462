use assertor::AssertionResult;
use assertor::AssertionResultAssertion;
use assertor::CheckThatResult;
use assertor::Fact;
use assertor::assert_that;
use assertor::check_that;

/// A failure whose fact sequence has several facts of every variant: the
/// outcome of comparing a one-fact failure's facts against an empty list.
fn rich_failure() -> CheckThatResult {
    let failed: CheckThatResult = check_that("actual", "actual").is_same_to("expected");
    check_that(failed, "failed").facts_are(&vec![])
}

fn rich_facts() -> Vec<Fact> {
    vec![
        Fact::new("value of", "failed.facts()"),
        Fact::new("unexpected (1)", "[Value { value: \"not same\" }]"),
        Fact::new_splitter(),
        Fact::new("expected", "[]"),
        Fact::new("actual", "[Value { value: \"not same\" }]"),
    ]
}

#[test]
fn same_value_passes_under_both_strategies() {
    assert_that("a value", "a value").is_same_to("a value");
    let outcome: CheckThatResult = check_that("a value", "a value").is_same_to("a value");
    assert!(matches!(outcome, Ok(())));
}

#[test]
fn failed_comparison_returns_structured_outcome() {
    let outcome: CheckThatResult = check_that("actual", "labelled").is_same_to("expected");
    match outcome {
        Ok(()) => panic!("comparison of different texts must fail"),
        Err(result) => {
            assert_eq!(result.description.as_str(), "labelled");
            assert_eq!(result.facts.len(), 1);
            match &result.facts[0] {
                Fact::Value { value } => assert_eq!(value.as_str(), "not same"),
                _ => panic!("expected a free-form fact"),
            }
        },
    }
}

#[test]
fn facts_are_accepts_exactly_the_facts_in_order() {
    let outcome = check_that(rich_failure(), "failed").facts_are(&rich_facts());
    assert!(matches!(outcome, Ok(())));
}

#[test]
fn facts_are_rejects_reordered_facts() {
    let mut reordered = rich_facts();
    reordered.swap(3, 4);
    let outcome = check_that(rich_failure(), "failed").facts_are(&reordered);
    assert!(matches!(outcome, Err(_)));
}

#[test]
fn facts_are_rejects_a_strict_prefix() {
    let mut prefix = rich_facts();
    prefix.pop();
    let outcome = check_that(rich_failure(), "failed").facts_are(&prefix);
    assert!(matches!(outcome, Err(_)));
}

#[test]
fn facts_are_at_least_accepts_in_order_subsequences() {
    let outcome = check_that(rich_failure(), "failed").facts_are_at_least(&vec![
        Fact::new("value of", "failed.facts()"),
        Fact::new_splitter(),
        Fact::new("actual", "[Value { value: \"not same\" }]"),
    ]);
    assert!(matches!(outcome, Ok(())));
    let all = check_that(rich_failure(), "failed").facts_are_at_least(&rich_facts());
    assert!(matches!(all, Ok(())));
    let none = check_that(rich_failure(), "failed").facts_are_at_least(&vec![]);
    assert!(matches!(none, Ok(())));
}

#[test]
fn facts_are_at_least_rejects_out_of_order_facts() {
    let outcome = check_that(rich_failure(), "failed").facts_are_at_least(&vec![
        Fact::new("expected", "[]"),
        Fact::new_splitter(),
    ]);
    assert!(matches!(outcome, Err(_)));
}

#[test]
fn facts_are_at_least_rejects_absent_facts() {
    let outcome = check_that(rich_failure(), "failed").facts_are_at_least(&vec![
        Fact::new("value of", "something else entirely"),
    ]);
    assert!(matches!(outcome, Err(_)));
}

#[test]
fn fact_value_for_key_takes_the_first_occurrence() {
    let result = AssertionResult {
        description: "twice".to_string(),
        facts: vec![
            Fact::new_simple_fact("noise"),
            Fact::new("k", "first"),
            Fact::new_splitter(),
            Fact::new("k", "second"),
        ],
    };
    let outcome: CheckThatResult = Err(result);
    let derived = check_that(outcome, "outcome").fact_value_for_key("k");
    assert_eq!(derived.actual().as_str(), "first");
}

#[test]
fn fact_keys_collects_distinct_keys_only() {
    let result = AssertionResult {
        description: "keyed".to_string(),
        facts: vec![
            Fact::new("alpha", "1"),
            Fact::new_simple_fact("ignored"),
            Fact::new_splitter(),
            Fact::new("alpha", "2"),
            Fact::new("beta", "3"),
        ],
    };
    let outcome: CheckThatResult = Err(result);
    let derived = check_that(outcome, "outcome").fact_keys();
    let keys = derived.actual();
    assert_eq!(keys.len(), 2);
    assert!(keys.contains(&"alpha".to_string()));
    assert!(keys.contains(&"beta".to_string()));
}

#[test]
fn rendering_is_deterministic_and_line_oriented() {
    let result = AssertionResult {
        description: "subject".to_string(),
        facts: vec![
            Fact::new("expected", "1"),
            Fact::new_simple_fact("boom"),
            Fact::new_splitter(),
        ],
    };
    let first = result.generate_message();
    let second = result.generate_message();
    assert_eq!(first.as_str(), "subject\nexpected: 1\nboom\n---");
    assert_eq!(first, second);
}

#[test]
fn unexpected_counts_render_in_decimal() {
    let mut facts = Vec::new();
    for _ in 0..12 {
        facts.push(Fact::new_simple_fact("f"));
    }
    let outcome: CheckThatResult = Err(AssertionResult {
        description: "many".to_string(),
        facts,
    });
    let meta = check_that(outcome, "many").facts_are(&vec![]);
    match meta {
        Ok(()) => panic!("twelve facts are not the empty sequence"),
        Err(result) => match &result.facts[1] {
            Fact::KeyValue { key, value: _ } => assert_eq!(key.as_str(), "unexpected (12)"),
            _ => panic!("the second fact counts the unexpected facts"),
        },
    }
}

#[test]
fn meta_assertion_failure_is_itself_structured() {
    let meta = check_that(rich_failure(), "failed").facts_are(&vec![]);
    match meta {
        Ok(()) => panic!("a five-fact sequence is not the empty sequence"),
        Err(result) => {
            assert_eq!(result.description.as_str(), "failed.facts()");
            match &result.facts[0] {
                Fact::KeyValue { key, value } => {
                    assert_eq!(key.as_str(), "value of");
                    assert_eq!(value.as_str(), "failed.facts()");
                },
                _ => panic!("the first fact names the subject"),
            }
            match &result.facts[1] {
                Fact::KeyValue { key, value } => {
                    assert_eq!(key.as_str(), "unexpected (5)");
                    let listing = "[KeyValue { key: \"value of\", value: \"failed.facts()\" }, KeyValue { key: \"unexpected (1)\", value: \"[Value { value: \"not same\" }]\" }, Splitter, KeyValue { key: \"expected\", value: \"[]\" }, KeyValue { key: \"actual\", value: \"[Value { value: \"not same\" }]\" }]";
                    assert_eq!(value.as_str(), listing);
                },
                _ => panic!("the second fact lists the unexpected facts"),
            }
        },
    }
}
