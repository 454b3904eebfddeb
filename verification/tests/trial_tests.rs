use proxy_checker::trial::{aggregate, classify_probe, ProbeEvent, ProxyTestResult, VerdictClass};

#[test]
fn response_with_match_string_present_is_success() {
    let r = classify_probe(
        ProbeEvent::Response("Service OK".to_string()),
        &Some("OK".to_string()),
    );
    assert_eq!(r, ProxyTestResult::Success);
}

#[test]
fn response_missing_match_string_is_text_not_found() {
    let r = classify_probe(
        ProbeEvent::Response("Service Down".to_string()),
        &Some("OK".to_string()),
    );
    assert_eq!(r, ProxyTestResult::TextNotFound);
}

#[test]
fn timeout_is_timeout_regardless_of_match_string() {
    let r = classify_probe(ProbeEvent::TimedOut, &Some("OK".to_string()));
    assert_eq!(r, ProxyTestResult::Timeout);
    let r = classify_probe(ProbeEvent::TimedOut, &None);
    assert_eq!(r, ProxyTestResult::Timeout);
}

#[test]
fn response_without_match_string_is_success() {
    let r = classify_probe(ProbeEvent::Response("anything".to_string()), &None);
    assert_eq!(r, ProxyTestResult::Success);
}

#[test]
fn match_is_case_sensitive_substring() {
    let r = classify_probe(
        ProbeEvent::Response("service ok".to_string()),
        &Some("OK".to_string()),
    );
    assert_eq!(r, ProxyTestResult::TextNotFound);
}

#[test]
fn transport_failure_keeps_its_cause() {
    let r = classify_probe(
        ProbeEvent::TransportFailure("connection refused".to_string()),
        &None,
    );
    assert_eq!(r, ProxyTestResult::Failure("connection refused".to_string()));
}

#[test]
fn aggregate_counts_successes() {
    let outcomes = vec![
        ProxyTestResult::Success,
        ProxyTestResult::Timeout,
        ProxyTestResult::Success,
        ProxyTestResult::TextNotFound,
        ProxyTestResult::Failure("x".to_string()),
    ];
    let v = aggregate(outcomes, 5);
    assert_eq!(v.success_count, 2);
    assert_eq!(v.repeat_total, 5);
    assert_eq!(v.outcomes.len(), 5);
}

#[test]
fn verdict_keeps_every_outcome() {
    let outcomes = vec![ProxyTestResult::Timeout, ProxyTestResult::Success];
    let v = aggregate(outcomes, 2);
    assert_eq!(v.outcomes[0], ProxyTestResult::Timeout);
    assert_eq!(v.outcomes[1], ProxyTestResult::Success);
    assert_eq!(v.outcomes.len() as u8, v.repeat_total);
}

#[test]
fn all_succeeded_when_every_trial_succeeds() {
    let v = aggregate(vec![ProxyTestResult::Success; 5], 5);
    assert_eq!(v.success_count, 5);
    assert_eq!(v.classification(), VerdictClass::AllSucceeded);
}

#[test]
fn never_succeeded_when_no_trial_succeeds() {
    let v = aggregate(vec![ProxyTestResult::Timeout; 5], 5);
    assert_eq!(v.success_count, 0);
    assert_eq!(v.classification(), VerdictClass::NeverSucceeded);
}

#[test]
fn zero_trials_count_as_all_succeeded() {
    // With no trials the success count equals the repeat count, and the
    // all-succeeded arm of the classification takes precedence.
    let v = aggregate(Vec::new(), 0);
    assert_eq!(v.success_count, 0);
    assert_eq!(v.classification(), VerdictClass::AllSucceeded);
}

#[test]
fn partial_success_in_between() {
    let outcomes = vec![
        ProxyTestResult::Success,
        ProxyTestResult::Success,
        ProxyTestResult::Success,
        ProxyTestResult::Timeout,
        ProxyTestResult::Timeout,
    ];
    let v = aggregate(outcomes, 5);
    assert_eq!(v.success_count, 3);
    assert_eq!(v.classification(), VerdictClass::PartialSuccess);
}
