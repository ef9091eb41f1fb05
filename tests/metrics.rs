use std::cmp::Ordering;
use zenoh_client::metrics::{decimal_string, evaluate_readings, metrics_selector, EvaluationError, Reading};

#[test]
fn selector_appends_trailing_window() {
    assert_eq!(metrics_selector("colmena/metrics/latency", 5, "m"), "colmena/metrics/latency?_time=[now(-5m)..]");
    assert_eq!(metrics_selector("k", 0, "s"), "k?_time=[now(-0s)..]");
    assert_eq!(metrics_selector("", 120, "h"), "?_time=[now(-120h)..]");
}

#[test]
fn decimal_digits() {
    assert_eq!(decimal_string(0), "0");
    assert_eq!(decimal_string(7), "7");
    assert_eq!(decimal_string(1024), "1024");
    assert_eq!(decimal_string(u64::MAX), "18446744073709551615");
}

#[test]
fn delivery_errors_are_skipped() {
    let readings = vec![
        Reading::TransportError,
        Reading::Sample(Some(Ordering::Less)),
        Reading::TransportError,
        Reading::Sample(Some(Ordering::Less)),
    ];
    assert_eq!(evaluate_readings("<", &readings), Ok(true));
    assert_eq!(evaluate_readings(">", &readings), Ok(false));
}

#[test]
fn only_delivery_errors_means_not_met() {
    let readings = vec![Reading::TransportError, Reading::TransportError];
    assert_eq!(evaluate_readings(">=", &readings), Ok(false));
    assert_eq!(evaluate_readings("<", &Vec::new()), Ok(false));
}

#[test]
fn unparseable_sample_fails_the_request() {
    let readings = vec![Reading::Sample(Some(Ordering::Less)), Reading::TransportError, Reading::Unparseable, Reading::Unparseable];
    assert_eq!(evaluate_readings("<", &readings), Err(EvaluationError::MalformedSample(2)));
}

#[test]
fn unsupported_operator_fails_the_request() {
    let readings = vec![Reading::Unparseable];
    assert_eq!(evaluate_readings("!=", &readings), Err(EvaluationError::UnsupportedComparison));
    assert_eq!(evaluate_readings("==", &Vec::new()), Err(EvaluationError::UnsupportedComparison));
}
