use gravel_gateway::aggregator::Aggregator;
use gravel_gateway::errors::AggregationError;
use gravel_gateway::ingest::{decode_url_labels, ingest_metrics, IngestOutcome, TailError};
use gravel_gateway::labels::Label;

fn push(agg: &mut Aggregator, tail: &str, body: &str) -> IngestOutcome {
    ingest_metrics(agg, &None, tail, body.as_bytes())
}

#[test]
fn counter_aggregate_scenario() {
    let mut agg = Aggregator::new();
    assert!(matches!(push(&mut agg, "job/foo", "test_metric 1\n"), IngestOutcome::Merged(Ok(()))));
    assert!(matches!(push(&mut agg, "job/foo", "test_metric 2\n"), IngestOutcome::Merged(Ok(()))));
    assert_eq!(agg.to_string(), "test_metric{job=\"foo\"} 3\n");
}

#[test]
fn url_decoded_label_scenario() {
    let mut agg = Aggregator::new();
    assert!(matches!(
        push(&mut agg, "job/localhost%3A80", "test_metric 1\n"),
        IngestOutcome::Merged(Ok(()))
    ));
    assert_eq!(agg.to_string(), "test_metric{job=\"localhost:80\"} 1\n");
    assert!(matches!(
        push(&mut agg, "job/localhost:80", "test_metric 2\n"),
        IngestOutcome::Merged(Ok(()))
    ));
    assert_eq!(agg.to_string(), "test_metric{job=\"localhost:80\"} 3\n");
}

#[test]
fn family_reset_scenario() {
    let mut agg = Aggregator::new();
    agg.parse_and_merge("requests_num_total{foo=\"bar\"} 1\n", &Vec::new()).unwrap();
    agg.parse_and_merge("requests_num_total{foo=\"baz\",clearmode=\"family\"} 1\n", &Vec::new())
        .unwrap();
    assert_eq!(agg.to_string(), "requests_num_total{foo=\"baz\"} 1\n");
}

#[test]
fn family_reset_changes_label_names_scenario() {
    let mut agg = Aggregator::new();
    agg.parse_and_merge("requests_num_total{foo=\"bar\"} 1\n", &Vec::new()).unwrap();
    agg.parse_and_merge("requests_num_total{clearmode=\"family\"} 1\n", &Vec::new()).unwrap();
    assert_eq!(agg.to_string(), "requests_num_total 1\n");
    agg.parse_and_merge("requests_num_total{foo=\"bar\",clearmode=\"family\"} 1\n", &Vec::new())
        .unwrap();
    assert_eq!(agg.to_string(), "requests_num_total{foo=\"bar\"} 1\n");
}

#[test]
fn family_reset_twice_same_output() {
    let mut agg = Aggregator::new();
    agg.parse_and_merge("x{a=\"1\",clearmode=\"family\"} 5\n", &Vec::new()).unwrap();
    let first = agg.to_string();
    agg.parse_and_merge("x{a=\"1\",clearmode=\"family\"} 5\n", &Vec::new()).unwrap();
    assert_eq!(agg.to_string(), first);
}

#[test]
fn label_name_mismatch_rejected() {
    let mut agg = Aggregator::new();
    agg.parse_and_merge("requests_num_total{LAMBDA_NAME=\"f\"} 1\n", &Vec::new()).unwrap();
    assert!(agg.parse_and_merge("requests_num_total{job=\"test\"} 1\n", &Vec::new()).is_err());
}

#[test]
fn clearmode_sum_window_scenario() {
    let mut agg = Aggregator::new();
    agg.parse_and_merge("x{clearmode=\"sum5m\"} 1\n", &Vec::new()).unwrap();
    agg.parse_and_merge("x{clearmode=\"sum5m\"} 1\n", &Vec::new()).unwrap();
    assert_eq!(agg.to_string(), "x 2\n");
}

#[test]
fn empty_then_data_push_scenario() {
    let mut agg = Aggregator::new();
    assert!(agg
        .parse_and_merge(
            "# HELP c_total counts\n# TYPE c_total counter\n",
            &Vec::new(),
        )
        .is_ok());
    assert!(agg
        .parse_and_merge(
            "# HELP c_total counts\n# TYPE c_total counter\nc_total 1\n",
            &Vec::new(),
        )
        .is_ok());
}

#[test]
fn float_counter_aggregate() {
    let mut agg = Aggregator::new();
    agg.parse_and_merge("x 1.5\n", &Vec::new()).unwrap();
    agg.parse_and_merge("x 1.25\n", &Vec::new()).unwrap();
    assert_eq!(agg.to_string(), "x 2.75\n");
}

#[test]
fn gauge_replace_by_default() {
    let mut agg = Aggregator::new();
    agg.parse_and_merge("# TYPE g gauge\ng 4\n", &Vec::new()).unwrap();
    agg.parse_and_merge("# TYPE g gauge\ng 9\n", &Vec::new()).unwrap();
    assert_eq!(agg.to_string(), "# TYPE g gauge\ng 9\n");
}

#[test]
fn histogram_sum_absent_when_any_push_lacks_it() {
    let mut agg = Aggregator::new();
    agg.parse_and_merge(
        "# TYPE h histogram\nh_bucket{le=\"1\"} 1\nh_bucket{le=\"+Inf\"} 2\nh_sum 3\nh_count 2\n",
        &Vec::new(),
    )
    .unwrap();
    agg.parse_and_merge(
        "# TYPE h histogram\nh_bucket{le=\"1\"} 1\nh_bucket{le=\"+Inf\"} 1\n",
        &Vec::new(),
    )
    .unwrap();
    let out = agg.to_string();
    assert!(out.contains("h_bucket{le=\"1\"} 2\n"), "unexpected output: {}", out);
    assert!(out.contains("h_bucket{le=\"+Inf\"} 3\n"), "unexpected output: {}", out);
    assert!(!out.contains("h_sum"), "sum should be absent: {}", out);
}

#[test]
fn clearmode_never_rendered() {
    let mut agg = Aggregator::new();
    agg.parse_and_merge("a{clearmode=\"sum\"} 1\n", &Vec::new()).unwrap();
    agg.parse_and_merge("b{clearmode=\"family\",k=\"v\"} 2\n", &Vec::new()).unwrap();
    agg.parse_and_merge("c{clearmode=\"sum10s\"} 3\n", &Vec::new()).unwrap();
    let out = agg.to_string();
    assert!(!out.contains("clearmode"), "control label leaked: {}", out);
}

#[test]
fn decode_url_labels_cases() {
    let ls = decode_url_labels("job/foo").unwrap();
    assert_eq!(ls.len(), 1);
    assert_eq!(ls[0].name, "job");
    assert_eq!(ls[0].value, "foo");

    let ls = decode_url_labels("job/a%3Ab/env/prod").unwrap();
    assert_eq!(ls.len(), 2);
    assert_eq!(ls[0].value, "a:b");
    assert_eq!(ls[1].name, "env");

    // A missing value is an error.
    assert!(decode_url_labels("job").is_err());

    // An empty name ends the walk.
    let ls = decode_url_labels("").unwrap();
    assert_eq!(ls.len(), 0);

    // A repeated name keeps the later value.
    let ls = decode_url_labels("job/a/job/b").unwrap();
    assert_eq!(ls.len(), 1);
    assert_eq!(ls[0].value, "b");
}

#[test]
fn parse_error_reported() {
    let mut agg = Aggregator::new();
    let r = agg.parse_and_merge("this is { not an exposition", &Vec::new());
    assert!(matches!(r, Err(AggregationError::ParseError(_))));
    assert_eq!(agg.to_string(), "");
}

#[test]
fn undecodable_segments_rejected() {
    assert_eq!(decode_url_labels("%ff/x").unwrap_err(), TailError::InvalidLabelName);
    assert_eq!(decode_url_labels("x/%ff").unwrap_err(), TailError::InvalidLabelValue);
}

#[test]
fn special_floats_render_by_name() {
    let mut agg = Aggregator::new();
    agg.parse_and_merge("x +Inf
", &Vec::new()).unwrap();
    assert_eq!(agg.to_string(), "x +Inf
");
}

#[test]
fn pebble_seeds_from_integer_scalar() {
    let mut agg = Aggregator::new();
    agg.parse_and_merge("c{clearmode=\"sum10s\"} 3
", &Vec::new()).unwrap();
    assert_eq!(agg.to_string(), "c 3
");
}

#[test]
fn bucket_merge_interleaves_by_bound() {
    let mut agg = Aggregator::new();
    agg.parse_and_merge(
        "# TYPE h histogram
h_bucket{le=\"1\"} 1
h_bucket{le=\"+Inf\"} 1
h_sum 1
h_count 1
",
        &Vec::new(),
    )
    .unwrap();
    agg.parse_and_merge(
        "# TYPE h histogram
h_bucket{le=\"2\"} 1
h_bucket{le=\"+Inf\"} 1
h_sum 2
h_count 1
",
        &Vec::new(),
    )
    .unwrap();
    let out = agg.to_string();
    let b1 = out.find("le=\"1\"").unwrap();
    let b2 = out.find("le=\"2\"").unwrap();
    let binf = out.find("le=\"+Inf\"").unwrap();
    assert!(b1 < b2 && b2 < binf, "buckets out of order: {}", out);
    assert!(out.contains("h_bucket{le=\"+Inf\"} 2
"), "inf bucket not merged: {}", out);
    assert!(out.contains("h_sum 3
"), "sums not added: {}", out);
}

#[test]
fn extra_labels_win_over_pushed_ones() {
    let mut agg = Aggregator::new();
    let extra = vec![Label { name: String::from("job"), value: String::from("gw") }];
    agg.parse_and_merge("m{job=\"pushed\"} 1\n", &extra).unwrap();
    assert_eq!(agg.to_string(), "m{job=\"gw\"} 1\n");
}
