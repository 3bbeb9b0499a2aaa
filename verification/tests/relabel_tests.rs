use metrics_sidecar::payload::relabel_metrics_payload;
use metrics_sidecar::relabel::add_service_name_to_metric_line;

#[test]
fn plain_sample_gets_synthesized_label_block() {
    let r = add_service_name_to_metric_line("up 1", "web");
    assert_eq!(r, "up{container_name=web} 1");
}

#[test]
fn labeled_sample_gets_identity_first_in_block() {
    let r = add_service_name_to_metric_line("http_requests_total{method=\"GET\"} 42", "api");
    assert_eq!(r, "http_requests_total{container_name=api,method=\"GET\"} 42");
}

#[test]
fn comment_line_is_unchanged() {
    let line = "# HELP up Was the last scrape successful";
    let r = add_service_name_to_metric_line(line, "web");
    assert_eq!(r, line);
}

#[test]
fn indented_comment_line_is_unchanged() {
    let line = "\t # TYPE up gauge";
    let r = add_service_name_to_metric_line(line, "web");
    assert_eq!(r, line);
}

#[test]
fn comment_containing_braces_is_unchanged() {
    let line = "# a comment about foo{bar} 1";
    let r = add_service_name_to_metric_line(line, "web");
    assert_eq!(r, line);
}

#[test]
fn empty_line_is_unchanged() {
    let r = add_service_name_to_metric_line("", "web");
    assert_eq!(r, "");
}

#[test]
fn whitespace_only_line_is_unchanged() {
    let r = add_service_name_to_metric_line("   \t ", "web");
    assert_eq!(r, "   \t ");
}

#[test]
fn line_without_space_or_brace_is_unchanged() {
    let line = "weird_metric_no_value";
    let r = add_service_name_to_metric_line(line, "web");
    assert_eq!(r, line);
}

#[test]
fn brace_wins_over_earlier_space() {
    let r = add_service_name_to_metric_line("a b{c=\"d\"} 1", "x");
    assert_eq!(r, "a b{container_name=x,c=\"d\"} 1");
}

#[test]
fn sample_with_several_spaces_splits_at_first() {
    let r = add_service_name_to_metric_line("up 1 2", "web");
    assert_eq!(r, "up{container_name=web} 1 2");
}

#[test]
fn payload_relabels_every_line_and_keeps_order() {
    let payload = "# HELP up Was the last scrape successful\nup 1\nhttp_requests_total{method=\"GET\"} 42\n";
    let r = relabel_metrics_payload(payload, "web");
    assert_eq!(
        r,
        "# HELP up Was the last scrape successful\nup{container_name=web} 1\nhttp_requests_total{container_name=web,method=\"GET\"} 42\n"
    );
}

#[test]
fn payload_without_trailing_newline_keeps_last_line() {
    let r = relabel_metrics_payload("up 1\ndown 0", "db");
    assert_eq!(r, "up{container_name=db} 1\ndown{container_name=db} 0");
}

#[test]
fn empty_payload_stays_empty() {
    let r = relabel_metrics_payload("", "web");
    assert_eq!(r, "");
}
