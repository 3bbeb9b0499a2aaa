use metrics_sidecar::container::ContainerDescriptor;
use metrics_sidecar::exporter::ContainerProbe;
use metrics_sidecar::exporter::ExportError;
use metrics_sidecar::exporter::ServiceMetricsExporter;
use metrics_sidecar::exporter::probe_contribution;

fn descriptor(id: &str, labels: &[(&str, &str)]) -> ContainerDescriptor {
    ContainerDescriptor {
        id: id.to_string(),
        labels: labels.iter().map(|(k, v)| (k.to_string(), v.to_string())).collect(),
    }
}

fn probe(name: &str, exit_code: Option<i64>, output: Option<&str>) -> ContainerProbe {
    ContainerProbe {
        name: name.to_string(),
        exit_code,
        output: output.map(|s| s.to_string()),
    }
}

#[test]
fn display_name_comes_from_well_known_label() {
    let c = descriptor("c1", &[("com.amazonaws.ecs.container-name", "web"), ("other", "x")]);
    assert_eq!(c.display_name(), "web");
}

#[test]
fn display_name_falls_back_without_the_label() {
    let c = descriptor("c1", &[("some.other.label", "x")]);
    assert_eq!(c.display_name(), "unknown-service");
}

#[test]
fn display_name_falls_back_on_empty_label_set() {
    let c = descriptor("c1", &[]);
    assert_eq!(c.display_name(), "unknown-service");
}

#[test]
fn curl_command_uses_label_override() {
    let exporter = ServiceMetricsExporter::new("has_metrics".to_string());
    let c = descriptor("c1", &[("has_metrics", "8080/stats")]);
    let cmd = exporter.curl_command_for_container(&c);
    assert_eq!(cmd, vec!["/bin/curl", "-s", "http://localhost:8080/stats"]);
}

#[test]
fn curl_command_uses_default_port_path() {
    let exporter = ServiceMetricsExporter::new("has_metrics".to_string());
    let c = descriptor("c1", &[("unrelated", "x")]);
    let cmd = exporter.curl_command_for_container(&c);
    assert_eq!(cmd, vec!["/bin/curl", "-s", "http://localhost:9100/metrics"]);
}

#[test]
fn successful_probe_contributes_relabeled_output() {
    let p = probe("web", Some(0), Some("up 1\n"));
    assert_eq!(probe_contribution(&p), Some("up{container_name=web} 1\n".to_string()));
}

#[test]
fn nonzero_exit_contributes_nothing() {
    let p = probe("web", Some(7), Some("up 1\n"));
    assert_eq!(probe_contribution(&p), None);
}

#[test]
fn missing_exit_status_contributes_nothing() {
    let p = probe("web", None, Some("up 1\n"));
    assert_eq!(probe_contribution(&p), None);
}

#[test]
fn missing_output_stream_contributes_nothing() {
    let p = probe("web", Some(0), None);
    assert_eq!(probe_contribution(&p), None);
}

#[test]
fn empty_output_contributes_nothing() {
    let p = probe("web", Some(0), Some(""));
    assert_eq!(probe_contribution(&p), None);
}

#[test]
fn zero_containers_yield_empty_payload() {
    let exporter = ServiceMetricsExporter::new("has_metrics".to_string());
    let r = exporter.get_combined_metrics_from_all_containers(Some(vec![]));
    assert_eq!(r, Some(String::new()));
}

#[test]
fn one_failure_among_many_keeps_the_others() {
    let exporter = ServiceMetricsExporter::new("has_metrics".to_string());
    let probes = vec![
        probe("web", Some(0), Some("up 1\n")),
        probe("db", Some(1), Some("up 1\n")),
        probe("api", Some(0), Some("x 2")),
    ];
    let with_failure = exporter.get_combined_metrics_from_all_containers(Some(probes));
    let without = exporter.get_combined_metrics_from_all_containers(Some(vec![
        probe("web", Some(0), Some("up 1\n")),
        probe("api", Some(0), Some("x 2")),
    ]));
    assert_eq!(
        with_failure,
        Some("up{container_name=web} 1\nx{container_name=api} 2".to_string())
    );
    assert_eq!(with_failure, without);
}

#[test]
fn discovery_failure_yields_no_payload() {
    let exporter = ServiceMetricsExporter::new("has_metrics".to_string());
    assert_eq!(exporter.get_combined_metrics_from_all_containers(None), None);
}

#[test]
fn export_metrics_reports_discovery_failure() {
    let exporter = ServiceMetricsExporter::new("has_metrics".to_string());
    assert_eq!(exporter.export_metrics(None), Err(ExportError::DiscoveryFailed));
}

#[test]
fn export_metrics_returns_merged_payload() {
    let exporter = ServiceMetricsExporter::new("has_metrics".to_string());
    let probes = vec![probe("web", Some(0), Some("up 1")), probe("api", Some(0), Some("ok 1"))];
    let r = exporter.export_metrics(Some(probes));
    assert_eq!(r, Ok("up{container_name=web} 1ok{container_name=api} 1".to_string()));
}

#[test]
fn export_metrics_succeeds_on_zero_containers() {
    let exporter = ServiceMetricsExporter::new("has_metrics".to_string());
    assert_eq!(exporter.export_metrics(Some(vec![])), Ok(String::new()));
}
