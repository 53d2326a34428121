use std::path::Path;

use tiny_researcher::config::AppConfig;
use tiny_researcher::doctor::run_doctor;
use tiny_researcher::runtime::validator::validate_startup;
use tiny_researcher::telemetry::Telemetry;
use tiny_researcher::tools::{SearchAdapter, ToolAdapter};

#[test]
fn doctor_rejects_remote_api_keys() {
    let cfg = AppConfig {
        remote_api_keys_required: true,
        model_files: vec!["./Cargo.toml".to_string()],
        ..Default::default()
    };

    let present: Vec<bool> = cfg.model_files.iter().map(|p| Path::new(p).exists()).collect();
    assert!(run_doctor(&cfg, &present).is_err());
}

#[test]
fn offline_mode_rejects_non_local_endpoints() {
    let cfg = AppConfig {
        network_enabled: false,
        allowed_hosts: vec!["localhost".to_string()],
        endpoints: vec!["https://example.com/api".to_string()],
        ..Default::default()
    };

    assert!(validate_startup(&cfg).is_err());
}

#[test]
fn blocks_external_adapter_requests_and_counts_them() {
    let mut telemetry = Telemetry::default();
    let adapter = SearchAdapter {
        network_enabled: false,
        allowed_hosts: vec!["localhost".to_string()],
    };

    let err = adapter.send("https://example.org", &mut telemetry);
    assert!(err.is_err());
    assert_eq!(telemetry.blocked_network_attempts(), 1);
}
