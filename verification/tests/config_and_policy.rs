use tiny_researcher::config::{parse_string_array, AppConfig};
use std::path::Path;
use tiny_researcher::doctor::run_doctor;
use tiny_researcher::runtime::validator::{endpoint_host, host_part, is_local_host, validate_startup};
use tiny_researcher::telemetry::Telemetry;
use tiny_researcher::tools::{enforce_offline_policy, FetchAdapter, RagAdapter, SearchAdapter, ToolAdapter};

fn strings(items: &[&str]) -> Vec<String> {
    items.iter().map(|s| s.to_string()).collect()
}

fn files_present(cfg: &AppConfig) -> Vec<bool> {
    cfg.model_files.iter().map(|p| Path::new(p).exists()).collect()
}

#[test]
fn default_config_allows_loopback_and_networking() {
    let cfg = AppConfig::default();
    assert!(cfg.network_enabled);
    assert_eq!(cfg.allowed_hosts, strings(&["127.0.0.1", "localhost"]));
    assert!(cfg.endpoints.is_empty());
    assert!(cfg.model_files.is_empty());
    assert!(!cfg.remote_api_keys_required);
}

#[test]
fn parses_every_key_and_ignores_comments_and_unknown_lines() {
    let text = "# offline profile\n\
                network_enabled = false\n\
                \n\
                allowed_hosts = [\"localhost\", \"10.0.0.2\"]\r\n\
                endpoints = [\"http://localhost:8080/api\"]\n\
                   model_files = [ \"models/a.gguf\" , \"\" ]  \n\
                remote_api_keys_required = true\n\
                unknown_key = 3\n";
    let cfg = AppConfig::from_toml_text(text);
    assert!(!cfg.network_enabled);
    assert_eq!(cfg.allowed_hosts, strings(&["localhost", "10.0.0.2"]));
    assert_eq!(cfg.endpoints, strings(&["http://localhost:8080/api"]));
    assert_eq!(cfg.model_files, strings(&["models/a.gguf"]));
    assert!(cfg.remote_api_keys_required);
}

#[test]
fn empty_text_gives_defaults_and_later_lines_win() {
    let cfg = AppConfig::from_toml_text("");
    assert!(cfg.network_enabled);
    assert_eq!(cfg.allowed_hosts, strings(&["127.0.0.1", "localhost"]));

    let cfg = AppConfig::from_toml_text("network_enabled = false\nnetwork_enabled = true\nnetwork_enabled=yes");
    assert!(!cfg.network_enabled);

    let cfg = AppConfig::from_toml_text("allowed_hosts\n");
    assert!(cfg.allowed_hosts.is_empty());

    let cfg = AppConfig::from_toml_text("# network_enabled = false\nremote_api_keys_required = true = false");
    assert!(cfg.network_enabled);
    assert!(cfg.remote_api_keys_required);
}

#[test]
fn string_arrays_are_trimmed_unquoted_and_filtered() {
    assert_eq!(parse_string_array(" [ \"a\" , \"b\",, \"\" ] "), strings(&["a", "b"]));
    assert_eq!(parse_string_array("[[x]]"), strings(&["x"]));
    assert_eq!(parse_string_array("\"\"\"q\"\"\""), strings(&["q"]));
    assert_eq!(parse_string_array(""), Vec::<String>::new());
    assert_eq!(parse_string_array("[one,two three]"), strings(&["one", "two three"]));
}

#[test]
fn host_part_reads_between_scheme_and_path_and_port() {
    assert_eq!(host_part("https://example.com/api"), Some("example.com".to_string()));
    assert_eq!(host_part("http://localhost:8080/x"), Some("localhost".to_string()));
    assert_eq!(host_part("http://h//more"), Some("h".to_string()));
    assert_eq!(host_part("localhost:8080"), None);
    assert_eq!(host_part("file:///tmp"), Some("".to_string()));
}

#[test]
fn loopback_names_are_always_local() {
    assert!(is_local_host("localhost", &[]));
    assert!(is_local_host("127.0.0.1", &[]));
    assert!(is_local_host("::1", &[]));
    assert!(!is_local_host("10.0.0.2", &[]));
    assert!(is_local_host("10.0.0.2", &strings(&["10.0.0.2"])));
    assert!(!is_local_host("example.com", &strings(&["localhost"])));
}

#[test]
fn startup_validation_messages() {
    let online = AppConfig {
        endpoints: strings(&["https://example.com/api"]),
        ..Default::default()
    };
    assert!(validate_startup(&online).is_ok());

    let offline_local = AppConfig {
        network_enabled: false,
        endpoints: strings(&["http://localhost:11434/infer", "http://10.0.0.2/x"]),
        allowed_hosts: strings(&["10.0.0.2"]),
        ..Default::default()
    };
    assert!(validate_startup(&offline_local).is_ok());

    let invalid = AppConfig {
        network_enabled: false,
        endpoints: strings(&["localhost:8080", "https://example.com"]),
        ..Default::default()
    };
    assert_eq!(validate_startup(&invalid), Err("invalid endpoint URL: localhost:8080".to_string()));

    let remote = AppConfig {
        network_enabled: false,
        endpoints: strings(&["http://127.0.0.1/ok", "https://example.com:443/api"]),
        ..Default::default()
    };
    assert_eq!(
        validate_startup(&remote),
        Err("offline mode forbids non-local endpoint: https://example.com:443/api (host=example.com)".to_string())
    );
}

#[test]
fn doctor_reports_each_problem_in_order() {
    let none = AppConfig::default();
    assert_eq!(run_doctor(&none, &[]), Err("doctor failed: no model files configured".to_string()));

    let cfg = AppConfig {
        model_files: strings(&["a.gguf", "b.gguf"]),
        remote_api_keys_required: true,
        endpoints: strings(&["https://example.com"]),
        ..Default::default()
    };
    assert_eq!(
        run_doctor(&cfg, &[true, false]),
        Err("doctor failed: model file does not exist: b.gguf".to_string())
    );
    assert_eq!(
        run_doctor(&cfg, &[true, true]),
        Err("doctor failed: remote API keys are required".to_string())
    );
    let cfg = AppConfig { remote_api_keys_required: false, ..cfg };
    assert_eq!(
        run_doctor(&cfg, &[true, true]),
        Err("doctor failed: endpoint is non-local: https://example.com".to_string())
    );
    let cfg = AppConfig { endpoints: strings(&["http://localhost:1/x"]), ..cfg };
    assert_eq!(run_doctor(&cfg, &[true, true]), Ok(()));
}

#[test]
fn doctor_checks_files_on_disk() {
    let missing = AppConfig {
        model_files: vec!["./no-such-model-file.gguf".to_string()],
        ..Default::default()
    };
    assert_eq!(
        run_doctor(&missing, &files_present(&missing)),
        Err("doctor failed: model file does not exist: ./no-such-model-file.gguf".to_string())
    );
    let present = AppConfig {
        model_files: vec!["/".to_string()],
        ..Default::default()
    };
    assert_eq!(run_doctor(&present, &files_present(&present)), Ok(()));
}

#[test]
fn allowed_requests_are_not_counted() {
    let mut telemetry = Telemetry::default();
    let hosts = strings(&["localhost"]);
    assert!(enforce_offline_policy("http://localhost:9/x", false, &hosts, &mut telemetry).is_ok());
    assert!(enforce_offline_policy("https://example.org", true, &hosts, &mut telemetry).is_ok());
    assert_eq!(telemetry.blocked_network_attempts(), 0);
    assert_eq!(
        enforce_offline_policy("no-scheme", false, &hosts, &mut telemetry),
        Err("blocked external request in offline mode: no-scheme".to_string())
    );
    assert_eq!(telemetry.blocked_network_attempts(), 1);
}

#[test]
fn every_adapter_applies_the_same_policy() {
    let mut telemetry = Telemetry::default();
    let fetch = FetchAdapter { network_enabled: false, allowed_hosts: strings(&["docs.local"]) };
    let rag = RagAdapter { network_enabled: false, allowed_hosts: strings(&["docs.local"]) };
    let search = SearchAdapter { network_enabled: true, allowed_hosts: vec![] };
    assert!(fetch.send("http://docs.local/page", &mut telemetry).is_ok());
    assert!(rag.send("https://remote.example/x", &mut telemetry).is_err());
    assert!(fetch.send("https://remote.example/y", &mut telemetry).is_err());
    assert!(search.send("https://remote.example/z", &mut telemetry).is_ok());
    assert_eq!(telemetry.blocked_network_attempts(), 2);
    telemetry.increment_blocked_network_attempts();
    assert_eq!(telemetry.blocked_network_attempts(), 3);
}

#[test]
fn endpoint_host_needs_a_named_host() {
    assert_eq!(endpoint_host("https://x.com:8/a"), Ok("x.com".to_string()));
    assert_eq!(endpoint_host("http:///x"), Err("invalid endpoint URL: http:///x".to_string()));
    assert_eq!(endpoint_host("x.com"), Err("invalid endpoint URL: x.com".to_string()));
}

#[test]
fn a_doctor_pass_means_startup_passes_and_adapters_allow_the_endpoints() {
    let cfg = AppConfig {
        network_enabled: false,
        model_files: strings(&["m.gguf"]),
        allowed_hosts: strings(&["gpu-box"]),
        endpoints: strings(&["http://gpu-box:8000/v1", "http://127.0.0.1/x"]),
        ..Default::default()
    };
    assert_eq!(run_doctor(&cfg, &[true]), Ok(()));
    assert_eq!(validate_startup(&cfg), Ok(()));
    let mut telemetry = Telemetry::default();
    for e in &cfg.endpoints {
        assert!(enforce_offline_policy(e, cfg.network_enabled, &cfg.allowed_hosts, &mut telemetry).is_ok());
    }
    assert_eq!(telemetry.blocked_network_attempts(), 0);

    // An empty allowed name lets the doctor accept a URL without a host,
    // which startup validation refuses.
    let odd = AppConfig { allowed_hosts: strings(&[""]), endpoints: strings(&["no-host"]), ..cfg };
    assert_eq!(run_doctor(&odd, &[true]), Ok(()));
    assert_eq!(validate_startup(&odd), Err("invalid endpoint URL: no-host".to_string()));
}
