use kaseeder::logging::{HealthStatus, LoggingConfig};
use kaseeder::profiling::{ProfilingServer, VERSION};

#[test]
fn test_logging_config_default() {
    let config = LoggingConfig::default();
    assert_eq!(config.level, "info");
    assert!(!config.no_log_files);
    assert_eq!(config.log_dir, "logs");
    assert_eq!(config.max_file_size_mb, 100);
    assert_eq!(config.max_files, 5);
    assert!(config.console_output);
    assert!(!config.json_format);
}

#[test]
fn test_health_status() {
    let mut health = HealthStatus::new();
    assert!(health.is_healthy);
    assert!(health.issues.is_empty());

    health.add_issue("Test issue".to_string());
    assert!(!health.is_healthy);
    assert_eq!(health.issues.len(), 1);
    assert_eq!(health.issues[0], "Test issue");

    health.clear_issues();
    assert!(health.is_healthy);
    assert!(health.issues.is_empty());
}

#[test]
fn uptime_counts_from_start() {
    let mut health = HealthStatus::new();
    health.update_uptime(100, 160);
    assert_eq!(health.uptime_seconds, 60);
    health.update_uptime(200, 160);
    assert_eq!(health.uptime_seconds, 60);
}

#[test]
fn test_profiling_server_creation() {
    let server = ProfilingServer::new();
    assert!(server.contains_key("version"));
    assert!(server.contains_key("start_time"));
}

#[test]
fn test_stats_contains_required_fields() {
    let server = ProfilingServer::new();
    assert!(server.contains_key("version"));
    assert!(server.contains_key("start_time"));
    assert_eq!(server.get("version").unwrap(), VERSION);
    assert_eq!(VERSION, "0.1.0");
    assert!(!server.contains_key("missing"));
    assert!(server.get("start_time").unwrap().contains('T'));
}
