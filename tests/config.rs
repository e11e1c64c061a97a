use kaseeder::config::{CliOverrides, Config, ConfigFile, NetworkParams};

#[test]
fn test_config_creation() {
    let config = Config::new();
    assert_eq!(config.host, "seed.kaspa.org");
    assert_eq!(config.threads, 8);
    assert!(!config.testnet);
    assert_eq!(config.listen, "127.0.0.1:5354");
    assert_eq!(config.grpc_listen, "127.0.0.1:3737");
}

#[test]
fn test_network_params() {
    let config = Config::new();
    let params = config.network_params();
    assert_eq!(params.default_port(), 16111);

    let mut testnet_config = Config::new();
    testnet_config.testnet = true;
    testnet_config.net_suffix = 10;
    let testnet_params = testnet_config.network_params();
    assert_eq!(testnet_params.default_port(), 16211);
}

#[test]
fn test_network_name() {
    let config = Config::new();
    assert_eq!(config.network_name(), "kaspa-mainnet");

    let mut testnet_config = Config::new();
    testnet_config.testnet = true;
    testnet_config.net_suffix = 11;
    assert_eq!(testnet_config.network_name(), "kaspa-testnet-11");
}

#[test]
fn test_cli_overrides() {
    let config = Config::new();
    let overrides = CliOverrides {
        host: Some("test.kaspa.org".to_string()),
        threads: Some(16),
        testnet: Some(true),
        ..Default::default()
    };

    let modified_config = config.with_cli_overrides(overrides).unwrap();
    assert_eq!(modified_config.host, "test.kaspa.org");
    assert_eq!(modified_config.threads, 16);
    assert!(modified_config.testnet);
}

#[test]
fn test_config_validation() {
    let config = Config::new();
    assert!(config.validate().is_ok());

    let mut invalid_config = Config::new();
    invalid_config.threads = 0;
    assert!(invalid_config.validate().is_err());

    let mut invalid_config = Config::new();
    invalid_config.listen = "invalid-address".to_string();
    assert!(invalid_config.validate().is_err());

    let mut invalid_config = Config::new();
    invalid_config.log_level = "invalid-level".to_string();
    assert!(invalid_config.validate().is_err());
}

#[test]
fn test_address_validation() {
    let config = Config::new();

    assert!(config.validate_address("127.0.0.1", "test").is_ok());
    assert!(config.validate_address("127.0.0.1:8080", "test").is_ok());
    assert!(config.validate_address("::1", "test").is_ok());
    assert!(config.validate_address("[::1]:8080", "test").is_ok());

    assert!(config.validate_address("invalid-ip", "test").is_err());
    assert!(config.validate_address("127.0.0.1:invalid-port", "test").is_err());
}

#[test]
fn test_port_validation() {
    let config = Config::new();

    assert!(config.validate_port("8080", "test").is_ok());
    assert!(config.validate_port("1", "test").is_ok());
    assert!(config.validate_port("65535", "test").is_ok());

    assert!(config.validate_port("0", "test").is_err());
    assert!(config.validate_port("invalid", "test").is_err());
    assert!(config.validate_port("70000", "test").is_err());
}

#[test]
fn test_log_level_validation() {
    let config = Config::new();

    assert!(config.validate_log_level("trace").is_ok());
    assert!(config.validate_log_level("debug").is_ok());
    assert!(config.validate_log_level("info").is_ok());
    assert!(config.validate_log_level("warn").is_ok());
    assert!(config.validate_log_level("error").is_ok());

    assert!(config.validate_log_level("invalid").is_err());
    assert!(config.validate_log_level("").is_err());
}

#[test]
fn log_level_ignores_case() {
    let config = Config::new();
    assert!(config.validate_log_level("INFO").is_ok());
    assert!(config.validate_log_level("Warn").is_ok());
}

#[test]
fn testnet_ports_and_suffixes() {
    let mut c = Config::new();
    c.testnet = true;
    c.net_suffix = 11;
    assert_eq!(c.default_port(), 16311);
    assert!(matches!(c.network_params(), NetworkParams::Testnet { suffix: 11, default_port: 16311 }));
    assert!(c.validate().is_ok());
    c.net_suffix = 10;
    assert!(c.validate().is_ok());
    c.net_suffix = 12;
    assert!(c.validate().is_err());
    assert_eq!(c.network_name(), "kaspa-testnet");
}

#[test]
fn threads_bounds() {
    let mut c = Config::new();
    c.threads = 32;
    assert!(c.validate().is_ok());
    c.threads = 33;
    assert!(c.validate().is_err());
    c.threads = 1;
    assert!(c.validate().is_ok());
}

#[test]
fn profile_port_bounds() {
    let c = Config::new();
    assert!(c.validate_profile_port("1024", "profile").is_ok());
    assert!(c.validate_profile_port("1023", "profile").is_err());
    assert!(c.validate_profile_port("65536", "profile").is_err());
    assert!(c.validate_profile_port("abc", "profile").is_err());
}

#[test]
fn peer_list_validation() {
    let c = Config::new();
    assert!(c.validate_peer_list("1.2.3.4:16111, 2.3.4.5:16111").is_ok());
    assert!(c.validate_peer_list("1.2.3.4:16111,,").is_ok());
    assert!(c.validate_peer_list("1.2.3.4:0").is_ok());
    assert!(c.validate_peer_list("bad:port").is_err());
    assert!(c.validate_peer_list("nodots").is_err());
}

#[test]
fn hostname_addresses() {
    let c = Config::new();
    assert!(c.validate_address("seed.kaspa.org", "seeder").is_ok());
    assert!(c.validate_address("seed.kaspa.org:16111", "seeder").is_ok());
    assert!(c.validate_address(".kaspa.org", "seeder").is_err());
    assert!(c.validate_address("kaspa.org.", "seeder").is_err());
    assert!(c.validate_address("seed:0", "seeder").is_err());
}

#[test]
fn empty_host_is_rejected() {
    let mut c = Config::new();
    c.host = String::new();
    assert!(c.validate().is_err());
}

fn empty_file() -> ConfigFile {
    ConfigFile {
        host: None,
        nameserver: None,
        listen: None,
        grpc_listen: None,
        app_dir: None,
        seeder: None,
        known_peers: None,
        threads: None,
        min_proto_ver: None,
        min_ua_ver: None,
        testnet: None,
        net_suffix: None,
        log_level: None,
        nologfiles: None,
        error_log_file: None,
        profile: None,
        peers: None,
        default_seeder: None,
    }
}

#[test]
fn file_values_override_defaults() {
    let mut f = empty_file();
    f.host = Some("test.kaspa.org".to_string());
    f.peers = Some("1.2.3.4:16111".to_string());
    f.threads = Some(4);
    let c = Config::load_from_file(f).unwrap();
    assert_eq!(c.host, "test.kaspa.org");
    assert_eq!(c.known_peers, Some("1.2.3.4:16111".to_string()));
    assert_eq!(c.threads, 4);
    assert_eq!(c.nameserver, "ns1.kaspa.org");

    let mut bad = empty_file();
    bad.threads = Some(0);
    assert!(Config::load_from_file(bad).is_err());
}
