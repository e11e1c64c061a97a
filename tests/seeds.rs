use kaseeder::config::NetworkParams;
use kaseeder::dns_seed_config::DnsSeedConfig;
use kaseeder::dns_seed_discovery::DnsSeedDiscovery;
use kaseeder::net::{IpAddress, NetAddress};

#[test]
fn test_dns_seed_config() {
    let config = DnsSeedConfig::default();

    assert!(!config.get_mainnet_servers().is_empty());
    assert!(config.get_mainnet_servers().contains(&"seeder1.kaspad.net".to_string()));

    let testnet_10 = config.get_testnet_servers(10);
    assert!(testnet_10.is_some());
    assert!(!testnet_10.unwrap().is_empty());

    let testnet_11 = config.get_testnet_servers(11);
    assert!(testnet_11.is_some());
    assert!(!testnet_11.unwrap().is_empty());
}

#[test]
fn test_add_remove_servers() {
    let mut config = DnsSeedConfig::default();
    let original_count = config.get_mainnet_servers().len();

    config.add_mainnet_server("test.example.com".to_string());
    assert_eq!(config.get_mainnet_servers().len(), original_count + 1);
    assert!(config.get_mainnet_servers().contains(&"test.example.com".to_string()));

    config.remove_mainnet_server("test.example.com");
    assert_eq!(config.get_mainnet_servers().len(), original_count);
    assert!(!config.get_mainnet_servers().contains(&"test.example.com".to_string()));
}

#[test]
fn test_get_dns_seeders() {
    let mainnet_params = NetworkParams::Mainnet { default_port: 16111 };
    let mainnet_servers = DnsSeedDiscovery::get_dns_seeders_from_network_params(&mainnet_params);
    assert!(!mainnet_servers.is_empty());
    assert!(mainnet_servers.contains(&"seeder1.kaspad.net".to_string()));
    assert!(mainnet_servers.contains(&"seeder1.kaspad.net".to_string()));

    let testnet_params = NetworkParams::Testnet { suffix: 10, default_port: 16211 };
    let testnet_servers = DnsSeedDiscovery::get_dns_seeders_from_network_params(&testnet_params);
    println!("Testnet servers: {:?}", testnet_servers);
    assert!(!testnet_servers.is_empty());
    assert!(testnet_servers.contains(&"seed10.testnet.kaspa.org".to_string()));
}

#[test]
fn adding_a_known_seed_twice_keeps_one() {
    let mut config = DnsSeedConfig::default();
    let n = config.get_mainnet_servers().len();
    config.add_mainnet_server("seeder1.kaspad.net".to_string());
    assert_eq!(config.get_mainnet_servers().len(), n);
}

#[test]
fn testnet_seed_entries() {
    let mut config = DnsSeedConfig::default();
    assert!(config.get_testnet_servers(12).is_none());
    config.add_testnet_server(12, "a.example.com".to_string());
    config.add_testnet_server(12, "a.example.com".to_string());
    assert_eq!(config.get_testnet_servers(12).unwrap().len(), 1);
    config.remove_testnet_server(12, "a.example.com");
    assert_eq!(config.get_testnet_servers(12).unwrap().len(), 0);
    config.remove_testnet_server(10, "seed.testnet.kaspa.org");
    assert_eq!(config.get_testnet_servers(10).unwrap(), &["seed1-testnet.kaspad.net".to_string()]);
}

#[test]
fn resolved_seeds_take_default_port_and_are_filtered() {
    let ips = vec![
        IpAddress::V4(1, 2, 3, 4),
        IpAddress::V4(127, 0, 0, 1),
        IpAddress::V4(1, 2, 3, 4),
        IpAddress::V4(230, 0, 0, 1),
        IpAddress::V6(0, 0, 0, 0, 0, 0, 0, 1),
        IpAddress::V6(0x2a01, 0, 0, 0, 0, 0, 0, 5),
    ];
    let candidates = DnsSeedDiscovery::seed_addresses(&ips, 16111);
    assert_eq!(candidates.len(), 6);
    assert!(candidates.iter().all(|a| a.port == 16111));
    let kept = DnsSeedDiscovery::deduplicate_and_filter_addresses(candidates);
    assert_eq!(
        kept,
        vec![
            NetAddress::new(IpAddress::V4(1, 2, 3, 4), 16111),
            NetAddress::new(IpAddress::V6(0x2a01, 0, 0, 0, 0, 0, 0, 5), 16111),
        ]
    );
}
