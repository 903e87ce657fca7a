//! Configuration defaults and unit conversions.

use vpn_core::config::client::{default_tun_config, default_tun_up, ClientConfig};
use vpn_core::config::server::{
    default_client_timeout_secs, default_listen_port, default_log_level, default_max_clients,
    default_mtu, default_tun_name, LogConfig, ServerConfig,
};
use vpn_core::creds::Credentials;

#[test]
fn client_tun_defaults() {
    let tun = default_tun_config();
    assert_eq!(tun.name, "tun0");
    assert_eq!(tun.address, [10, 0, 0, 1]);
    assert_eq!(tun.netmask, [255, 255, 255, 0]);
    assert_eq!(tun.mtu, Some(1500));
    assert!(tun.up);
    assert!(default_tun_up());
}

#[test]
fn server_defaults() {
    let config = ServerConfig::default();
    assert_eq!(config.listen_address, [0, 0, 0, 0]);
    assert_eq!(config.listen_port, 51820);
    assert_eq!(config.max_clients, 10);
    assert_eq!(config.client_timeout_secs, 30);
    assert!(config.client_credentials.is_empty());
    assert_eq!(config.tun_interface.name, "tun0");
    assert_eq!(config.tun_interface.address, [10, 0, 0, 1]);
    assert_eq!(config.tun_interface.netmask, [255, 255, 255, 0]);
    assert_eq!(config.tun_interface.mtu, 1500);
    assert_eq!(config.log.level, "info");
    assert!(config.log.file.is_none());

    assert_eq!(default_listen_port(), 51820);
    assert_eq!(default_max_clients(), 10);
    assert_eq!(default_client_timeout_secs(), 30);
    assert_eq!(default_tun_name(), "tun0");
    assert_eq!(default_mtu(), 1500);
    assert_eq!(default_log_level(), "info");

    let log = LogConfig::default();
    assert_eq!(log.level, "info");
    assert!(log.file.is_none());
}

#[test]
fn client_timeouts_convert_to_milliseconds() {
    let config = ClientConfig {
        server_address: [127, 0, 0, 1],
        server_port: 8000,
        listen_address: [0, 0, 0, 0],
        listen_port: 6969,
        reconnect_interval_secs: 5,
        connect_timeout_secs: 10,
        credentials: Credentials::from_str("test_user:test_password").unwrap(),
        tun: default_tun_config(),
    };
    assert_eq!(config.reconnect_interval(), 5_000);
    assert_eq!(config.connect_timeout(), 10_000);
    assert_eq!(config.tun_config().name, "tun0");
}
