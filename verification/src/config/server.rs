//! The server's configuration.

use vstd::prelude::*;
use crate::creds::Credentials;

verus! {

/// Everything the server needs to run.
pub struct ServerConfig {
    /// The IPv4 address to bind, as its four octets.
    pub listen_address: [u8; 4],
    /// The UDP port to bind.
    pub listen_port: u16,
    /// The most sessions the table may hold through authentication.
    pub max_clients: usize,
    /// The idle budget of a session, in seconds.
    pub client_timeout_secs: u64,
    /// The credentials the server accepts.
    pub client_credentials: Vec<Credentials>,
    /// The TUN parameters.
    pub tun_interface: TunConfig,
    /// Where and how much to log.
    pub log: LogConfig,
}

/// Parameters of the TUN device the server bridges.
#[derive(Clone)]
pub struct TunConfig {
    /// The interface name.
    pub name: String,
    /// The interface's IPv4 address, as its four octets.
    pub address: [u8; 4],
    /// The interface's netmask, as its four octets.
    pub netmask: [u8; 4],
    /// The maximum transmission unit.
    pub mtu: u16,
}

/// Where and how much to log.
#[derive(Clone)]
pub struct LogConfig {
    /// The least level that is written.
    pub level: String,
    /// The file logs go to; standard output when absent.
    pub file: Option<String>,
}

/// The address bound when the setting is absent: every interface.
pub fn default_listen_address() -> (r: [u8; 4])
    ensures
        r == [0u8, 0u8, 0u8, 0u8],
{
    [0, 0, 0, 0]
}

/// The port bound when the setting is absent.
pub fn default_listen_port() -> (r: u16)
    ensures
        r == 51820u16,
{
    51820
}

/// The session limit that applies when the setting is absent.
pub fn default_max_clients() -> (r: usize)
    ensures
        r == 10usize,
{
    10
}

/// The idle budget that applies when the setting is absent, in seconds.
pub fn default_client_timeout_secs() -> (r: u64)
    ensures
        r == 30u64,
{
    30
}

/// The TUN interface name that applies when the setting is absent.
pub fn default_tun_name() -> (r: String)
    ensures
        r@ == "tun0"@,
{
    "tun0".to_owned()
}

/// The TUN address that applies when the setting is absent.
pub fn default_tun_address() -> (r: [u8; 4])
    ensures
        r == [10u8, 0u8, 0u8, 1u8],
{
    [10, 0, 0, 1]
}

/// The TUN netmask that applies when the setting is absent.
pub fn default_tun_netmask() -> (r: [u8; 4])
    ensures
        r == [255u8, 255u8, 255u8, 0u8],
{
    [255, 255, 255, 0]
}

/// The maximum transmission unit that applies when the setting is absent.
pub fn default_mtu() -> (r: u16)
    ensures
        r == 1500u16,
{
    1500
}

/// The log level that applies when the setting is absent.
pub fn default_log_level() -> (r: String)
    ensures
        r@ == "info"@,
{
    "info".to_owned()
}

impl Default for ServerConfig {
    /// The configuration with every setting at its default and no accepted
    /// credentials.
    fn default() -> (r: Self)
        ensures
            r.listen_address == [0u8, 0u8, 0u8, 0u8],
            r.listen_port == 51820u16,
            r.max_clients == 10usize,
            r.client_timeout_secs == 30u64,
            r.client_credentials@ == Seq::<Credentials>::empty(),
            r.tun_interface.name@ == "tun0"@,
            r.tun_interface.address == [10u8, 0u8, 0u8, 1u8],
            r.tun_interface.netmask == [255u8, 255u8, 255u8, 0u8],
            r.tun_interface.mtu == 1500u16,
            r.log.level@ == "info"@,
            r.log.file is None,
    {
        ServerConfig {
            listen_address: default_listen_address(),
            listen_port: default_listen_port(),
            max_clients: default_max_clients(),
            client_timeout_secs: default_client_timeout_secs(),
            client_credentials: Vec::new(),
            tun_interface: TunConfig::default(),
            log: LogConfig::default(),
        }
    }
}

impl Default for TunConfig {
    /// The TUN parameters with every setting at its default.
    fn default() -> (r: Self)
        ensures
            r.name@ == "tun0"@,
            r.address == [10u8, 0u8, 0u8, 1u8],
            r.netmask == [255u8, 255u8, 255u8, 0u8],
            r.mtu == 1500u16,
    {
        TunConfig {
            name: default_tun_name(),
            address: default_tun_address(),
            netmask: default_tun_netmask(),
            mtu: default_mtu(),
        }
    }
}

impl Default for LogConfig {
    /// Logging with every setting at its default: `info`, standard output.
    fn default() -> (r: Self)
        ensures
            r.level@ == "info"@,
            r.file is None,
    {
        LogConfig { level: default_log_level(), file: None }
    }
}

} // verus!
