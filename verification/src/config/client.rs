//! The client's configuration.

use vstd::prelude::*;
use crate::creds::Credentials;

verus! {

/// Parameters of the TUN device the client bridges.
#[derive(Clone)]
pub struct TunConfig {
    /// The interface name.
    pub name: String,
    /// The interface's IPv4 address, as its four octets.
    pub address: [u8; 4],
    /// The interface's netmask, as its four octets.
    pub netmask: [u8; 4],
    /// The maximum transmission unit, if one is set.
    pub mtu: Option<u16>,
    /// Whether to bring the interface up.
    pub up: bool,
}

/// Everything the client needs to run.
pub struct ClientConfig {
    /// The server's IPv4 address, as its four octets.
    pub server_address: [u8; 4],
    /// The server's UDP port.
    pub server_port: u16,
    /// The local IPv4 address to bind.
    pub listen_address: [u8; 4],
    /// The local UDP port to bind.
    pub listen_port: u16,
    /// How long to wait before reconnecting, in seconds.
    pub reconnect_interval_secs: u64,
    /// How long each handshake wait may take, in seconds.
    pub connect_timeout_secs: u64,
    /// The credential to present.
    pub credentials: Credentials,
    /// The TUN parameters.
    pub tun: TunConfig,
}

/// Whether a TUN interface is brought up when the setting is absent.
pub fn default_tun_up() -> (r: bool)
    ensures
        r == true,
{
    true
}

/// The TUN parameters that apply when the whole section is absent.
pub fn default_tun_config() -> (r: TunConfig)
    ensures
        r.name@ == "tun0"@,
        r.address == [10u8, 0u8, 0u8, 1u8],
        r.netmask == [255u8, 255u8, 255u8, 0u8],
        r.mtu == Some(1500u16),
        r.up == true,
{
    TunConfig {
        name: "tun0".to_owned(),
        address: [10, 0, 0, 1],
        netmask: [255, 255, 255, 0],
        mtu: Some(1500),
        up: true,
    }
}

impl ClientConfig {
    /// The reconnect interval, in milliseconds.
    pub fn reconnect_interval(&self) -> (r: u64)
        ensures
            r == if self.reconnect_interval_secs <= 0xffff_ffff_ffff_ffffu64 / 1000 {
                self.reconnect_interval_secs * 1000
            } else {
                0xffff_ffff_ffff_ffffu64 as int
            },
    {
        if self.reconnect_interval_secs <= u64::MAX / 1000 {
            self.reconnect_interval_secs * 1000
        } else {
            u64::MAX
        }
    }

    /// The handshake wait budget, in milliseconds.
    pub fn connect_timeout(&self) -> (r: u64)
        ensures
            r == if self.connect_timeout_secs <= 0xffff_ffff_ffff_ffffu64 / 1000 {
                self.connect_timeout_secs * 1000
            } else {
                0xffff_ffff_ffff_ffffu64 as int
            },
    {
        if self.connect_timeout_secs <= u64::MAX / 1000 {
            self.connect_timeout_secs * 1000
        } else {
            u64::MAX
        }
    }

    /// The TUN parameters.
    pub fn tun_config(&self) -> (r: &TunConfig)
        ensures
            r == &self.tun,
    {
        &self.tun
    }
}

} // verus!
