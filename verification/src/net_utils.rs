//! The network-facing helpers the library can state anything about:
//! validation, configuration and interface records. Socket probing and
//! lookups live outside the library.

use vstd::prelude::*;

verus! {

/// Pure network validation helpers.
pub struct NetworkUtils;

impl NetworkUtils {
    /// Whether a port number is usable: any non-zero port.
    pub fn is_valid_port(port: u16) -> (r: bool)
        ensures
            r == (port > 0),
    {
        port > 0
    }
}

/// How a listener is set up; timeouts in seconds.
#[derive(Debug)]
pub struct NetworkConfig {
    pub bind_address: String,
    pub bind_port: u16,
    pub external_address: Option<String>,
    pub max_connections: usize,
    pub connection_timeout_seconds: u64,
    pub read_timeout_seconds: u64,
    pub write_timeout_seconds: u64,
    pub keep_alive: bool,
    pub tcp_nodelay: bool,
}

impl Default for NetworkConfig {
    /// Listen everywhere on port 8080, up to 1000 connections, with
    /// 30/60/60 second timeouts, keep-alive and no delay.
    fn default() -> (r: NetworkConfig)
        ensures
            r.bind_address@ == "0.0.0.0"@,
            r.bind_port == 8080,
            r.external_address is None,
            r.max_connections == 1000,
            r.connection_timeout_seconds == 30,
            r.read_timeout_seconds == 60,
            r.write_timeout_seconds == 60,
            r.keep_alive,
            r.tcp_nodelay,
    {
        NetworkConfig {
            bind_address: String::from_str("0.0.0.0"),
            bind_port: 8080,
            external_address: None,
            max_connections: 1000,
            connection_timeout_seconds: 30,
            read_timeout_seconds: 60,
            write_timeout_seconds: 60,
            keep_alive: true,
            tcp_nodelay: true,
        }
    }
}

/// A coarse link-quality rating.
#[derive(Clone, Copy, PartialEq, Eq, Structural, Debug)]
pub enum NetworkQuality {
    Excellent,
    Good,
    Fair,
    Poor,
}

/// One network interface as reported to callers.
#[derive(Debug)]
pub struct NetworkInterface {
    pub name: String,
    pub addresses: Vec<String>,
    pub is_up: bool,
    pub is_loopback: bool,
}

/// Interface enumeration.
pub struct NetworkTools;

impl NetworkTools {
    /// The interface table handed to callers: a single static ethernet
    /// entry, standing in until a platform enumeration is wired up.
    pub fn get_network_interfaces() -> (r: Vec<NetworkInterface>)
        ensures
            r@.len() == 1,
            r@[0].name@ == "eth0"@,
            r@[0].addresses@.len() == 1,
            r@[0].addresses@[0]@ == "192.168.1.1"@,
            r@[0].is_up,
            !r@[0].is_loopback,
    {
        let mut addresses: Vec<String> = Vec::new();
        addresses.push(String::from_str("192.168.1.1"));
        let mut result: Vec<NetworkInterface> = Vec::new();
        result.push(
            NetworkInterface {
                name: String::from_str("eth0"),
                addresses,
                is_up: true,
                is_loopback: false,
            },
        );
        result
    }
}

} // verus!
