//! The chain networks the bot can point at, and the client settings
//! derived from them. The RPC calls themselves live outside the library.

use vstd::prelude::*;
use crate::text::{eq_ignore_ascii_case, spec_ascii_lower_seq};

verus! {

/// A Solana cluster.
#[derive(Clone, Copy, PartialEq, Eq, Structural, Debug)]
pub enum SolanaNetwork {
    Mainnet,
    Testnet,
    Devnet,
    Localnet,
}

impl SolanaNetwork {
    /// The cluster's public RPC endpoint.
    pub fn get_rpc_url(&self) -> (r: &'static str)
        ensures
            *self is Mainnet ==> r@ == "https://api.mainnet-beta.solana.com"@,
            *self is Testnet ==> r@ == "https://api.testnet.solana.com"@,
            *self is Devnet ==> r@ == "https://api.devnet.solana.com"@,
            *self is Localnet ==> r@ == "http://localhost:8899"@,
    {
        match self {
            SolanaNetwork::Mainnet => "https://api.mainnet-beta.solana.com",
            SolanaNetwork::Testnet => "https://api.testnet.solana.com",
            SolanaNetwork::Devnet => "https://api.devnet.solana.com",
            SolanaNetwork::Localnet => "http://localhost:8899",
        }
    }

    /// The cluster's display name.
    pub fn get_name(&self) -> (r: &'static str)
        ensures
            *self is Mainnet ==> r@ == "Mainnet"@,
            *self is Testnet ==> r@ == "Testnet"@,
            *self is Devnet ==> r@ == "Devnet"@,
            *self is Localnet ==> r@ == "Localnet"@,
    {
        match self {
            SolanaNetwork::Mainnet => "Mainnet",
            SolanaNetwork::Testnet => "Testnet",
            SolanaNetwork::Devnet => "Devnet",
            SolanaNetwork::Localnet => "Localnet",
        }
    }

    /// Parse a cluster from its name, ignoring ASCII case; unknown names
    /// give `None`.
    pub fn from_str(s: &str) -> (r: Option<SolanaNetwork>)
        ensures
            r == spec_network_from(spec_ascii_lower_seq(s@)),
    {
        if eq_ignore_ascii_case(s, "mainnet") || eq_ignore_ascii_case(s, "mainnet-beta") {
            Some(SolanaNetwork::Mainnet)
        } else if eq_ignore_ascii_case(s, "testnet") {
            Some(SolanaNetwork::Testnet)
        } else if eq_ignore_ascii_case(s, "devnet") {
            Some(SolanaNetwork::Devnet)
        } else if eq_ignore_ascii_case(s, "localnet") || eq_ignore_ascii_case(s, "localhost") {
            Some(SolanaNetwork::Localnet)
        } else {
            None
        }
    }
}

/// The cluster a lowered name denotes, if any.
pub open spec fn spec_network_from(lowered: Seq<char>) -> Option<SolanaNetwork> {
    if lowered == "mainnet"@ || lowered == "mainnet-beta"@ {
        Some(SolanaNetwork::Mainnet)
    } else if lowered == "testnet"@ {
        Some(SolanaNetwork::Testnet)
    } else if lowered == "devnet"@ {
        Some(SolanaNetwork::Devnet)
    } else if lowered == "localnet"@ || lowered == "localhost"@ {
        Some(SolanaNetwork::Localnet)
    } else {
        None
    }
}

/// Client settings for one cluster. The websocket endpoint follows the
/// cluster; timeouts are in seconds.
#[derive(Debug)]
pub struct SolanaConfig {
    pub network: SolanaNetwork,
    pub rpc_url: String,
    pub ws_url: String,
    pub commitment: String,
    pub timeout_seconds: u64,
    pub max_retries: u32,
}

impl SolanaConfig {
    /// Settings for a cluster: its public RPC endpoint, the matching
    /// websocket endpoint, confirmed commitment, a thirty-second timeout
    /// and three retries.
    pub fn new(network: SolanaNetwork) -> (r: SolanaConfig)
        ensures
            r.network == network,
            r.rpc_url@ == (match network {
                SolanaNetwork::Mainnet => "https://api.mainnet-beta.solana.com"@,
                SolanaNetwork::Testnet => "https://api.testnet.solana.com"@,
                SolanaNetwork::Devnet => "https://api.devnet.solana.com"@,
                SolanaNetwork::Localnet => "http://localhost:8899"@,
            }),
            r.ws_url@ == (match network {
                SolanaNetwork::Mainnet => "wss://api.mainnet-beta.solana.com"@,
                SolanaNetwork::Testnet => "wss://api.testnet.solana.com"@,
                SolanaNetwork::Devnet => "wss://api.devnet.solana.com"@,
                SolanaNetwork::Localnet => "ws://localhost:8899"@,
            }),
            r.commitment@ == "confirmed"@,
            r.timeout_seconds == 30,
            r.max_retries == 3,
    {
        let rpc_url = String::from_str(network.get_rpc_url());
        let ws_url = match network {
            SolanaNetwork::Mainnet => String::from_str("wss://api.mainnet-beta.solana.com"),
            SolanaNetwork::Testnet => String::from_str("wss://api.testnet.solana.com"),
            SolanaNetwork::Devnet => String::from_str("wss://api.devnet.solana.com"),
            SolanaNetwork::Localnet => String::from_str("ws://localhost:8899"),
        };
        SolanaConfig {
            network,
            rpc_url,
            ws_url,
            commitment: String::from_str("confirmed"),
            timeout_seconds: 30,
            max_retries: 3,
        }
    }

    /// The same settings with a custom RPC endpoint.
    pub fn with_custom_rpc(self, rpc_url: String) -> (r: SolanaConfig)
        ensures
            r == (SolanaConfig { rpc_url, ..self }),
    {
        SolanaConfig { rpc_url, ..self }
    }

    /// The same settings with another commitment level.
    pub fn with_commitment(self, commitment: String) -> (r: SolanaConfig)
        ensures
            r == (SolanaConfig { commitment, ..self }),
    {
        SolanaConfig { commitment, ..self }
    }

    /// The same settings with another timeout, in seconds.
    pub fn with_timeout(self, timeout_seconds: u64) -> (r: SolanaConfig)
        ensures
            r == (SolanaConfig { timeout_seconds, ..self }),
    {
        SolanaConfig { timeout_seconds, ..self }
    }

    /// The same settings with another retry budget.
    pub fn with_max_retries(self, max_retries: u32) -> (r: SolanaConfig)
        ensures
            r == (SolanaConfig { max_retries, ..self }),
    {
        SolanaConfig { max_retries, ..self }
    }
}

} // verus!
