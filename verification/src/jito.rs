//! Configuration and bookkeeping types for the MEV-protected transaction
//! submission service. The HTTP calls themselves live outside the
//! library; these types carry what they need.

use vstd::prelude::*;

verus! {

/// A transaction submission request: the transaction pre-encoded in
/// base64, with its delivery options.
#[derive(Debug)]
pub struct JitoTransactionRequest {
    pub transaction: String,
    pub commitment: String,
    pub skip_preflight: bool,
    pub max_retries: Option<u32>,
    pub min_context_slot: Option<u64>,
}

/// What the submission service answered.
#[derive(Debug)]
pub struct JitoTransactionResponse {
    pub signature: String,
    pub slot: u64,
    pub err: Option<String>,
}

/// One block builder the service exposes.
#[derive(Debug)]
pub struct JitoBlockBuilderInfo {
    pub pubkey: String,
    pub fee_recipient: String,
    pub last_slot: u64,
    pub is_active: bool,
}

/// How the submission service is reached. The timeout is in seconds.
#[derive(Debug)]
pub struct JitoConfig {
    pub base_url: String,
    pub auth_header: String,
    pub timeout_seconds: u64,
    pub max_retries: u32,
    pub skip_preflight: bool,
    pub commitment: String,
}

impl Clone for JitoConfig {
    fn clone(&self) -> (r: JitoConfig)
        ensures
            r == *self,
    {
        JitoConfig {
            base_url: self.base_url.clone(),
            auth_header: self.auth_header.clone(),
            timeout_seconds: self.timeout_seconds,
            max_retries: self.max_retries,
            skip_preflight: self.skip_preflight,
            commitment: self.commitment.clone(),
        }
    }
}

impl Default for JitoConfig {
    /// The stock endpoint: mainnet, no auth, thirty-second timeout,
    /// three retries, preflight on, confirmed commitment.
    fn default() -> (r: JitoConfig)
        ensures
            r.base_url@ == "https://jito-api.mainnet.solana.com"@,
            r.auth_header@ == ""@,
            r.timeout_seconds == 30,
            r.max_retries == 3,
            !r.skip_preflight,
            r.commitment@ == "confirmed"@,
    {
        JitoConfig {
            base_url: String::from_str("https://jito-api.mainnet.solana.com"),
            auth_header: String::from_str(""),
            timeout_seconds: 30,
            max_retries: 3,
            skip_preflight: false,
            commitment: String::from_str("confirmed"),
        }
    }
}

/// Counters over protected transactions.
#[derive(Clone, Copy, PartialEq, Eq, Structural, Debug)]
pub struct MevProtectionStats {
    pub total_transactions: usize,
    pub active_transactions: usize,
    pub protected_transactions: usize,
}

/// Step-by-step builder for a [`JitoConfig`].
#[derive(Debug)]
pub struct JitoConfigBuilder {
    config: JitoConfig,
}

impl JitoConfigBuilder {
    /// The configuration built so far.
    pub closed spec fn current(self) -> JitoConfig {
        self.config
    }

    /// Start from the stock configuration.
    pub fn new() -> (r: JitoConfigBuilder)
        ensures
            r.current().base_url@ == "https://jito-api.mainnet.solana.com"@,
            r.current().auth_header@ == ""@,
            r.current().timeout_seconds == 30,
            r.current().max_retries == 3,
            !r.current().skip_preflight,
            r.current().commitment@ == "confirmed"@,
    {
        JitoConfigBuilder { config: JitoConfig::default() }
    }

    /// Replace the base URL.
    pub fn with_base_url(self, base_url: String) -> (r: JitoConfigBuilder)
        ensures
            r.current() == (JitoConfig { base_url, ..self.current() }),
    {
        JitoConfigBuilder { config: JitoConfig { base_url, ..self.config } }
    }

    /// Replace the authorization header.
    pub fn with_auth_header(self, auth_header: String) -> (r: JitoConfigBuilder)
        ensures
            r.current() == (JitoConfig { auth_header, ..self.current() }),
    {
        JitoConfigBuilder { config: JitoConfig { auth_header, ..self.config } }
    }

    /// Replace the timeout, in seconds.
    pub fn with_timeout(self, timeout_seconds: u64) -> (r: JitoConfigBuilder)
        ensures
            r.current() == (JitoConfig { timeout_seconds, ..self.current() }),
    {
        JitoConfigBuilder { config: JitoConfig { timeout_seconds, ..self.config } }
    }

    /// Replace the retry budget.
    pub fn with_max_retries(self, max_retries: u32) -> (r: JitoConfigBuilder)
        ensures
            r.current() == (JitoConfig { max_retries, ..self.current() }),
    {
        JitoConfigBuilder { config: JitoConfig { max_retries, ..self.config } }
    }

    /// Choose whether to skip preflight checks.
    pub fn with_skip_preflight(self, skip_preflight: bool) -> (r: JitoConfigBuilder)
        ensures
            r.current() == (JitoConfig { skip_preflight, ..self.current() }),
    {
        JitoConfigBuilder { config: JitoConfig { skip_preflight, ..self.config } }
    }

    /// Replace the commitment level.
    pub fn with_commitment(self, commitment: String) -> (r: JitoConfigBuilder)
        ensures
            r.current() == (JitoConfig { commitment, ..self.current() }),
    {
        JitoConfigBuilder { config: JitoConfig { commitment, ..self.config } }
    }

    /// The finished configuration.
    pub fn build(self) -> (r: JitoConfig)
        ensures
            r == self.current(),
    {
        self.config
    }
}

} // verus!
