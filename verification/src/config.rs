//! The configuration of the policy.

use crate::double::Double;
use vstd::prelude::*;

verus! {

/// What the policy is configured with. Each property may be left out. A number with a
/// fraction is held by its bit pattern. Each of `rate_buckets` is the least whole number of
/// requests per minute that reaches the threshold.
#[derive(Clone, Debug)]
pub struct Config {
    pub allow_mock: Option<bool>,
    pub api_purpose: Option<String>,
    pub block_verdicts: Option<Vec<String>>,
    pub client_key_expression: Option<String>,
    pub cloudflare_account_id: Option<String>,
    pub custom_auth_header: Option<String>,
    pub fail_mode: Option<String>,
    pub jev_api_key: Option<String>,
    pub jev_model: Option<String>,
    pub jev_path: Option<String>,
    pub jev_provider: Option<String>,
    pub jev_timeout_ms: Option<i64>,
    pub log_state_sample: Option<bool>,
    pub max_state_tokens: Option<i64>,
    pub max_tracked_clients: Option<i64>,
    pub min_confidence: Option<Double>,
    pub mode: Option<String>,
    pub rate_buckets: Option<Vec<u64>>,
    pub reevaluate_seconds: Option<i64>,
    pub sample_rate: Option<Double>,
    pub strip_client_jev_headers: Option<bool>,
    pub window_size: Option<i64>,
}

} // verus!
