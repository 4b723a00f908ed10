//! Configuration values of the clients that the orchestrator is wired with.
//!
//! Reading files and the environment is left to the caller; what is here
//! are the values, their defaults, and what is checked of them.

use vstd::prelude::*;
use vstd::string::*;

verus! {

/// Address of the Celestia node that is used when none is configured.
pub const DEFAULT_CELESTIA_NODE: &'static str = "127.0.0.1:8000";

/// Auth token that is used when none is configured.
pub const DEFAULT_AUTH_TOKEN: &'static str = "";

/// Namespace that is used when none is configured.
pub const DEFAULT_NID: &'static str = "Karnot";

/// Configuration of the Celestia data-availability client.
#[derive(Clone, PartialEq, Debug)]
pub struct CelestiaConfig {
    /// Where the node is reached over HTTP.
    pub http_provider: String,
    /// The auth token, if the node asks for one.
    pub auth_token: Option<String>,
    /// The namespace under which blobs are published.
    pub nid: String,
}

/// The HTTP address of the default node.
pub fn default_http() -> (r: String)
    ensures
        r@ == "http://"@ + DEFAULT_CELESTIA_NODE@,
{
    String::from_str("http://").concat(DEFAULT_CELESTIA_NODE)
}

/// The default namespace.
pub fn default_nid() -> (r: String)
    ensures
        r@ == DEFAULT_NID@,
{
    String::from_str(DEFAULT_NID)
}

impl Default for CelestiaConfig {
    fn default() -> (r: CelestiaConfig)
        ensures
            r.http_provider@ == "http://"@ + DEFAULT_CELESTIA_NODE@,
            r.auth_token is None,
            r.nid@ == DEFAULT_NID@,
    {
        CelestiaConfig { http_provider: default_http(), auth_token: None, nid: default_nid() }
    }
}

/// A database configuration that can be read from the environment.
pub trait DatabaseConfig: Sized {
    /// Reads the configuration from the environment.
    fn new_from_env() -> Self;
}

/// Name of the environment variable with the URL of the Ethereum node.
pub const ENV_ETHEREUM_RPC_URL: &'static str = "ETHEREUM_RPC_URL";

/// Name of the environment variable with the address of the memory pages
/// contract.
pub const ENV_MEMORY_PAGES_CONTRACT_ADDRESS: &'static str = "MEMORY_PAGES_CONTRACT_ADDRESS";

/// Name of the environment variable with the address of the core contract.
pub const ENV_CORE_CONTRACT_ADDRESS: &'static str = "CORE_CONTRACT_ADDRESS";

/// What `Url::from_str` of the `url` crate makes of a text: the URL in its
/// normal form, or nothing where the text is no absolute URL.
pub uninterp spec fn parsed_url(input: Seq<char>) -> Option<Seq<char>>;

/// Parses `input` with `Url::from_str` of the `url` crate and returns the
/// URL as the crate writes it. The contract gives that result its name and
/// claims no more: the crate parses without a base URL and from the text
/// alone.
#[verifier::external_body]
fn parse_url(input: &str) -> (r: Option<String>)
    ensures
        match r {
            Some(text) => parsed_url(input@) == Some(text@),
            None => parsed_url(input@) is None,
        },
{
    match <url::Url as std::str::FromStr>::from_str(input) {
        Ok(url) => Some(String::from(url)),
        Err(_) => None,
    }
}

/// Why a configuration was refused.
#[derive(Clone, Copy, Debug, PartialEq, Eq, Structural)]
pub enum ConfigError {
    /// The text given for the Ethereum node is no absolute URL.
    InvalidRpcUrl,
}

/// Configuration of the Ethereum settlement client.
#[derive(Clone, Debug)]
pub struct EthereumSettlementConfig {
    /// The URL of the Ethereum node, in its normal form.
    pub rpc_url: String,
    /// Address of the memory pages contract.
    pub memory_pages_contract: String,
    /// Address of the core contract.
    pub core_contract: String,
}

impl EthereumSettlementConfig {
    /// The configuration with the URL as it was parsed; refused where the
    /// text for the node was no URL.
    pub fn from_parsed(
        parsed: Option<String>,
        memory_pages_contract: String,
        core_contract: String,
    ) -> (r: Result<EthereumSettlementConfig, ConfigError>)
        ensures
            match r {
                Ok(config) => parsed == Some(config.rpc_url) && config.memory_pages_contract
                    == memory_pages_contract && config.core_contract == core_contract,
                Err(e) => parsed is None && e == ConfigError::InvalidRpcUrl,
            },
    {
        match parsed {
            Some(rpc_url) => Ok(
                EthereumSettlementConfig { rpc_url, memory_pages_contract, core_contract },
            ),
            None => Err(ConfigError::InvalidRpcUrl),
        }
    }

    /// The configuration made of the three values that the environment
    /// holds; refused where `rpc_url` is no absolute URL.
    pub fn new(rpc_url: &str, memory_pages_contract: String, core_contract: String) -> (r: Result<
        EthereumSettlementConfig,
        ConfigError,
    >)
        ensures
            match r {
                Ok(config) => parsed_url(rpc_url@) == Some(config.rpc_url@)
                    && config.memory_pages_contract == memory_pages_contract
                    && config.core_contract == core_contract,
                Err(e) => parsed_url(rpc_url@) is None && e == ConfigError::InvalidRpcUrl,
            },
    {
        EthereumSettlementConfig::from_parsed(
            parse_url(rpc_url),
            memory_pages_contract,
            core_contract,
        )
    }
}

} // verus!
