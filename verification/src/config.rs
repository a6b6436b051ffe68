//! Configuration of the server, the gateway connection pool and the pricing
//! engine.
//!
//! Reading a configuration file or the process environment is I/O and stays
//! with the caller; [`Config::load`] takes whatever the caller managed to
//! read — the whole configuration or nothing — and falls back to the default
//! deployment settings whenever the sources did not yield a complete
//! configuration.

use vstd::prelude::*;

verus! {

/// Settings of the public request/response server.
#[derive(Debug)]
pub struct ServerConfig {
    /// Address the public server binds (e.g., "0.0.0.0:50051").
    pub bind_address: String,
    /// Serve browser clients over gRPC-Web.
    pub enable_grpc_web: bool,
    /// Allow cross-origin browser requests.
    pub enable_cors: bool,
    /// Maximum concurrent connections.
    pub max_connections: usize,
    /// Request timeout in seconds.
    pub request_timeout_secs: u64,
}

/// Settings of the matching-engine gateway client.
#[derive(Debug)]
pub struct MatchingEngineConfig {
    /// TCP address of the matching-engine gateway (e.g., "127.0.0.1:8080").
    pub gateway_address: String,
    /// Connection pool size.
    pub pool_size: usize,
    /// Per-attempt connection timeout in milliseconds.
    pub connect_timeout_ms: u64,
    /// Read timeout in milliseconds.
    pub read_timeout_ms: u64,
    /// Keep established connections alive.
    pub keepalive: bool,
}

/// Settings of the numeric pricing engine.
#[derive(Debug)]
pub struct MonteCarloConfig {
    /// Path to the pricing shared library.
    pub library_path: String,
    /// Default number of simulations.
    pub default_simulations: u64,
    /// Default number of time steps.
    pub default_steps: u64,
    /// Use antithetic variates by default.
    pub default_antithetic: bool,
    /// Use control variates by default.
    pub default_control_variates: bool,
    /// Use stratified sampling by default.
    pub default_stratified_sampling: bool,
}

/// The whole configuration.
#[derive(Debug)]
pub struct Config {
    pub server: ServerConfig,
    pub matching_engine: MatchingEngineConfig,
    pub monte_carlo: MonteCarloConfig,
}

/// The default deployment settings, field for field.
pub open spec fn is_default_config(c: Config) -> bool {
    &&& c.server.bind_address@ == "0.0.0.0:50051"@
    &&& c.server.enable_grpc_web == true
    &&& c.server.enable_cors == true
    &&& c.server.max_connections == 1000usize
    &&& c.server.request_timeout_secs == 30u64
    &&& c.matching_engine.gateway_address@ == "127.0.0.1:8080"@
    &&& c.matching_engine.pool_size == 10usize
    &&& c.matching_engine.connect_timeout_ms == 5000u64
    &&& c.matching_engine.read_timeout_ms == 10000u64
    &&& c.matching_engine.keepalive == true
    &&& c.monte_carlo.library_path@ == "../MonteCarloLib/build/bin/release/libMonteCarloLib.so"@
    &&& c.monte_carlo.default_simulations == 10000u64
    &&& c.monte_carlo.default_steps == 252u64
    &&& c.monte_carlo.default_antithetic == true
    &&& c.monte_carlo.default_control_variates == false
    &&& c.monte_carlo.default_stratified_sampling == false
}

impl Default for Config {
    /// The settings a deployment runs with when nothing overrides them.
    fn default() -> (r: Config)
        ensures
            is_default_config(r),
    {
        Config {
            server: ServerConfig {
                bind_address: "0.0.0.0:50051".to_owned(),
                enable_grpc_web: true,
                enable_cors: true,
                max_connections: 1000,
                request_timeout_secs: 30,
            },
            matching_engine: MatchingEngineConfig {
                gateway_address: "127.0.0.1:8080".to_owned(),
                pool_size: 10,
                connect_timeout_ms: 5000,
                read_timeout_ms: 10000,
                keepalive: true,
            },
            monte_carlo: MonteCarloConfig {
                library_path: "../MonteCarloLib/build/bin/release/libMonteCarloLib.so".to_owned(),
                default_simulations: 10000,
                default_steps: 252,
                default_antithetic: true,
                default_control_variates: false,
                default_stratified_sampling: false,
            },
        }
    }
}

impl Config {
    /// The running configuration: what the caller read from its file and
    /// environment sources, if they yielded a whole configuration, else the
    /// defaults.
    pub fn load(loaded: Option<Config>) -> (r: Config)
        ensures
            match loaded {
                Some(c) => r == c,
                None => is_default_config(r),
            },
    {
        match loaded {
            Some(c) => c,
            None => Config::default(),
        }
    }
}

} // verus!
