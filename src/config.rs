use vstd::prelude::*;

verus! {

#[derive(Debug, Clone)]
pub struct DatabaseConfig {
    pub url: String,
    pub max_connections: u32,
    pub min_connections: u32,
    pub connect_timeout_secs: u64,
}

#[derive(Debug, Clone)]
pub struct RedisConfig {
    pub url: String,
    pub pool_size: usize,
}

#[derive(Debug, Clone)]
pub struct SecurityConfig {
    pub jwt_secret: String,
    pub jwt_expiry_secs: i64,
    pub require_tls: bool,
    pub rate_limit_per_sec: u32,
}

#[derive(Debug, Clone)]
pub struct ServerConfig {
    pub host: String,
    pub port: u16,
    pub max_connections: usize,
    pub heartbeat_interval_secs: u64,
    pub message_timeout_secs: u64,
}

impl Default for ServerConfig {
    fn default() -> (r: ServerConfig)
        ensures
            r.host@ == "0.0.0.0"@,
            r.port == 8080,
            r.max_connections == 10000,
            r.heartbeat_interval_secs == 30,
            r.message_timeout_secs == 60,
    {
        ServerConfig {
            host: String::from_str("0.0.0.0"),
            port: 8080,
            max_connections: 10000,
            heartbeat_interval_secs: 30,
            message_timeout_secs: 60,
        }
    }
}

/// Settings of the hub.
#[derive(Debug, Clone)]
pub struct Config {
    pub server: ServerConfig,
    pub database: DatabaseConfig,
    pub redis: RedisConfig,
    pub security: SecurityConfig,
}

} // verus!
