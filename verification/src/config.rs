//! Server and database settings.

use vstd::prelude::*;

verus! {

/// Address the HTTP server listens on.
#[derive(Debug)]
pub struct ServerConfig {
    pub host: String,
    pub port: u16,
}

/// Database connection settings.
#[derive(Debug)]
pub struct DatabaseConfig {
    pub url: String,
    pub max_connections: u32,
}

/// Connections a database pool opens unless configured.
pub fn default_max_connections() -> (r: u32)
    ensures
        r == 5,
{
    5
}

impl ServerConfig {
    /// Listen on every interface, port 8080.
    pub fn standard() -> (r: ServerConfig)
        ensures
            r.host@ == "0.0.0.0"@,
            r.port == 8080,
    {
        ServerConfig { host: crate::text::owned("0.0.0.0"), port: 8080 }
    }
}

} // verus!
