//! Configuration of the authentication core, fixed at startup.

use vstd::prelude::*;
use crate::jwt::JwtConfig;

verus! {

/// Settings of the authorizer.
#[derive(Debug, Clone, PartialEq, Eq)]
pub struct AuthConfig {
    /// Token settings.
    pub jwt: JwtConfig,
    /// Secret that keys the challenge codes.
    pub hmac_secret: String,
}

impl Default for AuthConfig {
    fn default() -> (r: AuthConfig)
        ensures
            r.jwt.audience@ == "music3"@,
            r.jwt.max_duration_sec == 86400,
            r.jwt.timestamp_timeout_sec == 120,
            r.hmac_secret@ == "music3-hmac-secret"@,
    {
        AuthConfig { jwt: JwtConfig::default(), hmac_secret: String::from_str("music3-hmac-secret") }
    }
}

/// Settings of the service.
#[derive(Debug, Clone, PartialEq, Eq)]
pub struct Config {
    /// Authorization settings.
    pub auth: AuthConfig,
}

impl Default for Config {
    fn default() -> (r: Config)
        ensures
            r.auth.jwt.audience@ == "music3"@,
            r.auth.jwt.max_duration_sec == 86400,
            r.auth.jwt.timestamp_timeout_sec == 120,
            r.auth.hmac_secret@ == "music3-hmac-secret"@,
    {
        Config { auth: AuthConfig::default() }
    }
}

} // verus!
