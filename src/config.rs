//! The credential that every request carries.
use vstd::prelude::*;

verus! {

/// The name of the environment variable that holds the service's key.
pub const CREDENTIAL_VAR: &'static str = "OPEN_WEATHER_API_KEY";

/// What the lookups need, settled once at startup.
#[derive(Clone, Debug)]
pub struct Config {
    pub api_key: String,
}

/// Why startup failed.
#[derive(Clone, Copy, Debug, PartialEq, Eq)]
pub enum ConfigError {
    /// The credential is not set.
    MissingCredential,
}

impl Config {
    /// The configuration from the credential's value, where one is set.
    pub fn from_credential(value: Option<String>) -> (r: Result<Config, ConfigError>)
        ensures
            value is None <==> r == Err::<Config, ConfigError>(ConfigError::MissingCredential),
            value matches Some(k) ==> r matches Ok(c) && c.api_key == k,
    {
        match value {
            Some(k) => Ok(Config { api_key: k }),
            None => Err(ConfigError::MissingCredential),
        }
    }
}

} // verus!
