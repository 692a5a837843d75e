//! Process configuration records. These are plain data: loading them from a
//! configuration file happens outside the library, which only ever sees the
//! resulting values.

use vstd::prelude::*;

verus! {

/// Top-level server configuration.
pub struct ServerConfig {
    pub port: Option<u16>,
    pub port_env_var: Option<String>,
    pub postgres: PostgresConfig,
    pub firebase: FirebaseConfig,
    pub change: ChangeConfig,
    pub plaid: PlaidConfig,
}

/// Connection settings for the relational store.
pub struct PostgresConfig {
    pub uri: String,
}

/// Settings for the identity-token verifier.
pub struct FirebaseConfig {
    pub gwk_url: String,
    pub project_id: String,
}

/// Credentials for the nonprofit-search provider.
pub struct ChangeConfig {
    pub public_key: String,
    pub secret_key: String,
}

/// Credentials for the bank-link provider.
pub struct PlaidConfig {
    pub client_id: String,
    pub secret_key: String,
    pub env: String,
}

} // verus!
