//! Startup configuration. The process refuses to start when a setting is
//! missing or malformed: the port must be a number a port can hold, the
//! token lifetime a positive number of seconds.

use vstd::prelude::*;

use crate::numeric::{dec_val, parse_dec, spec_parse_dec};

verus! {

/// Why the configuration was refused, named after the missing or bad piece.
#[derive(Clone, Copy, Debug, PartialEq, Eq, Structural)]
pub enum ConfigError {
    MissingHost,
    MissingPort,
    BadPort,
    MissingCredentialStoreUri,
    MissingDatabaseName,
    MissingSessionStoreUri,
    MissingSigningKey,
    MissingTokenTtl,
    BadTokenTtl,
}

/// Everything the service is configured with.
pub struct Config {
    pub host: String,
    pub port: u16,
    pub credential_store_uri: String,
    pub database_name: String,
    pub session_store_uri: String,
    pub signing_key: String,
    pub ttl_seconds: u64,
}

pub open spec fn port_ok(s: Seq<char>) -> bool {
    spec_parse_dec(s) matches Some(v) && v <= 65535
}

pub open spec fn ttl_ok(s: Seq<char>) -> bool {
    spec_parse_dec(s) matches Some(v) && v >= 1
}

/// The first configuration fault, in the order the settings are read;
/// `None` when everything is present and well formed.
pub open spec fn config_fault(
    host: Option<Seq<char>>,
    port: Option<Seq<char>>,
    credential_store_uri: Option<Seq<char>>,
    database_name: Option<Seq<char>>,
    session_store_uri: Option<Seq<char>>,
    signing_key: Option<Seq<char>>,
    ttl: Option<Seq<char>>,
) -> Option<ConfigError> {
    if host is None {
        Some(ConfigError::MissingHost)
    } else if port is None {
        Some(ConfigError::MissingPort)
    } else if !port_ok(port->0) {
        Some(ConfigError::BadPort)
    } else if credential_store_uri is None {
        Some(ConfigError::MissingCredentialStoreUri)
    } else if database_name is None {
        Some(ConfigError::MissingDatabaseName)
    } else if session_store_uri is None {
        Some(ConfigError::MissingSessionStoreUri)
    } else if signing_key is None {
        Some(ConfigError::MissingSigningKey)
    } else if ttl is None {
        Some(ConfigError::MissingTokenTtl)
    } else if !ttl_ok(ttl->0) {
        Some(ConfigError::BadTokenTtl)
    } else {
        None
    }
}

pub open spec fn opt_view(o: Option<String>) -> Option<Seq<char>> {
    match o {
        None => None,
        Some(s) => Some(s@),
    }
}

/// Assemble the configuration from raw setting values, refusing to start
/// on the first missing or malformed one.
pub fn build_config(
    host: Option<String>,
    port: Option<String>,
    credential_store_uri: Option<String>,
    database_name: Option<String>,
    session_store_uri: Option<String>,
    signing_key: Option<String>,
    ttl: Option<String>,
) -> (r: Result<Config, ConfigError>)
    ensures
        r matches Err(e) ==> config_fault(
            opt_view(host),
            opt_view(port),
            opt_view(credential_store_uri),
            opt_view(database_name),
            opt_view(session_store_uri),
            opt_view(signing_key),
            opt_view(ttl),
        ) == Some(e),
        r matches Ok(c) ==> config_fault(
            opt_view(host),
            opt_view(port),
            opt_view(credential_store_uri),
            opt_view(database_name),
            opt_view(session_store_uri),
            opt_view(signing_key),
            opt_view(ttl),
        ) is None && c.ttl_seconds >= 1 && host is Some && c.host@ == host->0@ && port is Some
            && c.port == dec_val(port->0@) && credential_store_uri is Some
            && c.credential_store_uri@ == credential_store_uri->0@ && database_name is Some
            && c.database_name@ == database_name->0@ && session_store_uri is Some
            && c.session_store_uri@ == session_store_uri->0@ && signing_key is Some
            && c.signing_key@ == signing_key->0@ && ttl is Some && c.ttl_seconds == dec_val(
            ttl->0@,
        ),
{
    let host = match host {
        Some(h) => h,
        None => {
            return Err(ConfigError::MissingHost);
        },
    };
    let port_text = match port {
        Some(p) => p,
        None => {
            return Err(ConfigError::MissingPort);
        },
    };
    let port_value = match parse_dec(port_text.as_str()) {
        Some(v) => v,
        None => {
            return Err(ConfigError::BadPort);
        },
    };
    if port_value > 65535 {
        return Err(ConfigError::BadPort);
    }
    let credential_store_uri = match credential_store_uri {
        Some(m) => m,
        None => {
            return Err(ConfigError::MissingCredentialStoreUri);
        },
    };
    let database_name = match database_name {
        Some(d) => d,
        None => {
            return Err(ConfigError::MissingDatabaseName);
        },
    };
    let session_store_uri = match session_store_uri {
        Some(s) => s,
        None => {
            return Err(ConfigError::MissingSessionStoreUri);
        },
    };
    let signing_key = match signing_key {
        Some(k) => k,
        None => {
            return Err(ConfigError::MissingSigningKey);
        },
    };
    let ttl_text = match ttl {
        Some(t) => t,
        None => {
            return Err(ConfigError::MissingTokenTtl);
        },
    };
    let ttl_seconds = match parse_dec(ttl_text.as_str()) {
        Some(v) => v,
        None => {
            return Err(ConfigError::BadTokenTtl);
        },
    };
    if ttl_seconds < 1 {
        return Err(ConfigError::BadTokenTtl);
    }
    proof {
        crate::numeric::lemma_dec_val_nonneg(port_text@);
        crate::numeric::lemma_dec_val_nonneg(ttl_text@);
    }
    Ok(
        Config {
            host,
            port: port_value as u16,
            credential_store_uri,
            database_name,
            session_store_uri,
            signing_key,
            ttl_seconds,
        },
    )
}

} // verus!
