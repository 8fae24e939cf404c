use vstd::prelude::*;
use crate::numbers::{parse_i64, parse_u16, parse_u64, spec_parse_i64, spec_parse_u16, spec_parse_u64};

verus! {

/// How the HTTP front end is to listen.
#[derive(Clone, Copy, Debug, PartialEq, Eq, Structural)]
pub struct Server {
    pub port: u16,
    pub body_limit: u64,
    pub timeout: u64,
}

/// Where the relational store lives.
#[derive(Debug)]
pub struct Database {
    pub url: String,
}

/// Everything the process reads from its environment at boot.
#[derive(Debug)]
pub struct DotEnvyConfig {
    pub server: Server,
    pub database: Database,
    pub secret: String,
}

/// What token issuance needs: the signing secret and the token lifetime in
/// days.
#[derive(Debug)]
pub struct JwtEnv {
    pub secret: String,
    pub ttl: i64,
}

/// The credentials of the image-hosting account.
#[derive(Debug)]
pub struct CloudinaryEnv {
    pub cloud_name: String,
    pub api_key: String,
    pub api_secret: String,
}

/// Why building a configuration from environment values failed.
#[derive(Clone, Copy, Debug, PartialEq, Eq, Structural)]
pub enum ConfigError {
    /// A required value was absent.
    MissingValue,
    /// A numeric value did not parse.
    InvalidNumber,
}

/// What the server section is built from: the first of `PORT` and
/// `SERVER_PORT` that is set must hold the port; the body limit and the
/// timeout fall back to 10 and 30 when unset, but an unparsable value is an
/// error.
pub open spec fn spec_server_config(
    port: Option<Seq<char>>,
    server_port: Option<Seq<char>>,
    body_limit: Option<Seq<char>>,
    timeout: Option<Seq<char>>,
) -> Result<Server, ConfigError> {
    let chosen = if port is Some {
        port
    } else {
        server_port
    };
    match chosen {
        None => Err(ConfigError::MissingValue),
        Some(p) => match spec_parse_u16(p) {
            None => Err(ConfigError::InvalidNumber),
            Some(pv) => {
                let bl = match body_limit {
                    Some(b) => b,
                    None => "10"@,
                };
                let tm = match timeout {
                    Some(t) => t,
                    None => "30"@,
                };
                match (spec_parse_u64(bl), spec_parse_u64(tm)) {
                    (Some(b), Some(t)) => Ok(Server { port: pv, body_limit: b, timeout: t }),
                    _ => Err(ConfigError::InvalidNumber),
                }
            },
        },
    }
}

/// Builds the server section out of the raw environment values.
pub fn server_config(
    port: Option<&str>,
    server_port: Option<&str>,
    body_limit: Option<&str>,
    timeout: Option<&str>,
) -> (r: Result<Server, ConfigError>)
    ensures
        r == spec_server_config(
            match port {
                Some(p) => Some(p@),
                None => None,
            },
            match server_port {
                Some(p) => Some(p@),
                None => None,
            },
            match body_limit {
                Some(b) => Some(b@),
                None => None,
            },
            match timeout {
                Some(t) => Some(t@),
                None => None,
            },
        ),
{
    let chosen = match port {
        Some(p) => p,
        None => match server_port {
            Some(p) => p,
            None => {
                return Err(ConfigError::MissingValue);
            },
        },
    };
    let pv = match parse_u16(chosen) {
        Some(pv) => pv,
        None => {
            return Err(ConfigError::InvalidNumber);
        },
    };
    let bl = match body_limit {
        Some(b) => b,
        None => "10",
    };
    let tm = match timeout {
        Some(t) => t,
        None => "30",
    };
    let b = match parse_u64(bl) {
        Some(b) => b,
        None => {
            return Err(ConfigError::InvalidNumber);
        },
    };
    let t = match parse_u64(tm) {
        Some(t) => t,
        None => {
            return Err(ConfigError::InvalidNumber);
        },
    };
    Ok(Server { port: pv, body_limit: b, timeout: t })
}

/// Builds the whole boot configuration: the server section as above, and a
/// database URL and a user secret that must both be present.
pub fn load_config(
    port: Option<&str>,
    server_port: Option<&str>,
    body_limit: Option<&str>,
    timeout: Option<&str>,
    database_url: Option<String>,
    secret: Option<String>,
) -> (r: Result<DotEnvyConfig, ConfigError>)
    ensures
        match r {
            Ok(cfg) => {
                &&& Ok::<Server, ConfigError>(cfg.server) == spec_server_config(
                    match port {
                        Some(p) => Some(p@),
                        None => None,
                    },
                    match server_port {
                        Some(p) => Some(p@),
                        None => None,
                    },
                    match body_limit {
                        Some(b) => Some(b@),
                        None => None,
                    },
                    match timeout {
                        Some(t) => Some(t@),
                        None => None,
                    },
                )
                &&& database_url matches Some(u) && cfg.database.url@ == u@
                &&& secret matches Some(s) && cfg.secret@ == s@
            },
            Err(_) => true,
        },
        r is Err <==> (spec_server_config(
            match port {
                Some(p) => Some(p@),
                None => None,
            },
            match server_port {
                Some(p) => Some(p@),
                None => None,
            },
            match body_limit {
                Some(b) => Some(b@),
                None => None,
            },
            match timeout {
                Some(t) => Some(t@),
                None => None,
            },
        ) is Err || database_url is None || secret is None),
{
    let server = match server_config(port, server_port, body_limit, timeout) {
        Ok(s) => s,
        Err(e) => {
            return Err(e);
        },
    };
    let url = match database_url {
        Some(u) => u,
        None => {
            return Err(ConfigError::MissingValue);
        },
    };
    let secret = match secret {
        Some(s) => s,
        None => {
            return Err(ConfigError::MissingValue);
        },
    };
    Ok(DotEnvyConfig { server, database: Database { url }, secret })
}

/// Builds the token-issuance settings: the secret and the lifetime must be
/// present, and the lifetime must be a number of days.
pub fn jwt_env_from(secret: Option<String>, ttl: Option<&str>) -> (r: Result<JwtEnv, ConfigError>)
    ensures
        match r {
            Ok(env) => {
                &&& secret matches Some(s) && env.secret@ == s@
                &&& ttl matches Some(t) && spec_parse_i64(t@) == Some(env.ttl)
            },
            Err(e) => {
                ||| secret is None && e == ConfigError::MissingValue
                ||| secret is Some && ttl is None && e == ConfigError::MissingValue
                ||| (ttl matches Some(t) && secret is Some && spec_parse_i64(t@) is None && e
                    == ConfigError::InvalidNumber)
            },
        },
{
    let s = match secret {
        Some(s) => s,
        None => {
            return Err(ConfigError::MissingValue);
        },
    };
    let t = match ttl {
        Some(t) => t,
        None => {
            return Err(ConfigError::MissingValue);
        },
    };
    match parse_i64(t) {
        Some(days) => Ok(JwtEnv { secret: s, ttl: days }),
        None => Err(ConfigError::InvalidNumber),
    }
}

/// Builds the image-hosting credentials: all three values must be present.
pub fn cloudinary_env_from(
    cloud_name: Option<String>,
    api_key: Option<String>,
    api_secret: Option<String>,
) -> (r: Result<CloudinaryEnv, ConfigError>)
    ensures
        match r {
            Ok(env) => {
                &&& cloud_name matches Some(c) && env.cloud_name@ == c@
                &&& api_key matches Some(k) && env.api_key@ == k@
                &&& api_secret matches Some(s) && env.api_secret@ == s@
            },
            Err(e) => e == ConfigError::MissingValue && (cloud_name is None || api_key is None
                || api_secret is None),
        },
{
    match (cloud_name, api_key, api_secret) {
        (Some(c), Some(k), Some(s)) => Ok(
            CloudinaryEnv { cloud_name: c, api_key: k, api_secret: s },
        ),
        _ => Err(ConfigError::MissingValue),
    }
}

} // verus!
