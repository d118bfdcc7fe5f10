//! Configuration data and the rules that turn a raw configuration file into
//! the daemon's effective configuration.
//!
//! Reading and decoding the file itself is I/O and lives outside the
//! library; the defaulting and validation rules live here.

use vstd::prelude::*;
use vstd::string::StringExecFns;
use crate::strutil::concat_str;

verus! {

/// One desired deployment as configured: a unique name and an opaque,
/// verbatim launch-argument list.
#[derive(Debug)]
pub struct Deployment {
    pub name: String,
    pub args: Option<Vec<String>>,
}

/// The raw configuration as it appears in the configuration file, before
/// defaults are applied.
#[derive(Debug)]
pub struct EDConfig {
    pub docker_socket: Option<String>,
    pub container_prefix: Option<String>,
    pub deployments: Vec<Deployment>,
    pub tls_certs: Option<String>,
    pub tls_key: Option<String>,
    pub mututal_tls_ca_certs: Option<String>,
}

/// The effective configuration of the daemon.
#[derive(Debug)]
pub struct Config {
    pub config_file: String,
    pub docker_socket: String,
    pub container_prefix: String,
    pub deployments: Vec<Deployment>,
    pub tls_certs: String,
    pub tls_key: String,
    pub mutual_tls_ca_certs: String,
}

/// Which required transport-security file is missing.
#[derive(Clone, Copy, Debug, PartialEq, Eq, Structural)]
pub enum ConfigFileError {
    MissingTlsCerts,
    MissingTlsKey,
    MissingCaCerts,
}

/// The value of an optional field, or the given default.
pub open spec fn or_default(v: Option<String>, d: Seq<char>) -> Seq<char> {
    match v {
        Some(s) => s@,
        None => d,
    }
}

/// Applies the defaulting rules to a raw configuration: a default engine
/// socket and security-material paths, and a container-name prefix that
/// always carries a leading slash (the engine reports container names with
/// one).
pub fn resolve_config(raw: EDConfig, config_file: String) -> (r: Config)
    ensures
        r.config_file == config_file,
        r.docker_socket@ == or_default(raw.docker_socket, "/var/run/docker.socket"@),
        r.container_prefix@ == "/"@ + or_default(raw.container_prefix, "ed_"@),
        r.deployments == raw.deployments,
        r.tls_certs@ == or_default(raw.tls_certs, "/etc/edd/server.crt"@),
        r.tls_key@ == or_default(raw.tls_key, "/etc/edd/server.key"@),
        r.mutual_tls_ca_certs@ == or_default(raw.mututal_tls_ca_certs, "/etc/edd/ca.crt"@),
{
    let docker_socket = match raw.docker_socket {
        Some(s) => s,
        None => String::from_str("/var/run/docker.socket"),
    };
    let prefix_body = match raw.container_prefix {
        Some(s) => s,
        None => String::from_str("ed_"),
    };
    let container_prefix = concat_str("/", prefix_body.as_str());
    let tls_certs = match raw.tls_certs {
        Some(s) => s,
        None => String::from_str("/etc/edd/server.crt"),
    };
    let tls_key = match raw.tls_key {
        Some(s) => s,
        None => String::from_str("/etc/edd/server.key"),
    };
    let mutual_tls_ca_certs = match raw.mututal_tls_ca_certs {
        Some(s) => s,
        None => String::from_str("/etc/edd/ca.crt"),
    };
    Config {
        config_file,
        docker_socket,
        container_prefix,
        deployments: raw.deployments,
        tls_certs,
        tls_key,
        mutual_tls_ca_certs,
    }
}

/// Validates that the transport-security files the configuration points at
/// exist; the caller supplies the result of each existence check.
pub fn check_config(
    tls_certs_exists: bool,
    tls_key_exists: bool,
    mutual_tls_ca_certs_exists: bool,
) -> (r: Result<(), ConfigFileError>)
    ensures
        r is Ok <==> tls_certs_exists && tls_key_exists && mutual_tls_ca_certs_exists,
        r == Err::<(), ConfigFileError>(ConfigFileError::MissingTlsCerts) <==> !tls_certs_exists,
        r == Err::<(), ConfigFileError>(ConfigFileError::MissingTlsKey) <==> tls_certs_exists
            && !tls_key_exists,
        r == Err::<(), ConfigFileError>(ConfigFileError::MissingCaCerts) <==> tls_certs_exists
            && tls_key_exists && !mutual_tls_ca_certs_exists,
{
    if !tls_certs_exists {
        return Err(ConfigFileError::MissingTlsCerts);
    }
    if !tls_key_exists {
        return Err(ConfigFileError::MissingTlsKey);
    }
    if !mutual_tls_ca_certs_exists {
        return Err(ConfigFileError::MissingCaCerts);
    }
    Ok(())
}

} // verus!
