//! Configuration data as the relay's logic sees it.
//!
//! Parsing configuration files is outside the library; the surrounding
//! program fills these structs and hands them in as plain values.

use vstd::prelude::*;

verus! {

/// Where the broker lives and which exchange, routing key and request queue
/// the relay uses.
pub struct AMQPConfiguration {
    pub host: String,
    pub port: u16,
    pub exchange: String,
    pub routing_key: String,
    pub queue: String,
}

/// Credentials for the version-control API, and the shared secret a webhook
/// must present (when one is configured).
pub struct GitlabConfiguration {
    pub token: String,
    pub secret_token: Option<String>,
}

/// Where packaged submissions are kept and how many packaging threads run.
pub struct PackageConfiguration {
    pub threads: usize,
    pub zip_dir: String,
}

/// The grading steps dispatched per push event, and where their lab
/// definitions live.
pub struct LabsConfiguration {
    pub steps: Vec<String>,
    pub dir: String,
}

/// The HTTP endpoint: bind address and the base URL under which artifacts
/// are served.
pub struct ServerConfiguration {
    pub ip: String,
    pub port: u16,
    pub base_url: String,
}

/// The whole configuration of the dispatcher-side process.
pub struct Configuration {
    pub server: ServerConfiguration,
    pub gitlab: GitlabConfiguration,
    pub package: PackageConfiguration,
    pub labs: LabsConfiguration,
    pub amqp: AMQPConfiguration,
}

} // verus!
