//! An IP allowlist for tool calls.
//!
//! A call of a guarded tool may proceed only if the client's address lies in
//! one of the networks that the operator lists. The address is read from the
//! request headers; a call without one is denied, and so is every call from
//! elsewhere. A configuration that cannot be read in full loads nothing.
//!
//! - [`config`] reads the operator's configuration,
//! - [`address`] holds addresses, networks and containment,
//! - [`glob`] matches tool names,
//! - [`policy`] says what is decided and what is reported of it,
//! - [`plugin`] decides and reports,
//! - [`laws`] proves what holds of all of it,
//! - [`protocol`] holds the values exchanged with the host,
//! - [`json`], [`text`] and [`calendar`] hold what the others build on.

pub mod address;
pub mod calendar;
pub mod config;
pub mod glob;
pub mod json;
pub mod laws;
pub mod plugin;
pub mod policy;
pub mod protocol;
pub mod text;

pub use address::normalize_mapped_ipv4;
pub use address::IpAddr;
pub use address::Network;
pub use calendar::epoch_to_ymdhms;
pub use calendar::rfc3339_now;
pub use config::default_ip_header;
pub use config::ConfigError;
pub use config::IpAllowlistConfig;
pub use glob::glob_match;
pub use plugin::synthetic_system_identity;
pub use plugin::Evaluation;
pub use plugin::HostReport;
pub use plugin::IpAllowlistPlugin;
pub use plugin::PLUGIN_ID;
pub use plugin::PLUGIN_VERSION;
pub use policy::Outcome;
pub use policy::Reason;
pub use protocol::AuditEvent;
pub use protocol::AuditOutcome;
pub use protocol::GateDecision;
pub use protocol::HostHandle;
pub use protocol::PluginClass;
pub use protocol::PluginContext;
pub use protocol::PluginIdentity;
pub use protocol::PluginManifest;
