//! Reading and editing values inside JSON and TOML configuration
//! documents, addressed by compact textual paths such as
//! `network.timeout` or `servers[0].host`.
//!
//! The core is a navigator that walks two structurally different tree
//! models through one path language, classifies every node into a shared
//! type taxonomy, and reports failures through a closed error model with
//! fixed exit codes.  Documents are modelled as the library's own plain
//! trees; the JSON and TOML parsers and the format-preserving TOML editor
//! are reached only through the trusted wrappers in `bridge`.

pub mod bridge;
pub mod cli;
pub mod errors;
pub mod helpers;
pub mod kinds;
pub mod model;
pub mod navigate;
pub mod navigate_toml;
pub mod ops;
pub mod paths;
pub mod persist;
pub mod strutil;
pub mod values;
