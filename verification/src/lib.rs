//! Site trust and runtime consistency engine for a local web-development
//! environment.
//!
//! The library keeps three things mutually consistent while the environment
//! changes (domain renamed, PHP version switched, sites added or removed):
//! per-site TLS certificates signed by a locally generated root, the
//! generated per-site server configuration files whose semantic "kind"
//! (plain, reverse proxy, version isolated) is recoverable from an embedded
//! marker line, and the bookkeeping of which PHP runtime versions are in use.
//!
//! All mutation is staged: components operate on an in-memory filesystem
//! image ([`manager::file_system::ValetFilesystem`]) and record the external
//! commands to run ([`manager::command::ValetCommandLine`]); the embedding
//! application loads the image from disk, runs one operation, then applies
//! the staged writes and recorded commands.

pub mod configuration;
pub mod constants;
pub mod dnsmasq;
pub mod error;
pub mod mailpit;
pub mod manager;
pub mod nginx;
pub mod paths;
pub mod php_fpm;
pub mod requirements;
pub mod site;
pub mod site_secure;
pub mod strutil;
pub mod stub;
