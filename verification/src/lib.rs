//! Verified core logic of a small multi-tenant web gateway.

pub mod text;
pub mod rewrite;
pub mod web_vhost;
pub mod config_import;
pub mod import_laws;
pub mod power_profile;
pub mod tenant_router;
pub mod redirects;
pub mod self_update;
pub mod keyed;
pub mod acme;
pub mod two_factor;
pub mod encoding;
pub mod admin_api;
pub mod custom_dns;
pub mod ddns;
pub mod domain_watchdog;
pub mod ip_allowlist;
pub mod cors;
pub mod static_files;
pub mod oauth;
pub mod keyring;
pub mod php_fastcgi;
pub mod proxy;
pub mod access_log;
pub mod mutation;
pub mod dual_write;
pub mod sftp;
pub mod ipv6_autoupdate;
pub mod admin_login;
pub mod compression;
pub mod demo;
