//! The control core of a single-host container orchestrator: it keeps the
//! containers of the declared services in line with their declarations and
//! routes requests to them.

pub mod acme;
pub mod atomic_socket;
pub mod certs;
pub mod cli;
pub mod command;
pub mod cron_watcher;
pub mod docker;
pub mod file;
pub mod instance;
pub mod ip_alloc;
pub mod keyed;
pub mod lifecycle;
pub mod limits;
pub mod login;
pub mod manager;
pub mod manifest;
pub mod manifests;
pub mod master;
pub mod network;
pub mod proxy;
pub mod route;
pub mod signals;
pub mod telemetry;
pub mod text;
pub mod vars;
