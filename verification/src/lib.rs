//! Certificate lifecycle manager: HTTP-01 issuance and renewal for a fixed
//! set of configured domains, with an atomic on-disk certificate store,
//! backup-before-overwrite, an expiry calculator, and renewal scheduling
//! decisions. Filesystem and network effects are carried out by the
//! surrounding application; this crate holds the verified logic.

pub mod config;
pub mod digits;
pub mod expiry;
pub mod issuance;
pub mod locks;
pub mod manager;
pub mod renewal;
pub mod routes;
pub mod datetime;
pub mod store;
pub mod validation;
