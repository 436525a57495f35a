//! Flow-package migration engine.
//!
//! A flow package is a zip archive holding an automation bot together with a
//! JSON manifest (the fixed entry `package.json`).  Migrating a package means
//! rewriting the manifest with a fresh identity, a derived display name and a
//! cleared encryption flag, re-packing the archive with every other entry
//! untouched, and registering the result under a destination account through
//! a fixed multi-step provisioning protocol.

pub mod archive;
pub mod client;
pub mod config;
pub mod errs;
pub mod ident;
pub mod manifest;
pub mod mjson;
pub mod pipeline;
pub mod scan;
pub mod updater;
pub mod zipstore;

pub use errs::MigrateError;
pub use errs::MigrateResult;
