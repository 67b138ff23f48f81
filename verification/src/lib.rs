//! Host-side plugin framework: a registry that loads independently compiled
//! modules, gates them on exact version-tag equality before any module code
//! runs, and exposes each module's functionality through the loader → factory
//! → worker capability chain.

pub mod decimal;
pub mod declaration;
pub mod errors;
pub mod interfaces;
pub mod registry;
pub mod stats;
