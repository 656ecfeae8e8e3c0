//! Versioned application migration engine.
//!
//! Given a new version of a multi-role application, the engine decides role by
//! role whether the running cell can be kept or a fresh one has to be
//! provisioned, installs the new version under the agent key of the previous
//! one, drives the migration hooks of the new cells and links the source
//! chains of superseded and superseding cells.
//!
//! Everything that talks to the conductor is left to the caller: the engine is
//! a set of decision functions and state machines that consume what the
//! conductor answered and say what has to be asked next.
//!
//! Beside the engine stand the settings with which the runtime is launched
//! and the reading of the URIs under which the assets of a web app are asked
//! for.

pub mod asset_uri;
pub mod bundle;
pub mod bytes;
pub mod cell;
pub mod chain;
pub mod config;
pub mod control;
pub mod differ;
pub mod error;
pub mod hash;
pub mod invoker;
pub mod migrate;
pub mod named;
pub mod order;
pub mod settings;
pub mod text;
pub mod versioned_happ;

pub use crate::config::HolochainRuntimeConfig;
pub use crate::error::{Error, MigrateAppError};
pub use crate::migrate::{dna_hash_for_app_bundle, dna_hash_for_app_bundle_role, migrate_app};
pub use crate::versioned_happ::VersionedApp;
