//! Schema-migration state machine: the catalog of migration scripts, the
//! classification of each script against what a database reports as applied,
//! and the apply / revert protocol that a driver executes against a store.

pub mod applied;
pub mod bookkeeping;
pub mod catalog;
pub mod commands;
pub mod error;
pub mod laws;
pub mod migration;
pub mod migrator;
pub mod migration_type;
pub mod ordering;
pub mod plan;
pub mod protocol;
pub mod scaffold;
pub mod status;
pub mod text;
