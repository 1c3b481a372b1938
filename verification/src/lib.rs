//! A verified model of a small local data store: a versioned schema-migration
//! registry, a runner that applies pending migrations exactly once and in
//! order, and the single `exhaust` table with its column constraints,
//! uniqueness rule and timestamp defaults.

pub mod registry;
pub mod schema;
pub mod store;
pub mod table;
pub mod timefmt;
