//! Core of a gem curation session: an in-memory store of "gems" (small
//! structured knowledge snippets) mirrored to a persistence adapter, a
//! selection tracker, and the aggregation pipeline that sends selected gems
//! to an external synthesis service and commits the parsed ideas back as
//! new gems.
pub mod data;
pub mod records;
pub mod storage;
pub mod selection;
pub mod session;
pub mod store;
