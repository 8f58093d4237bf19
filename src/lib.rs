//! A minimal token registry: sequential ids, one record per minted token,
//! and lookup by id with a sentinel record for ids that were never minted.

pub mod registry;
pub mod token;
