//! Verified RDAP domain lookup: domain-name validation, TLD-to-endpoint
//! routing, and translation of RDAP JSON documents into normalized records.

pub mod json;
pub mod lookup;
pub mod rdap;
pub mod registry;
pub mod strutil;
pub mod validate;
