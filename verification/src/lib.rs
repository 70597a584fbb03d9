//! A minimal deterministic registry: a singleton counter record plus topic
//! records, each stored under an address derived from a namespace tag and the
//! record's index rather than under an arbitrary identifier.

pub mod errors;
pub mod codec;
pub mod address;
pub mod registry;
