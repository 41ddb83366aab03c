//! The browsing-history storage schema.

pub mod schema;
