//! The push-subscription pipeline: registration storage, the server
//! communication decisions, and its error taxonomy.

pub mod communications;
pub mod error;
pub mod storage;
