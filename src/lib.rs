pub mod query;
pub mod manifest;
pub mod usage;
pub mod plan;
pub mod session;
pub mod laws;
