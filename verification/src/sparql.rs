pub mod pattern;
pub mod query;
