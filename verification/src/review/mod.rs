pub mod converter;
pub mod types;
pub mod executor;
pub mod cache;
pub mod analyzer;
