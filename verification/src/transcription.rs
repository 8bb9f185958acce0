pub mod models;
pub mod types;
