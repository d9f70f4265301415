pub mod models;
pub mod json;
pub mod fetch;
pub mod parse;
pub mod store;
pub mod pipeline;
pub mod schedule;
