//! Type declarations from interface descriptors, and the batch queue that fetches them.

pub mod api;
pub mod config;
pub mod config_laws;
pub mod emit;
pub mod error;
pub mod form_resolver;
pub mod global_config;
pub mod interface;
pub mod json;
pub mod json_resolver;
pub mod notification;
pub mod queue;
pub mod request;
pub mod schema;
pub mod template;
pub mod text;
pub mod worker;
