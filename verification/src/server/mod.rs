//! A node behind an HTTP interface.
pub mod api;
pub mod paginated_kv_store;
pub mod service;
