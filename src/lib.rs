//! Collects vessel reports from a tracking service's tabular answers and
//! keeps one append-only, deduplicated series per vessel.
pub mod decimal;
pub mod record;
pub mod table;
pub mod decoder;
pub mod decode_laws;
pub mod store;
pub mod series_store;
pub mod request;
pub mod controller;
