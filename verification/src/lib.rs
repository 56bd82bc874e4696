//! An in-memory multilingual full-text index and the plans of a SQLite-backed,
//! content-addressed asset vault.

pub mod engine;
pub mod error;
pub mod index;
pub mod json;
pub mod laws;
pub mod pack;
pub mod schema;
pub mod search;
pub mod shape;
pub mod statements;
pub mod tables;
pub mod text;
pub mod value;
pub mod vault;

pub use index::SearchIndex;
pub use vault::SqliteVault;
