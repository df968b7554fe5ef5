//! rat_quickdb: a cross-database ODM core.
//!
//! The verified core of a document/relational mapper: the value model shared by
//! every backend, field validation, SQL and MongoDB query generation, table
//! schemas, their version history and the table manager, ID generation, the
//! registry of databases and models, and cache keys.

pub mod text;
pub mod error;
pub mod types;
pub mod json;
pub mod query_builder;
pub mod outside;
pub mod model;
pub mod schema;
pub mod id_generator;
pub mod ddl;
pub mod version;
pub mod config;
pub mod pool;
pub mod mongo;
pub mod adapter;
pub mod cache;
pub mod keyed;
pub mod manager;
pub mod table_manager;
pub mod task_options;
pub mod serializer;
