//! Schema comparison and migration-script generation for SQL databases.
pub mod connection;
pub mod credentials;
pub mod dependencies;
pub mod diff_engine;
pub mod error;
pub mod migration_generator;
pub mod models;
pub mod schema_analyzer;
pub mod strings;
