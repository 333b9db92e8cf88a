//! The verified core of a music library server: metadata normalisation and
//! tokenisation, duplicate-search criteria and queries, configuration
//! defaults, and the decisions of the import processor.
pub mod config;
pub mod models;
pub mod number;
pub mod path;
pub mod processor;
pub mod storage;
pub mod text;
