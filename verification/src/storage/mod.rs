//! Metadata normalisation, tokenisation and the queries that find songs again.
pub mod data;
pub mod duplicata;
pub mod norm;
pub mod query;
pub mod storage;
pub mod strip;
pub mod words;
