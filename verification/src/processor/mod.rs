//! Import processing: probing files, deciding on duplicates and transcoding.
pub mod probe;
pub mod processor;
pub mod transcode;
