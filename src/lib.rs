//! Incremental batch re-encoding of video files: eligibility of paths, the
//! ledger of processed files, progress parsing of the encoder's output and the
//! decisions taken for each directory entry and each transcode job.
pub mod text;
pub mod filter;
pub mod ledger;
pub mod report;
pub mod progress;
pub mod job;
pub mod laws;
