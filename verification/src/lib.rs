//! A watch-and-upload engine for video files: tracks per-path content
//! fingerprints across detection cycles, decides when a file has finished
//! being written, and coordinates the upload-then-delete hand-off so that a
//! local file is removed only after a confirmed successful transfer.

pub mod engine;
pub mod fingerprint;
pub mod stability;
pub mod tracker;
pub mod upload;
