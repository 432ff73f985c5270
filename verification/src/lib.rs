//! Verified core of a daily-featured-image downloader.
//!
//! The library models everything the downloader decides or computes:
//! resolution values and their canonical text form, per-resolution URL
//! derivation from the service's URL template, extraction of the image
//! metadata from the service's JSON envelope, the attribution document,
//! and the orchestration plan that fans one metadata fetch out into
//! independent download-and-persist tasks.  The surrounding binary only
//! performs the network and file-system actions that the library asks for.

pub mod attribution;
pub mod json;
pub mod metadata;
pub mod orchestrator;
pub mod resolution;
pub mod urls;
