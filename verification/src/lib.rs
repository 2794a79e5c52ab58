//! Verified core of a content-archive installer.
//!
//! The library covers the decision logic of a download-and-install
//! pipeline: classifying downloaded bytes, planning how a ZIP archive
//! is unpacked (naming and root-stripping), keeping every written path
//! inside the destination, tracking download progress, and sequencing
//! the install steps.  All file, network and archive I/O is left to a
//! thin unverified shell that feeds this library plain values.

pub mod analyzer;
pub mod error;
pub mod extract;
pub mod fname;
pub mod links;
pub mod listing;
pub mod machine;
pub mod models;
pub mod numfmt;
pub mod pathfind;
pub mod pathseg;
pub mod progress;
pub mod sniff;
pub mod token;
pub mod utils;
pub mod watcher;
