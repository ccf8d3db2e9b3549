//! Media synchronisation engine: resolves the media assets embedded in a
//! tracked page, decides what to download, identifies file content by digest
//! and reconciles page, directory and inventory into one progress record.

pub mod config;
pub mod links;
pub mod mediafiles;
pub mod progress;
pub mod text;
pub mod utils;
