//! The inventory of downloaded files.

pub mod dto;
pub mod hashing;
pub mod mediafiles_db_service;
pub mod mediafiles_service;
