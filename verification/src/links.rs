//! Tracked pages and the passes that bring them up to date.

pub mod dto;
pub mod links_db_service;
pub mod links_service;
pub mod media_urls;
pub mod messages;
pub mod page;
pub mod reconcile;
pub mod scan;
pub mod url;
