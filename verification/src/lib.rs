//! The verified logic of the MentisDB daemon.

pub mod agents;
pub mod auth;
pub mod catalog;
pub mod chains;
pub mod ids;
pub mod listing;
pub mod paging;
pub mod paint;
pub mod reply;
pub mod routes;
pub mod skills;
pub mod sound;
pub mod startup;
pub mod steps;
pub mod summary;
pub mod table;
pub mod text;
pub mod thoughts;
