//! The collector service: settings, the feed of the user interface, persistence and health.
pub mod config;
pub mod feed;
pub mod health;
pub mod persistence;
