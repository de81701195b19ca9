//! Senders: what they send, in which format, from which settings.
pub mod config_sync;
pub mod format;
pub mod frames;
pub mod link;
pub mod options;
pub mod panel;
pub mod replay;
