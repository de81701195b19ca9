//! What the user interface shows and decides.
pub mod alarms;
pub mod client;
pub mod feed;
pub mod monitors;
pub mod replay;
pub mod series;
pub mod windows;
