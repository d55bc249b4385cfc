//! What the front end shows of a download: the tabs, the status of an item
//! and the progress messages that change it.

pub mod app;
pub mod downloads;
