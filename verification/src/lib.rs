//! Navigation and selection state of a desktop file browser.
//!
//! The crate holds the decisions of the browser: the history of visited
//! directories, the records that are shown, the multi-selection that clicks
//! with Ctrl and Shift build, and the controller that turns events of the
//! user interface into requests to the file system. Listing, opening and
//! deleting files is the caller's work: the controller hands out an
//! [`controller::Action`] for each such request and takes the answer back.

pub mod paths;
pub mod history;
pub mod text;
pub mod timestamp;
pub mod entry;
pub mod ids;
pub mod display;
pub mod selection;
pub mod controller;
