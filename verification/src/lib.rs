//! State and rules of a to-do list made of projects that hold tasks.
//!
//! The crate holds no user interface. A front end draws the state, reports
//! what the user did to the functions of [`rows`], and lets [`actions`] apply
//! what those functions queued once the frame is drawn.

pub mod actions;
pub mod header;
pub mod model;
pub mod numbering;
pub mod removal;
pub mod rows;
pub mod text;
