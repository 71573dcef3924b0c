//! Search-result browsing logic for a terminal video player front end.
pub mod text;
pub mod query;
pub mod video;
pub mod sort;
pub mod search;
pub mod screen;
pub mod app;
pub mod laws;
