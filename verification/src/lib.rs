//! Issue browsing core: the state of the issue list and preview panes,
//! keyboard handling, remote URL parsing and text layout of the preview.

pub mod app;
pub mod cache;
pub mod command;
pub mod github;
pub mod input;
pub mod repo;
pub mod screen;
pub mod text;
pub mod ui;
pub mod worker;
