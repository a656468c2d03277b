//! Decisions of a desktop shell that shows one streaming service at a time in a child webview.
pub mod error;
pub mod query;
pub mod state;
pub mod navigation;
pub mod debounce;
pub mod protocol;
pub mod media;
pub mod page;
pub mod tray;
