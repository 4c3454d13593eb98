//! The terminal chat client.

pub mod app;
pub mod clipboard;
pub mod composer;
pub mod demo;
pub mod events;
pub mod keys;
pub mod marks;
pub mod paint;
pub mod preview;
pub mod replies;
pub mod run;
pub mod run_app;
pub mod run_cards;
pub mod run_screen;
pub mod screen;
pub mod thread;
pub mod timeline;
