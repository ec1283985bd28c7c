//! The terminal interface.
pub mod action;
pub mod app;
pub mod conduct;
pub mod flow;
pub mod images;
pub mod keys;
pub mod laws;
pub mod layout;
pub mod modal;
pub mod mode;
pub mod run;
pub mod screen;
pub mod transcript;
pub mod windows;
