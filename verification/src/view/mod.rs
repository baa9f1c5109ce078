//! The state of the three editing views and what the keys do to it.

pub mod app;
pub mod cell;
pub mod chain;
pub mod phrase;
pub mod song;
