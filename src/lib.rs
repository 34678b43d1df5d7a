//! Mapping engine for a multi-button gaming mouse: decodes raw 8-byte input
//! reports, tracks the mode/shift context and per-button edges and repeat
//! timers, and turns them into input actions and macro firings.

pub mod report;
pub mod program;
pub mod timer;
pub mod motion;
pub mod config;
pub mod mapper;
pub mod registry;
