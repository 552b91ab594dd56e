//! Query and filter engine for forensic device-timeline events, with the
//! interactive time-range picker that narrows them.

pub mod text;
pub mod display;
pub mod filters;
pub mod picker;
pub mod session;
pub mod time;
pub mod timeline;
