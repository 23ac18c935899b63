//! Model and presentation logic of a terminal system monitor: bounded metric
//! histories, configuration, process ranking, text layout and graph cells.
pub mod app;
pub mod chars;
pub mod config;
pub mod input;
pub mod metrics;
pub mod text;
pub mod ui;
