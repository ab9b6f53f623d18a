//! The annotation editor.
pub mod app;
pub mod commands;
pub mod document;
pub mod flatten;
pub mod gif_app;
pub mod inspector;
pub mod layout;
pub mod markup;
pub mod paint;
pub mod preset_panel;
pub mod preview;
pub mod quick_styles;
pub mod rasterize;
pub mod record;
pub mod session;
pub mod style;
pub mod tools;
