//! GrabIt: the verified core of a screen-capture and annotation tool.
pub mod app;
pub mod capture;
pub mod clock;
pub mod codec;
pub mod editor;
pub mod export;
pub mod history;
pub mod hotkeys;
pub mod image;
pub mod platform;
pub mod presets;
pub mod px;
pub mod settings;
pub mod text;
