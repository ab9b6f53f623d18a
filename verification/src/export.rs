//! PNG export and clipboard payloads.
//!
//! What goes to disk and to the clipboard has the cursor layer composited into
//! the base image; the document keeps the cursor on its own layer.
pub mod clipboard;
pub mod gif;
pub mod png;
