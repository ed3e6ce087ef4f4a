//! Editor view logic: text columns and byte offsets, the render model of
//! editor lines and the scrollbar, keyboard command mapping, clipboard line
//! handling, viewport and mouse interaction state, and workspace tabs.
pub mod text;
pub mod layout;
pub mod render_model;
pub mod command;
pub mod clipboard;
pub mod input;
pub mod view;
pub mod workspace;
pub mod paint;
