//! Terminal ticket viewer for Linear: the verified core.
//!
//! The library holds the viewer's state machine (tabs, selection,
//! refresh bookkeeping), the key bindings, configuration validation,
//! the theme-file reader and the row layout of the issue table. The
//! terminal, the network client and the file system stay outside.

pub mod app;
pub mod auth;
pub mod config;
pub mod keys;
pub mod linear;
pub mod text;
pub mod theme;
pub mod ui;
