//! Verified core of the SNSX language ecosystem: the task, actor and sandbox
//! runtime, the SNSP wire formats, the drawing and layout toolkit, the text
//! editor buffers of the studio, the workspace shell command language, and
//! the workspace's listings, reports and package plans.

pub mod runtime;
pub mod codec;
pub mod text;
pub mod network;
pub mod crypto;
pub mod graphics;
pub mod layout;
pub mod modules;
pub mod editor;
pub mod studio;
pub mod shell;
pub mod workspace;
pub mod console;
pub mod paths;
pub mod web;
pub mod preview;
pub mod vm;
pub mod manifest;
pub mod listing;
pub mod reports;
pub mod packages;
pub mod artifacts;
