//! Verified core of the Tendril desktop inspection and control toolkit.

pub mod logging;
pub mod text;
pub mod envelope;
pub mod error;
pub mod platform;
pub mod model;
pub mod config;
pub mod execution_lock;
pub mod input;
pub mod capture;
pub mod elements;
pub mod discovery;
pub mod win32;
pub mod cli;
pub mod clipboard;
pub mod listen;
pub mod camera;
pub mod commands;
pub mod rendering;
pub mod feedback;
pub mod mcp;
pub mod android;
