//! Geometry, key and command-line logic of a desktop automation tool, with
//! machine-checked contracts.

pub mod cli;
pub mod engine;
pub mod input;
pub mod invocation;
pub mod message;
pub mod modes;
pub mod overlay;
pub mod platform;
pub mod report;
pub mod session;
pub mod spy;
pub mod text;
pub mod win32;
pub mod xtest;
