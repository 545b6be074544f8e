//! Verified core of a curated game launcher for MiSTer FPGA.
pub mod admin;
pub mod config;
pub mod framebuf;
pub mod grid;
pub mod input;
pub mod mister;
pub mod paths;
pub mod session;
pub mod splash;
pub mod supervisor;
pub mod text;
pub mod uinput;
pub mod validate;
