//! The decision core of a Synergy server for Wayland desktops.
//!
//! The server captures keyboard and mouse input through the InputCapture portal
//! and forwards it to the clients placed around its desktop. This crate holds
//! what the server decides and computes; talking to the portal, to libei and to
//! the clients is left to the program around it.

pub mod args;
pub mod config;
pub mod coord;
pub mod ei;
pub mod forward;
pub mod keyboard;
pub mod layout;
pub mod portal;
pub mod server;
pub mod text;
