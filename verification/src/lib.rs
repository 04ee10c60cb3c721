//! The link layer of a terminal for one controller on a serial port.
//!
//! The library decides; it performs no input or output. It turns a typed
//! command into the frame that goes on the wire ([`codec`], [`hex`],
//! [`checksum`]), keeps the state that the foreground and the presence
//! watcher share ([`session`]), governs who holds the handle of the open port
//! and how the results of sending and receiving are judged ([`link`]), and
//! holds the parameters of the line ([`config`]). Opening the port, moving
//! the bytes and listing the ports are left to the caller.

pub mod changed;
pub mod checksum;
pub mod codec;
pub mod config;
pub mod error;
pub mod hex;
pub mod link;
pub mod session;
pub mod text;
