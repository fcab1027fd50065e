//! Control agent for a virtual machine guest.
//!
//! The host sends commands over a guest channel; the agent configures the
//! guest's network interfaces from host-supplied descriptors and keeps a
//! registry of loadable plugins that the host can start, talk to and stop.
//!
//! This crate holds the decisions: what a request leads to, what a network
//! configuration looks like, which plugin identifiers are known. Reading
//! and writing the channel, touching the filesystem and calling into plugin
//! modules are left to the program that embeds it.

pub mod common;
pub mod dispatch;
pub mod networking;
pub mod registry;
pub mod text;
