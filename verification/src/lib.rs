//! A verified core for a toolchain version multiplexer.
//!
//! The crate models release channels, the persisted configuration, the
//! fallback-chain resolver, the install/upgrade protocol and the child
//! process launcher.  All decision logic is verified; input/output is left
//! to the surrounding binary, which feeds plain values in and carries the
//! requested actions out.

pub mod channel;
pub mod config;
pub mod install;
pub mod mux;
pub mod resolve;
pub mod self_ops;
pub mod strmap;
pub mod strutil;
