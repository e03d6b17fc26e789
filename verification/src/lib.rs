//! Rendering core of an editor-to-language-server bridge.
//!
//! The library covers the algorithmic heart of the bridge: matching stored
//! diagnostics against a cursor line or point, and synthesizing the quoted,
//! double-encoded command strings that the host editor executes.

pub mod actions;
pub mod escape;
pub mod hover;
pub mod json_text;
pub mod overlap;
pub mod strutil;
