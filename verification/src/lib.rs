//! Core of a launcher for a moddable Java game: version-descriptor
//! resolution over inheritance chains, per-platform library selection,
//! classpath construction, native-archive extraction planning, and a
//! shell-like argument-template engine.

pub mod archive;
pub mod launcher;
pub mod parsing;
pub mod versions;
pub mod yggdrasil;
pub mod strutil;
