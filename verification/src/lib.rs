//! Readers for Godot resource pack (`.pck`) archives, Godot compressed
//! textures (`.ctex`) and the save-file data model of Slay the Spire 2.
//!
//! All parsing works on bytes that are already in memory; reading files and
//! writing results is left to the caller.

pub mod bytes;
pub mod pck;
pub mod texture;
pub mod text;
pub mod save;
pub mod git_push;
pub mod extract;
pub mod serde_defaults;
