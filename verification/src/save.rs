//! The data model of Slay the Spire 2 save files.

pub mod history;
pub mod shared;
pub mod version;
