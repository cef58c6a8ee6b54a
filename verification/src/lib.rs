//! Display modes of a desktop system: the value that describes one mode, its
//! textual forms, the sorted catalog of every display's modes, the resolution
//! of a textual mode specifier against that catalog, and the decisions of the
//! begin / apply / complete protocol that commits a mode to a display.
//!
//! The library works on plain values. Whoever talks to the platform hands it
//! what the platform reported and carries out what it decides.

pub mod catalog;
pub mod configure;
pub mod errors;
pub mod mode;
pub mod order;
pub mod specifier;
pub mod text;
