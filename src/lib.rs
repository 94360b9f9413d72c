//! Icon-font accessor generation: reads a font's Unicode character map,
//! derives an identifier for each glyph, drops collisions and assembles
//! the accessor fragments of one output module.
mod text;
pub mod naming;
pub mod registry;
pub mod selection;
pub mod font;
pub mod emit;
