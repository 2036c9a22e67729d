//! A terminal clock that draws the time as large block glyphs and repaints
//! only the cells that changed since the previous frame.

pub mod font;
pub mod term;
pub mod time;
pub mod view;
pub mod laws;
