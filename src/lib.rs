//! A digital-rain simulation: falling glyph trails over a character grid,
//! driven by elapsed time, one drop at most per column.

pub mod cli;
pub mod columns;
pub mod drops;
pub mod frame;
pub mod glyphs;
pub mod random;
