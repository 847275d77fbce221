//! Binary signature scanning: compile a textual hex pattern with `??`
//! placeholders into a [`Pattern`], then slide it across a byte buffer and
//! collect the bytes (and positions) that line up with the placeholders.

pub mod laws;
pub mod model;
pub mod parse;
pub mod pattern;

pub use model::PatternElement;
pub use pattern::BinmatchError;
pub use pattern::Pattern;
