//! Seeded pseudorandom data generation for template rendering: a shared
//! random source, the string / integer / range primitives drawn from it, and
//! the parser for textual seeds.

pub mod decimal;
pub mod helpers;
pub mod laws;
pub mod seed;
pub mod source;
