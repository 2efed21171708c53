//! Command-line option parsing: declare typed options with aliases, defaults and
//! modifiers, then match an argument list against them in one pass.

pub mod value;
pub mod parser;
pub mod help;
pub mod engine;
pub mod laws;
pub mod report;
