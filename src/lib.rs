//! Cleans up log text: keeps the lines of one fixed shape, drops those that
//! the rules exclude, and reformats the rest grouped by module.

pub mod text;
pub mod line;
pub mod message;
pub mod rules;
pub mod filter;
pub mod laws;
