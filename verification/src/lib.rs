//! Verified exercises: a department roster driven by free-text commands,
//! together with a handful of small string and number routines.

pub mod accounts;
pub mod carol;
pub mod chance;
pub mod coins;
pub mod command;
pub mod fibonacci;
pub mod lines;
pub mod pig_latin;
pub mod report;
pub mod roster;
pub mod session;
pub mod shapes;
pub mod slices;
pub mod statistics;
pub mod text;
