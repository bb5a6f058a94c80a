//! Terminal configuration: color schemes, profiles, and per-directory
//! appearance rules, with the rules' resolution and layering verified.

pub mod color;
pub mod path;
pub mod rules;
pub mod maps;
pub mod names;
pub mod fonts;
pub mod config;
