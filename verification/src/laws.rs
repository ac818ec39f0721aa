//! Laws of the compiler: what holds of every program.

pub mod address;
pub mod control;
pub mod program;
pub mod scope;
pub mod security;
pub mod size;
pub mod text;
