//! Turns database schema metadata into a derived table model and plans the
//! rendering of code templates against it.

pub mod generator;
pub mod helper;
pub mod model;
pub mod text;
