//! Data layer: Slurm output parsers, command construction and outcome handling.

pub mod model;
pub mod parse;
pub mod exec;
pub mod investigate;
pub mod fetch;
