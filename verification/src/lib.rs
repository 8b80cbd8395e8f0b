pub mod text;
pub mod strmap;
pub mod slurm;
pub mod responsive;
pub mod investigation;
pub mod app;
pub mod chrome;
pub mod columns;
pub mod views;
pub mod config;
pub mod settings;
