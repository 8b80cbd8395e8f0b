//! View state and the decisions the views make: cursor tracking, column
//! layout, cell text, key handling. Drawing is the application's business.

pub mod keys;
pub mod table_state;
pub mod visual;
pub mod detail;
pub mod health;
pub mod jobs;
pub mod history;
pub mod partitions;
pub mod tint;
pub mod modals;
