//! Detail screens: the batch script and log viewers, the attach prompt and
//! the node detail, with what they do on a key.

pub mod attach_prompt;
pub mod batch_script;
pub mod job_info;
pub mod log_viewer;
pub mod node_detail;
pub mod scroll;

pub use scroll::{Outcome, Scroll};
