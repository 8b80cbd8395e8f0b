//! Health view text: error categories and truncated stderr.
//!
//! The view is passive: it shows the command history the runner records.

use crate::slurm::model::ErrorCategory;
use crate::text::{chars_of, push_str, string_from_range, to_string};
use vstd::prelude::*;
use vstd::string::*;
use vstd::utf8::*;

verus! {

/// Format an error category for display: its wire name, or empty.
pub fn format_error_category(category: &Option<ErrorCategory>) -> (r: String)
    ensures
        r@ == match category {
            Some(c) => c.wire_name(),
            None => Seq::<char>::empty(),
        },
{
    match category {
        Some(c) => to_string(c.as_str()),
        None => String::new(),
    }
}

/// What `truncate_stderr` shows: the first 40 characters and `...` when
/// longer.
pub open spec fn truncate_stderr_spec(stderr: Seq<char>) -> Seq<char> {
    if stderr.len() > 40 {
        stderr.take(40) + "..."@
    } else {
        stderr
    }
}

/// Truncate stderr to fit in the ERROR column (40 characters + "..." if longer).
pub fn truncate_stderr(stderr: &str) -> (r: String)
    ensures
        r@ == truncate_stderr_spec(stderr@),
{
    let v = chars_of(stderr);
    if v.len() > 40 {
        let mut r = string_from_range(&v, 0, 40);
        push_str(&mut r, "...");
        r
    } else {
        to_string(stderr)
    }
}

} // verus!
