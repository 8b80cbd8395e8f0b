//! Configuration sections that the views and actions read.
//!
//! Loading and saving the configuration file, and the sections holding
//! floating-point settings, belong to the application.

use crate::text::{chars_of, to_string};
use vstd::prelude::*;

verus! {

/// Jobs view column width caps.
#[derive(Debug, Clone, PartialEq, Eq)]
pub struct JobsConfig {
    pub name_max: i64,
    pub user_max: i64,
    pub partition_max: i64,
    pub nodelist_reason_max: i64,
    pub qos_max: i64,
}

impl Default for JobsConfig {
    fn default() -> (c: Self)
        ensures
            c == (JobsConfig {
                name_max: 24,
                user_max: 12,
                partition_max: 14,
                nodelist_reason_max: 40,
                qos_max: 12,
            }),
    {
        JobsConfig {
            name_max: 24,
            user_max: 12,
            partition_max: 14,
            nodelist_reason_max: 40,
            qos_max: 12,
        }
    }
}

/// Attach-via-srun behavior.
#[derive(Debug, Clone, PartialEq, Eq)]
pub struct AttachConfig {
    pub enabled: bool,
    pub default_command: String,
    pub extra_args: String,
}

impl Default for AttachConfig {
    fn default() -> (c: Self)
        ensures
            c.enabled,
            c.default_command@ == "$SHELL -l"@,
            c.extra_args@ == Seq::<char>::empty(),
    {
        AttachConfig {
            enabled: true,
            default_command: to_string("$SHELL -l"),
            extra_args: String::new(),
        }
    }
}

/// UI visual behavior and confirmation toggles.
#[derive(Debug, Clone, PartialEq, Eq)]
pub struct UiConfig {
    pub expert_mode: bool,
    pub show_palette_hints: bool,
}

impl Default for UiConfig {
    fn default() -> (c: Self)
        ensures
            c == (UiConfig { expert_mode: false, show_palette_hints: true }),
    {
        UiConfig { expert_mode: false, show_palette_hints: true }
    }
}

/// Confirmation prompts for destructive actions.
#[derive(Debug, Clone, PartialEq, Eq)]
pub struct SafetyConfig {
    pub confirm_cancel_single: bool,
    pub confirm_bulk_actions: bool,
}

impl Default for SafetyConfig {
    fn default() -> (c: Self)
        ensures
            c == (SafetyConfig { confirm_cancel_single: true, confirm_bulk_actions: true }),
    {
        SafetyConfig { confirm_cancel_single: true, confirm_bulk_actions: true }
    }
}

/// Persisted sort/filter state.
#[derive(Debug, Clone, PartialEq, Eq, Default)]
pub struct ViewStateConfig {
    pub jobs_sort_col: String,
    pub jobs_sort_reversed: bool,
    pub nodes_sort_col: String,
    pub nodes_sort_reversed: bool,
    pub partitions_sort_col: String,
    pub partitions_sort_reversed: bool,
}

/// Hidden columns and explicit column order.
#[derive(Debug, Clone, PartialEq, Eq, Default)]
pub struct ColumnsConfig {
    pub jobs_hidden: Vec<String>,
    pub nodes_hidden: Vec<String>,
    pub partitions_hidden: Vec<String>,
    pub jobs_order: Vec<String>,
    pub nodes_order: Vec<String>,
    pub partitions_order: Vec<String>,
}

/// Desktop notification behavior.
#[derive(Debug, Clone, PartialEq, Eq)]
pub struct NotificationsConfig {
    pub desktop_enabled: bool,
}

impl Default for NotificationsConfig {
    fn default() -> (c: Self)
        ensures
            c == (NotificationsConfig { desktop_enabled: true }),
    {
        NotificationsConfig { desktop_enabled: true }
    }
}

/// Default SSH host for remote mode.
#[derive(Debug, Clone, PartialEq, Eq, Default)]
pub struct RemoteConfig {
    pub host: String,
}

/// Clipboard transport selection.
#[derive(Debug, Clone, PartialEq, Eq)]
pub struct ClipboardConfig {
    pub transport: String,
}

impl Default for ClipboardConfig {
    fn default() -> (c: Self)
        ensures
            c.transport@ == "auto"@,
    {
        ClipboardConfig { transport: to_string("auto") }
    }
}

/// Investigation Mode behavior.
#[derive(Debug, Clone, PartialEq, Eq)]
pub struct InvestigationConfig {
    pub reasons_path: String,
    pub max_related_jobs: i64,
}

impl Default for InvestigationConfig {
    fn default() -> (c: Self)
        ensures
            c.reasons_path@ == Seq::<char>::empty(),
            c.max_related_jobs == 20,
    {
        InvestigationConfig { reasons_path: String::new(), max_related_jobs: 20 }
    }
}

/// `s` with each backslash and double quote preceded by a backslash.
pub open spec fn toml_escape_spec(s: Seq<char>) -> Seq<char>
    decreases s.len(),
{
    if s.len() == 0 {
        Seq::empty()
    } else {
        toml_escape_spec(s.drop_last()) + if s.last() == '\\' {
            seq!['\\', '\\']
        } else if s.last() == '"' {
            seq!['\\', '"']
        } else {
            seq![s.last()]
        }
    }
}

/// Escape a string for TOML basic-string literals.
pub fn toml_escape(value: &str) -> (r: String)
    ensures
        r@ == toml_escape_spec(value@),
{
    let v = chars_of(value);
    let mut out = String::new();
    let mut i: usize = 0;
    while i < v.len()
        invariant
            i <= v@.len(),
            v@ == value@,
            out@ == toml_escape_spec(v@.take(i as int)),
        decreases v@.len() - i,
    {
        assert(v@.take(i + 1).drop_last() =~= v@.take(i as int));
        let c = v[i];
        if c == '\\' {
            out.push('\\');
            out.push('\\');
        } else if c == '"' {
            out.push('\\');
            out.push('"');
        } else {
            out.push(c);
        }
        assert(out@ =~= toml_escape_spec(v@.take(i + 1)));
        i = i + 1;
    }
    assert(v@.take(v@.len() as int) =~= v@);
    out
}

/// A change to the saved settings that a view asks the application to
/// write back to the config file.
#[derive(Debug, Clone, PartialEq, Eq)]
pub enum ConfigUpdate {
    /// `[view_state]`: the jobs sort column (empty for the default order) and
    /// whether it is reversed.
    JobsSort { sort_col: String, reversed: bool },
    /// `[columns]`: the jobs column order.
    JobsOrder(Vec<String>),
}

} // verus!
