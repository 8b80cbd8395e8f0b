//! Reading the settings file's sections from its parsed document.
//!
//! A value of the right kind for a setting replaces its default; a missing
//! value, or one of another kind, leaves the default in place. Settings that
//! hold floating-point numbers are read by the application.

use crate::config::{
    AttachConfig, ClipboardConfig, ColumnsConfig, InvestigationConfig, JobsConfig,
    NotificationsConfig, RemoteConfig, SafetyConfig, UiConfig, ViewStateConfig,
};
use crate::text::{str_eq, to_string};
use vstd::prelude::*;

verus! {

/// A value of a parsed TOML document.
#[derive(Debug)]
pub enum TomlItem {
    Text(String),
    Integer(i64),
    Flag(bool),
    List(Vec<TomlItem>),
    Table(Vec<TomlEntry>),
    /// A value of another kind (a float or a date and time).
    Other,
}

/// A key of a TOML table with its value.
#[derive(Debug)]
pub struct TomlEntry {
    pub key: String,
    pub value: TomlItem,
}

/// The value of the last entry of `table` named `key`.
pub open spec fn entry_value(table: Seq<TomlEntry>, key: Seq<char>) -> Option<TomlItem>
    decreases table.len(),
{
    if table.len() == 0 {
        None
    } else if table.last().key@ == key {
        Some(table.last().value)
    } else {
        entry_value(table.drop_last(), key)
    }
}

/// The value of `key` in the table `section` of the document `doc`.
pub open spec fn setting(doc: Seq<TomlEntry>, section: Seq<char>, key: Seq<char>) -> Option<TomlItem> {
    match entry_value(doc, section) {
        Some(TomlItem::Table(t)) => entry_value(t@, key),
        _ => None,
    }
}

/// A text value, else the default `d`.
pub open spec fn text_or(item: Option<TomlItem>, d: Seq<char>) -> Seq<char> {
    match item {
        Some(TomlItem::Text(s)) => s@,
        _ => d,
    }
}

/// An integer value, else the default `d`.
pub open spec fn int_or(item: Option<TomlItem>, d: i64) -> i64 {
    match item {
        Some(TomlItem::Integer(n)) => n,
        _ => d,
    }
}

/// A boolean value, else the default `d`.
pub open spec fn flag_or(item: Option<TomlItem>, d: bool) -> bool {
    match item {
        Some(TomlItem::Flag(b)) => b,
        _ => d,
    }
}

/// The text elements of a list, in order.
pub open spec fn texts_of(items: Seq<TomlItem>) -> Seq<Seq<char>>
    decreases items.len(),
{
    if items.len() == 0 {
        Seq::empty()
    } else {
        texts_of(items.drop_last()) + match items.last() {
            TomlItem::Text(s) => seq![s@],
            _ => Seq::empty(),
        }
    }
}

/// The text elements of a list value, else no names.
pub open spec fn texts_or_none(item: Option<TomlItem>) -> Seq<Seq<char>> {
    match item {
        Some(TomlItem::List(v)) => texts_of(v@),
        _ => Seq::empty(),
    }
}

/// The item a reference points at, if any.
pub open spec fn item_of(r: Option<&TomlItem>) -> Option<TomlItem> {
    match r {
        Some(x) => Some(*x),
        None => None,
    }
}

/// The value of the last entry of `table` named `key`.
pub fn find_entry<'a>(table: &'a Vec<TomlEntry>, key: &str) -> (r: Option<&'a TomlItem>)
    ensures
        item_of(r) == entry_value(table@, key@),
{
    let mut found: Option<&TomlItem> = None;
    let mut i: usize = 0;
    while i < table.len()
        invariant
            i <= table@.len(),
            item_of(found) == entry_value(table@.take(i as int), key@),
        decreases table@.len() - i,
    {
        assert(table@.take(i + 1).drop_last() =~= table@.take(i as int));
        if str_eq(table[i].key.as_str(), key) {
            found = Some(&table[i].value);
        }
        i = i + 1;
    }
    assert(table@.take(table@.len() as int) =~= table@);
    found
}

/// The value of `key` in the table `section` of `doc`.
pub fn find_setting<'a>(doc: &'a Vec<TomlEntry>, section: &str, key: &str) -> (r: Option<&'a TomlItem>)
    ensures
        item_of(r) == setting(doc@, section@, key@),
{
    match find_entry(doc, section) {
        Some(TomlItem::Table(t)) => find_entry(t, key),
        _ => None,
    }
}

/// A text setting, else the default `d`.
fn text_setting(doc: &Vec<TomlEntry>, section: &str, key: &str, d: &str) -> (r: String)
    ensures
        r@ == text_or(setting(doc@, section@, key@), d@),
{
    match find_setting(doc, section, key) {
        Some(TomlItem::Text(s)) => s.clone(),
        _ => to_string(d),
    }
}

/// An integer setting, else the default `d`.
fn int_setting(doc: &Vec<TomlEntry>, section: &str, key: &str, d: i64) -> (r: i64)
    ensures
        r == int_or(setting(doc@, section@, key@), d),
{
    match find_setting(doc, section, key) {
        Some(TomlItem::Integer(n)) => *n,
        _ => d,
    }
}

/// A boolean setting, else the default `d`.
fn flag_setting(doc: &Vec<TomlEntry>, section: &str, key: &str, d: bool) -> (r: bool)
    ensures
        r == flag_or(setting(doc@, section@, key@), d),
{
    match find_setting(doc, section, key) {
        Some(TomlItem::Flag(b)) => *b,
        _ => d,
    }
}

/// The views of a list of names.
pub open spec fn names(v: Seq<String>) -> Seq<Seq<char>> {
    v.map_values(|s: String| s@)
}

/// The text elements of `items`, in order.
fn texts(items: &Vec<TomlItem>) -> (r: Vec<String>)
    ensures
        names(r@) == texts_of(items@),
{
    let mut r: Vec<String> = Vec::new();
    let mut i: usize = 0;
    while i < items.len()
        invariant
            i <= items@.len(),
            names(r@) == texts_of(items@.take(i as int)),
        decreases items@.len() - i,
    {
        assert(items@.take(i + 1).drop_last() =~= items@.take(i as int));
        let ghost before = r@;
        match &items[i] {
            TomlItem::Text(s) => {
                r.push(s.clone());
                assert(names(r@) =~= names(before) + seq![s@]);
            },
            _ => {
                assert(names(r@) =~= names(before) + Seq::<Seq<char>>::empty());
            },
        }
        i = i + 1;
    }
    assert(items@.take(items@.len() as int) =~= items@);
    r
}

/// A list-of-names setting (its text elements), else no names.
fn names_setting(doc: &Vec<TomlEntry>, section: &str, key: &str) -> (r: Vec<String>)
    ensures
        names(r@) == texts_or_none(setting(doc@, section@, key@)),
{
    match find_setting(doc, section, key) {
        Some(TomlItem::List(v)) => texts(v),
        _ => {
            let r: Vec<String> = Vec::new();
            assert(names(r@) =~= Seq::<Seq<char>>::empty());
            r
        },
    }
}

/// The non-floating-point settings of a settings file.
#[derive(Debug)]
pub struct Settings {
    pub theme: String,
    pub jobs: JobsConfig,
    pub attach: AttachConfig,
    pub ui: UiConfig,
    pub safety: SafetyConfig,
    pub health: HealthLimits,
    pub view_state: ViewStateConfig,
    pub columns: ColumnsConfig,
    pub notifications: NotificationsConfig,
    pub remote: RemoteConfig,
    pub clipboard: ClipboardConfig,
    pub investigation: InvestigationConfig,
}

/// The integer and boolean settings of the `[health]` section.
#[derive(Debug, Clone, Copy, PartialEq, Eq)]
pub struct HealthLimits {
    pub enabled: bool,
    pub history_size: i64,
    pub warn_down_nodes: i64,
}

/// The `[jobs]` section of `doc`.
pub open spec fn jobs_from(doc: Seq<TomlEntry>) -> JobsConfig {
    JobsConfig {
        name_max: int_or(setting(doc, "jobs"@, "name_max"@), 24),
        user_max: int_or(setting(doc, "jobs"@, "user_max"@), 12),
        partition_max: int_or(setting(doc, "jobs"@, "partition_max"@), 14),
        nodelist_reason_max: int_or(setting(doc, "jobs"@, "nodelist_reason_max"@), 40),
        qos_max: int_or(setting(doc, "jobs"@, "qos_max"@), 12),
    }
}

/// The `[ui]` section of `doc`.
pub open spec fn ui_from(doc: Seq<TomlEntry>) -> UiConfig {
    UiConfig {
        expert_mode: flag_or(setting(doc, "ui"@, "expert_mode"@), false),
        show_palette_hints: flag_or(setting(doc, "ui"@, "show_palette_hints"@), true),
    }
}

/// The `[safety]` section of `doc`.
pub open spec fn safety_from(doc: Seq<TomlEntry>) -> SafetyConfig {
    SafetyConfig {
        confirm_cancel_single: flag_or(setting(doc, "safety"@, "confirm_cancel_single"@), true),
        confirm_bulk_actions: flag_or(setting(doc, "safety"@, "confirm_bulk_actions"@), true),
    }
}

/// The integer and boolean settings of the `[health]` section of `doc`.
pub open spec fn health_from(doc: Seq<TomlEntry>) -> HealthLimits {
    HealthLimits {
        enabled: flag_or(setting(doc, "health"@, "enabled"@), true),
        history_size: int_or(setting(doc, "health"@, "history_size"@), 100),
        warn_down_nodes: int_or(setting(doc, "health"@, "warn_down_nodes"@), 1),
    }
}

/// The `[notifications]` section of `doc`.
pub open spec fn notifications_from(doc: Seq<TomlEntry>) -> NotificationsConfig {
    NotificationsConfig {
        desktop_enabled: flag_or(setting(doc, "notifications"@, "desktop_enabled"@), true),
    }
}

/// `c` is the `[attach]` section of `doc`.
pub open spec fn attach_from(c: AttachConfig, doc: Seq<TomlEntry>) -> bool {
    &&& c.enabled == flag_or(setting(doc, "attach"@, "enabled"@), true)
    &&& c.default_command@ == text_or(setting(doc, "attach"@, "default_command"@), "$SHELL -l"@)
    &&& c.extra_args@ == text_or(setting(doc, "attach"@, "extra_args"@), Seq::empty())
}

/// `c` is the `[view_state]` section of `doc`.
pub open spec fn view_state_from(c: ViewStateConfig, doc: Seq<TomlEntry>) -> bool {
    &&& c.jobs_sort_col@ == text_or(setting(doc, "view_state"@, "jobs_sort_col"@), Seq::empty())
    &&& c.jobs_sort_reversed == flag_or(setting(doc, "view_state"@, "jobs_sort_reversed"@), false)
    &&& c.nodes_sort_col@ == text_or(setting(doc, "view_state"@, "nodes_sort_col"@), Seq::empty())
    &&& c.nodes_sort_reversed == flag_or(setting(doc, "view_state"@, "nodes_sort_reversed"@), false)
    &&& c.partitions_sort_col@ == text_or(
        setting(doc, "view_state"@, "partitions_sort_col"@),
        Seq::empty(),
    )
    &&& c.partitions_sort_reversed == flag_or(
        setting(doc, "view_state"@, "partitions_sort_reversed"@),
        false,
    )
}

/// `c` is the `[columns]` section of `doc`.
pub open spec fn columns_from(c: ColumnsConfig, doc: Seq<TomlEntry>) -> bool {
    &&& names(c.jobs_hidden@) == texts_or_none(setting(doc, "columns"@, "jobs_hidden"@))
    &&& names(c.nodes_hidden@) == texts_or_none(setting(doc, "columns"@, "nodes_hidden"@))
    &&& names(c.partitions_hidden@) == texts_or_none(setting(doc, "columns"@, "partitions_hidden"@))
    &&& names(c.jobs_order@) == texts_or_none(setting(doc, "columns"@, "jobs_order"@))
    &&& names(c.nodes_order@) == texts_or_none(setting(doc, "columns"@, "nodes_order"@))
    &&& names(c.partitions_order@) == texts_or_none(setting(doc, "columns"@, "partitions_order"@))
}

/// `c` is the `[investigation]` section of `doc`.
pub open spec fn investigation_from(c: InvestigationConfig, doc: Seq<TomlEntry>) -> bool {
    &&& c.reasons_path@ == text_or(setting(doc, "investigation"@, "reasons_path"@), Seq::empty())
    &&& c.max_related_jobs == int_or(setting(doc, "investigation"@, "max_related_jobs"@), 20)
}

/// `s` holds the settings of `doc`: each one the document's value where it
/// has one of the right kind, else its default.
pub open spec fn settings_from(s: Settings, doc: Seq<TomlEntry>) -> bool {
    &&& s.theme@ == text_or(entry_value(doc, "theme"@), "dracula"@)
    &&& s.jobs == jobs_from(doc)
    &&& attach_from(s.attach, doc)
    &&& s.ui == ui_from(doc)
    &&& s.safety == safety_from(doc)
    &&& s.health == health_from(doc)
    &&& view_state_from(s.view_state, doc)
    &&& columns_from(s.columns, doc)
    &&& s.notifications == notifications_from(doc)
    &&& s.remote.host@ == text_or(setting(doc, "remote"@, "host"@), Seq::empty())
    &&& s.clipboard.transport@ == text_or(setting(doc, "clipboard"@, "transport"@), "auto"@)
    &&& investigation_from(s.investigation, doc)
}

fn read_jobs(doc: &Vec<TomlEntry>) -> (c: JobsConfig)
    ensures
        c == jobs_from(doc@),
{
    JobsConfig {
        name_max: int_setting(doc, "jobs", "name_max", 24),
        user_max: int_setting(doc, "jobs", "user_max", 12),
        partition_max: int_setting(doc, "jobs", "partition_max", 14),
        nodelist_reason_max: int_setting(doc, "jobs", "nodelist_reason_max", 40),
        qos_max: int_setting(doc, "jobs", "qos_max", 12),
    }
}

fn read_attach(doc: &Vec<TomlEntry>) -> (c: AttachConfig)
    ensures
        attach_from(c, doc@),
{
    proof {
        reveal_strlit("");
        assert(""@ =~= Seq::<char>::empty());
    }
    AttachConfig {
        enabled: flag_setting(doc, "attach", "enabled", true),
        default_command: text_setting(doc, "attach", "default_command", "$SHELL -l"),
        extra_args: text_setting(doc, "attach", "extra_args", ""),
    }
}

fn read_view_state(doc: &Vec<TomlEntry>) -> (c: ViewStateConfig)
    ensures
        view_state_from(c, doc@),
{
    proof {
        reveal_strlit("");
        assert(""@ =~= Seq::<char>::empty());
    }
    ViewStateConfig {
        jobs_sort_col: text_setting(doc, "view_state", "jobs_sort_col", ""),
        jobs_sort_reversed: flag_setting(doc, "view_state", "jobs_sort_reversed", false),
        nodes_sort_col: text_setting(doc, "view_state", "nodes_sort_col", ""),
        nodes_sort_reversed: flag_setting(doc, "view_state", "nodes_sort_reversed", false),
        partitions_sort_col: text_setting(doc, "view_state", "partitions_sort_col", ""),
        partitions_sort_reversed: flag_setting(doc, "view_state", "partitions_sort_reversed", false),
    }
}

fn read_columns(doc: &Vec<TomlEntry>) -> (c: ColumnsConfig)
    ensures
        columns_from(c, doc@),
{
    ColumnsConfig {
        jobs_hidden: names_setting(doc, "columns", "jobs_hidden"),
        nodes_hidden: names_setting(doc, "columns", "nodes_hidden"),
        partitions_hidden: names_setting(doc, "columns", "partitions_hidden"),
        jobs_order: names_setting(doc, "columns", "jobs_order"),
        nodes_order: names_setting(doc, "columns", "nodes_order"),
        partitions_order: names_setting(doc, "columns", "partitions_order"),
    }
}

/// Read the settings of a parsed settings file. Each setting takes the
/// document's value when it is present with the right kind (text, integer,
/// boolean, or a list whose text elements are taken); otherwise it keeps its
/// default. Unknown sections and keys are ignored.
pub fn read_settings(doc: &Vec<TomlEntry>) -> (s: Settings)
    ensures
        settings_from(s, doc@),
{
    proof {
        reveal_strlit("");
        assert(""@ =~= Seq::<char>::empty());
    }
    let theme = match find_entry(doc, "theme") {
        Some(TomlItem::Text(t)) => t.clone(),
        _ => to_string("dracula"),
    };
    Settings {
        theme,
        jobs: read_jobs(doc),
        attach: read_attach(doc),
        ui: UiConfig {
            expert_mode: flag_setting(doc, "ui", "expert_mode", false),
            show_palette_hints: flag_setting(doc, "ui", "show_palette_hints", true),
        },
        safety: SafetyConfig {
            confirm_cancel_single: flag_setting(doc, "safety", "confirm_cancel_single", true),
            confirm_bulk_actions: flag_setting(doc, "safety", "confirm_bulk_actions", true),
        },
        health: HealthLimits {
            enabled: flag_setting(doc, "health", "enabled", true),
            history_size: int_setting(doc, "health", "history_size", 100),
            warn_down_nodes: int_setting(doc, "health", "warn_down_nodes", 1),
        },
        view_state: read_view_state(doc),
        columns: read_columns(doc),
        notifications: NotificationsConfig {
            desktop_enabled: flag_setting(doc, "notifications", "desktop_enabled", true),
        },
        remote: RemoteConfig { host: text_setting(doc, "remote", "host", "") },
        clipboard: ClipboardConfig { transport: text_setting(doc, "clipboard", "transport", "auto") },
        investigation: InvestigationConfig {
            reasons_path: text_setting(doc, "investigation", "reasons_path", ""),
            max_related_jobs: int_setting(doc, "investigation", "max_related_jobs", 20),
        },
    }
}

} // verus!
