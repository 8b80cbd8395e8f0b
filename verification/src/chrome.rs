//! Responsive chrome: tab labels, subtitle, and footer binding visibility.
//!
//! Tab labels collapse from full to short at the xs tier, the subtitle is
//! truncated to the room the terminal leaves, and footer bindings are shown
//! from a minimum tier on. All functions are pure.

use crate::app::Tab;
use crate::responsive::{tier_rank, Tier};
use crate::text::{chars_of, str_eq, string_from_range, to_string};
use vstd::prelude::*;

verus! {

/// The short label of a tab, used at the xs tier: no bracket.
pub open spec fn short_label(t: Tab) -> Seq<char> {
    match t {
        Tab::Jobs => "Jobs"@,
        Tab::Nodes => "Nodes"@,
        Tab::Partitions => "Partitions"@,
        Tab::History => "History"@,
        Tab::Health => "Health"@,
    }
}

/// The full label of a tab, used from the sm tier on: with an `[N]` suffix.
pub open spec fn full_label(t: Tab) -> Seq<char> {
    match t {
        Tab::Jobs => "Jobs [1]"@,
        Tab::Nodes => "Nodes [2]"@,
        Tab::Partitions => "Partitions [3]"@,
        Tab::History => "History [4]"@,
        Tab::Health => "Health [5]"@,
    }
}

/// Tab labels: (tab, short, full) for each tab.
pub fn tab_labels() -> (r: [(Tab, &'static str, &'static str); 5])
    ensures
        forall|i: int|
            0 <= i < 5 ==> r@[i].1@ == short_label(#[trigger] r@[i].0) && r@[i].2@ == full_label(
                r@[i].0,
            ),
        r@.map_values(|e: (Tab, &'static str, &'static str)| e.0) == seq![
            Tab::Jobs,
            Tab::Nodes,
            Tab::Partitions,
            Tab::History,
            Tab::Health,
        ],
{
    let r = [
        (Tab::Jobs, "Jobs", "Jobs [1]"),
        (Tab::Nodes, "Nodes", "Nodes [2]"),
        (Tab::Partitions, "Partitions", "Partitions [3]"),
        (Tab::History, "History", "History [4]"),
        (Tab::Health, "Health", "Health [5]"),
    ];
    assert(r@.map_values(|e: (Tab, &'static str, &'static str)| e.0) =~= seq![
        Tab::Jobs,
        Tab::Nodes,
        Tab::Partitions,
        Tab::History,
        Tab::Health,
    ]);
    r
}

/// Return the appropriate tab label for the given tab and tier.
///
/// At tier xs, returns the short label (no bracket).
/// At sm and above, returns the full label (with [N] suffix).
pub fn tab_label(tab: Tab, tier: Tier) -> (s: &'static str)
    ensures
        s@ == if tier == Tier::Xs {
            short_label(tab)
        } else {
            full_label(tab)
        },
{
    let (short, full) = match tab {
        Tab::Jobs => ("Jobs", "Jobs [1]"),
        Tab::Nodes => ("Nodes", "Nodes [2]"),
        Tab::Partitions => ("Partitions", "Partitions [3]"),
        Tab::History => ("History", "History [4]"),
        Tab::Health => ("Health", "Health [5]"),
    };
    match tier {
        Tier::Xs => short,
        _ => full,
    }
}

/// The room for the subtitle at `width`: `width / 2 - 10`, at least zero.
pub open spec fn subtitle_room(width: u16) -> int {
    if width / 2 >= 10 {
        width / 2 - 10
    } else {
        0
    }
}

/// The subtitle: nothing at xs; else `base` when it fits (or when there is
/// no room at all); else nothing below two characters of room; else the
/// first `room - 1` characters followed by `…`.
pub open spec fn sub_title_spec(base: Seq<char>, tier: Tier, width: u16) -> Seq<char> {
    let room = subtitle_room(width);
    if tier == Tier::Xs {
        Seq::empty()
    } else if base.len() <= room || room == 0 {
        base
    } else if room < 2 {
        Seq::empty()
    } else {
        base.take(room - 1).push('…')
    }
}

/// Format the subtitle according to tier and terminal width.
///
/// - At xs: returns empty string
/// - At sm+: returns base truncated to ≤ width // 2 - 10 characters, with an
///   ellipsis ("…", U+2026) when truncated
pub fn sub_title(base: &str, tier: Tier, width: u16) -> (r: String)
    ensures
        r@ == sub_title_spec(base@, tier, width),
        tier != Tier::Xs && subtitle_room(width) > 0 ==> r@.len() <= subtitle_room(width) || r@
            == base@,
{
    if tier == Tier::Xs {
        return String::new();
    }
    let max_width: usize = (width / 2).saturating_sub(10) as usize;
    let chars = chars_of(base);
    let base_len = chars.len();
    if base_len <= max_width || max_width == 0 {
        to_string(base)
    } else if max_width < 2 {
        String::new()
    } else {
        let mut r = string_from_range(&chars, 0, max_width - 1);
        r.push('…');
        assert(r@ =~= base@.take(max_width - 1).push('…'));
        r
    }
}

/// The minimum tier at which an action's footer binding is shown, for the
/// actions that have one.
pub open spec fn binding_min_tier(action: Seq<char>) -> Option<Tier> {
    if action == "quit"@ || action == "show_keybindings"@ {
        Some(Tier::Xs)
    } else if action == "refresh"@ || action == "switch_tab('jobs')"@ || action
        == "switch_tab('nodes')"@ || action == "switch_tab('partitions')"@ || action
        == "switch_tab('history')"@ || action == "switch_tab('health')"@ {
        Some(Tier::Sm)
    } else {
        None
    }
}

/// Minimum tier for each action's binding to be shown in the footer.
///
/// Actions not listed here inherit their original show state. The
/// visibility does not disable the binding: the key still works, it is only
/// hidden from the footer at narrower tiers.
pub fn binding_show_at() -> (r: Vec<(&'static str, Tier)>)
    ensures
        r@.len() == 8,
        forall|i: int| 0 <= i < r@.len() ==> binding_min_tier((#[trigger] r@[i]).0@) == Some(r@[i].1),
{
    let mut r: Vec<(&'static str, Tier)> = Vec::new();
    r.push(("quit", Tier::Xs));
    r.push(("show_keybindings", Tier::Xs));
    r.push(("refresh", Tier::Sm));
    r.push(("switch_tab('jobs')", Tier::Sm));
    r.push(("switch_tab('nodes')", Tier::Sm));
    r.push(("switch_tab('partitions')", Tier::Sm));
    r.push(("switch_tab('history')", Tier::Sm));
    r.push(("switch_tab('health')", Tier::Sm));
    proof {
        reveal_strlit("quit");
        reveal_strlit("show_keybindings");
        reveal_strlit("refresh");
        reveal_strlit("switch_tab('jobs')");
        reveal_strlit("switch_tab('nodes')");
        reveal_strlit("switch_tab('partitions')");
        reveal_strlit("switch_tab('history')");
        reveal_strlit("switch_tab('health')");
        assert forall|i: int| 0 <= i < r@.len() implies binding_min_tier((#[trigger] r@[i]).0@)
            == Some(r@[i].1) by {
            if i == 0 {
                assert(r@[i].0@ == "quit"@);
            } else if i == 1 {
                assert(r@[i].0@ == "show_keybindings"@);
            } else if i == 2 {
                assert(r@[i].0@ == "refresh"@);
                assert(r@[i].0@.len() == 7);
            } else if i == 3 {
                assert(r@[i].0@.len() == 18);
            } else if i == 4 {
                assert(r@[i].0@.len() == 19);
            } else if i == 5 {
                assert(r@[i].0@.len() == 24);
            } else if i == 6 {
                assert(r@[i].0@.len() == 21);
            } else {
                assert(r@[i].0@.len() == 20);
            }
        }
    }
    r
}

/// Whether an action's binding shows in the footer at `tier`.
pub open spec fn binding_visible_spec(action: Seq<char>, tier: Tier, originally_shown: bool) -> bool {
    originally_shown && match binding_min_tier(action) {
        Some(min) => tier_rank(tier) >= tier_rank(min),
        None => true,
    }
}

/// The minimum tier of `action`, executable.
fn min_tier_of(action: &str) -> (r: Option<Tier>)
    ensures
        r == binding_min_tier(action@),
{
    if str_eq(action, "quit") || str_eq(action, "show_keybindings") {
        Some(Tier::Xs)
    } else if str_eq(action, "refresh") || str_eq(action, "switch_tab('jobs')") || str_eq(
        action,
        "switch_tab('nodes')",
    ) || str_eq(action, "switch_tab('partitions')") || str_eq(action, "switch_tab('history')")
        || str_eq(action, "switch_tab('health')") {
        Some(Tier::Sm)
    } else {
        None
    }
}

/// Return whether the given action's binding should be visible at the given tier.
///
/// - If `originally_shown` is false, always returns false (hidden stays hidden)
/// - If the action has a minimum tier, returns true only if tier >= that tier
/// - Otherwise returns true (not listed but originally shown = always visible)
///
/// This only controls footer visibility, not whether the binding is active.
pub fn binding_visible(action: &str, tier: Tier, originally_shown: bool) -> (r: bool)
    ensures
        r == binding_visible_spec(action@, tier, originally_shown),
{
    if !originally_shown {
        return false;
    }
    match min_tier_of(action) {
        Some(min_tier) => tier_ge(tier, min_tier),
        None => true,
    }
}

/// Compare tiers: returns true if a >= b.
pub fn tier_ge(a: Tier, b: Tier) -> (r: bool)
    ensures
        r == (tier_rank(a) >= tier_rank(b)),
{
    tier_ord(a) >= tier_ord(b)
}

/// Convert tier to ordinal for comparison.
pub fn tier_ord(tier: Tier) -> (r: u8)
    ensures
        r == tier_rank(tier),
{
    match tier {
        Tier::Xs => 0,
        Tier::Sm => 1,
        Tier::Md => 2,
        Tier::Lg => 3,
    }
}

/// A binding shown at one tier is shown at every wider tier.
pub proof fn lemma_binding_visible_monotone(action: Seq<char>, t1: Tier, t2: Tier, originally_shown: bool)
    requires
        tier_rank(t1) <= tier_rank(t2),
        binding_visible_spec(action, t1, originally_shown),
    ensures
        binding_visible_spec(action, t2, originally_shown),
{
}

/// A binding that was hidden stays hidden at every tier.
pub proof fn lemma_hidden_stays_hidden(action: Seq<char>, tier: Tier)
    ensures
        !binding_visible_spec(action, tier, false),
{
}

/// At the widest tier every originally shown binding is visible.
pub proof fn lemma_all_visible_at_lg(action: Seq<char>)
    ensures
        binding_visible_spec(action, Tier::Lg, true),
{
}

} // verus!
