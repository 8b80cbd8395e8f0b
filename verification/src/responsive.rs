//! Responsive tier infrastructure.
//!
//! Defines terminal-width breakpoints and helpers used across all views to
//! make layout decisions, and the column-width allocator.

use crate::strmap::{
    insert_entry, keys_unique, lemma_insert_facts, lemma_lookup_held, lemma_remove_facts, lookup_entry,
    remove_entry, StrMap,
};
use crate::text::{chars_of, str_eq, string_from_range, to_string};
use vstd::prelude::*;
use vstd::string::*;
use vstd::utf8::*;

verus! {

/// Terminal width tier for responsive layout.
#[derive(Debug, Clone, Copy, PartialEq, Eq, Hash, Structural)]
pub enum Tier {
    Xs,
    Sm,
    Md,
    Lg,
}

/// The rank of a tier: xs lowest, lg highest.
pub open spec fn tier_rank(t: Tier) -> int {
    match t {
        Tier::Xs => 0,
        Tier::Sm => 1,
        Tier::Md => 2,
        Tier::Lg => 3,
    }
}

/// The minimum terminal width of a tier.
pub open spec fn tier_min_width(t: Tier) -> u16 {
    match t {
        Tier::Xs => 40,
        Tier::Sm => 80,
        Tier::Md => 110,
        Tier::Lg => 160,
    }
}

impl Tier {
    /// Minimum width (inclusive) to enter this tier.
    pub fn min_width(self) -> (w: u16)
        ensures
            w == tier_min_width(self),
    {
        match self {
            Tier::Xs => 40,
            Tier::Sm => 80,
            Tier::Md => 110,
            Tier::Lg => 160,
        }
    }

    /// All tiers in rank order (xs lowest, lg highest).
    pub fn all() -> (r: [Tier; 4])
        ensures
            r@ == seq![Tier::Xs, Tier::Sm, Tier::Md, Tier::Lg],
    {
        let r = [Tier::Xs, Tier::Sm, Tier::Md, Tier::Lg];
        assert(r@ =~= seq![Tier::Xs, Tier::Sm, Tier::Md, Tier::Lg]);
        r
    }

    /// The rank (0..4) of this tier.
    pub fn rank(self) -> (r: usize)
        ensures
            r == tier_rank(self),
    {
        match self {
            Tier::Xs => 0,
            Tier::Sm => 1,
            Tier::Md => 2,
            Tier::Lg => 3,
        }
    }
}

/// Terminal width below which nothing is rendered.
pub const TOO_SMALL_WIDTH: u16 = 40;

/// Terminal height below which nothing is rendered.
pub const TOO_SMALL_HEIGHT: u16 = 10;

/// Chrome overhead: table left/right padding (2 cells) + scrollbar reserve (1 cell).
pub const CHROME_OVERHEAD: u16 = 3;

/// The tier of a terminal `width` wide.
pub open spec fn tier_for_spec(width: u16) -> Tier {
    if width < 80 {
        Tier::Xs
    } else if width < 110 {
        Tier::Sm
    } else if width < 160 {
        Tier::Md
    } else {
        Tier::Lg
    }
}

/// Return the responsive tier for the given terminal width.
pub fn tier_for(width: u16) -> (t: Tier)
    ensures
        t == tier_for_spec(width),
        tier_min_width(t) <= width || t == Tier::Xs,
{
    if width < Tier::Sm.min_width() {
        Tier::Xs
    } else if width < Tier::Md.min_width() {
        Tier::Sm
    } else if width < Tier::Lg.min_width() {
        Tier::Md
    } else {
        Tier::Lg
    }
}

/// Whether `width` qualifies for at least `target` tier.
pub open spec fn at_least_spec(target: Tier, width: u16) -> bool {
    tier_rank(tier_for_spec(width)) >= tier_rank(target)
}

/// Return `true` if `width` qualifies for at least `target` tier.
pub fn at_least(target: Tier, width: u16) -> (r: bool)
    ensures
        r == at_least_spec(target, width),
{
    tier_for(width).rank() >= target.rank()
}

/// Qualifying for a tier is monotone in width.
pub proof fn lemma_at_least_monotone(target: Tier, w1: u16, w2: u16)
    requires
        w1 <= w2,
        at_least_spec(target, w1),
    ensures
        at_least_spec(target, w2),
{
}

/// Specification for a single table column used by [`allocate_columns`].
#[derive(Debug, Clone, PartialEq, Eq)]
pub struct ColumnSpec {
    /// Column name.
    pub name: String,
    /// Smallest readable width including 1-char padding.
    pub min_width: u16,
    /// Cap for auto-sizing (from per-view config or sensible default).
    pub content_max: u16,
    /// Higher = kept longer when budget shrinks.
    pub priority: u16,
    /// Eligibility filter: column only shown at this tier or wider.
    pub min_tier: Tier,
    /// Eligibility floor on the terminal width within the tier (0 for none).
    pub min_terminal_width: u16,
}

impl ColumnSpec {
    /// A column specification.
    pub fn new(name: &str, min_width: u16, content_max: u16, priority: u16, min_tier: Tier) -> (c:
        Self)
        ensures
            c.name@ == name@,
            c.min_width == min_width,
            c.content_max == content_max,
            c.priority == priority,
            c.min_tier == min_tier,
            c.min_terminal_width == 0,
    {
        ColumnSpec { name: to_string(name), min_width, content_max, priority, min_tier, min_terminal_width: 0 }
    }

    /// The same column, shown only from terminal width `width` on.
    pub fn with_min_terminal_width(self, width: u16) -> (c: Self)
        ensures
            c == (ColumnSpec { min_terminal_width: width, ..self }),
    {
        ColumnSpec { min_terminal_width: width, ..self }
    }
}

/// Whether column `c` is shown at terminal width `tw`: its tier is reached
/// and the width is at least its floor.
pub open spec fn column_eligible(c: ColumnSpec, tw: u16) -> bool {
    at_least_spec(c.min_tier, tw) && c.min_terminal_width <= tw
}

// ── Allocation model ────────────────────────────────────────────────────────

/// Indices of the columns eligible at terminal width `tw`, in input order.
pub open spec fn eligible_idx(cols: Seq<ColumnSpec>, tw: u16) -> Seq<int>
    decreases cols.len(),
{
    if cols.len() == 0 {
        Seq::empty()
    } else {
        let p = eligible_idx(cols.drop_last(), tw);
        if column_eligible(cols.last(), tw) {
            p.push(cols.len() - 1)
        } else {
            p
        }
    }
}

/// `s` (ordered by descending priority) with `x` placed after every entry of
/// priority at least its own, as a stable sort places it.
pub open spec fn insert_by_priority(cols: Seq<ColumnSpec>, s: Seq<int>, x: int) -> Seq<int>
    decreases s.len(),
{
    if s.len() == 0 {
        seq![x]
    } else if cols[s.last()].priority >= cols[x].priority {
        s.push(x)
    } else {
        insert_by_priority(cols, s.drop_last(), x).push(s.last())
    }
}

/// `s` stably sorted by descending priority.
pub open spec fn sort_by_priority(cols: Seq<ColumnSpec>, s: Seq<int>) -> Seq<int>
    decreases s.len(),
{
    if s.len() == 0 {
        s
    } else {
        insert_by_priority(cols, sort_by_priority(cols, s.drop_last()), s.last())
    }
}

/// Every column in `order` assigned its minimum width (a later column with
/// the same name overwrites the width of an earlier one).
pub open spec fn initial_entries(cols: Seq<ColumnSpec>, order: Seq<int>) -> Seq<(Seq<char>, u16)>
    decreases order.len(),
{
    if order.len() == 0 {
        Seq::empty()
    } else {
        insert_entry(
            initial_entries(cols, order.drop_last()),
            cols[order.last()].name@,
            cols[order.last()].min_width,
        )
    }
}

/// The total of all assigned widths.
pub open spec fn sum_widths(es: Seq<(Seq<char>, u16)>) -> int
    decreases es.len(),
{
    if es.len() == 0 {
        0
    } else {
        sum_widths(es.drop_last()) + es.last().1
    }
}

/// `a - b`, or zero when `b > a`.
pub open spec fn sat_sub(a: int, b: int) -> int {
    if a > b {
        a - b
    } else {
        0
    }
}

/// One step of surplus distribution: column `i` grows towards its
/// `content_max` by as much of the remaining budget as it can take.
pub open spec fn grow_step(cols: Seq<ColumnSpec>, st: (Seq<(Seq<char>, u16)>, int), i: int) -> (
    Seq<(Seq<char>, u16)>,
    int,
) {
    let es = st.0;
    let rem = st.1;
    let name = cols[i].name@;
    let cur: int = match lookup_entry(es, name) {
        Some(w) => w as int,
        None => 0,
    };
    let room = sat_sub(cols[i].content_max as int, cur);
    let extra = if rem < room {
        rem
    } else {
        room
    };
    if rem == 0 || extra <= 0 {
        st
    } else {
        (insert_entry(es, name, (cur + extra) as u16), rem - extra)
    }
}

/// Surplus distribution over the columns of `order`, in that order.
pub open spec fn grow(cols: Seq<ColumnSpec>, order: Seq<int>, st: (Seq<(Seq<char>, u16)>, int)) -> (
    Seq<(Seq<char>, u16)>,
    int,
)
    decreases order.len(),
{
    if order.len() == 0 {
        st
    } else {
        grow_step(cols, grow(cols, order.drop_last(), st), order.last())
    }
}

/// The first column of `order` that is still assigned and has the lowest
/// priority among the assigned ones.
pub open spec fn lowest_present(
    cols: Seq<ColumnSpec>,
    order: Seq<int>,
    es: Seq<(Seq<char>, u16)>,
) -> Option<int>
    decreases order.len(),
{
    if order.len() == 0 {
        None
    } else {
        let best = lowest_present(cols, order.drop_last(), es);
        let x = order.last();
        if lookup_entry(es, cols[x].name@) is None {
            best
        } else {
            match best {
                None => Some(x),
                Some(y) => if cols[x].priority < cols[y].priority {
                    Some(x)
                } else {
                    Some(y)
                },
            }
        }
    }
}

/// Dropping lowest-priority columns while the total exceeds `budget` and
/// more than one column is left.
pub open spec fn drop_pass(
    cols: Seq<ColumnSpec>,
    order: Seq<int>,
    es: Seq<(Seq<char>, u16)>,
    budget: int,
) -> Seq<(Seq<char>, u16)>
    decreases es.len(),
{
    if sum_widths(es) > budget && es.len() > 1 {
        match lowest_present(cols, order, es) {
            Some(x) => {
                let next = remove_entry(es, cols[x].name@);
                if next.len() < es.len() {
                    drop_pass(cols, order, next, budget)
                } else {
                    es
                }
            },
            None => es,
        }
    } else {
        es
    }
}

/// The surviving columns in input order, each with its assigned width.
pub open spec fn survivors(cols: Seq<ColumnSpec>, es: Seq<(Seq<char>, u16)>) -> Seq<(Seq<char>, u16)>
    decreases cols.len(),
{
    if cols.len() == 0 {
        Seq::empty()
    } else {
        let p = survivors(cols.drop_last(), es);
        match lookup_entry(es, cols.last().name@) {
            Some(w) => p.push((cols.last().name@, w)),
            None => p,
        }
    }
}

/// The terminal width implied by a column budget.
pub open spec fn terminal_width(budget: u16) -> u16 {
    if budget + CHROME_OVERHEAD > u16::MAX {
        u16::MAX
    } else {
        (budget + CHROME_OVERHEAD) as u16
    }
}

/// The minimum-width assignment that the allocator starts from.
pub open spec fn start_entries(budget: u16, cols: Seq<ColumnSpec>) -> Seq<(Seq<char>, u16)> {
    let order = sort_by_priority(cols, eligible_idx(cols, terminal_width(budget)));
    initial_entries(cols, order)
}

/// Whether the minimum widths of the eligible columns add up to a `u16`,
/// which the allocator needs to sum them.
pub open spec fn allocation_fits(budget: u16, cols: Seq<ColumnSpec>) -> bool {
    budget == 0 || eligible_idx(cols, terminal_width(budget)).len() == 0 || sum_widths(
        start_entries(budget, cols),
    ) <= u16::MAX
}

/// The assignment after all three passes.
pub open spec fn final_entries(budget: u16, cols: Seq<ColumnSpec>) -> Seq<(Seq<char>, u16)> {
    let order = sort_by_priority(cols, eligible_idx(cols, terminal_width(budget)));
    let es0 = initial_entries(cols, order);
    let rem0 = sat_sub(budget as int, sum_widths(es0));
    let es1 = grow(cols, order, (es0, rem0)).0;
    drop_pass(cols, order, es1, budget as int)
}

/// What `allocate_columns` returns.
pub open spec fn allocate_spec(budget: u16, cols: Seq<ColumnSpec>) -> Seq<(Seq<char>, u16)> {
    if budget == 0 || eligible_idx(cols, terminal_width(budget)).len() == 0 {
        Seq::empty()
    } else {
        survivors(cols, final_entries(budget, cols))
    }
}

// ── Allocation model lemmas ─────────────────────────────────────────────────

/// Every index in `eligible_idx` is a valid column index, and they increase.
proof fn lemma_eligible_bounds(cols: Seq<ColumnSpec>, tw: u16)
    ensures
        forall|k: int|
            0 <= k < eligible_idx(cols, tw).len() ==> 0 <= #[trigger] eligible_idx(cols, tw)[k]
                < cols.len(),
    decreases cols.len(),
{
    if cols.len() > 0 {
        lemma_eligible_bounds(cols.drop_last(), tw);
        let p = eligible_idx(cols.drop_last(), tw);
        assert forall|k: int|
            0 <= k < eligible_idx(cols, tw).len() implies 0 <= #[trigger] eligible_idx(cols, tw)[k]
            < cols.len() by {
            if k < p.len() {
                assert(eligible_idx(cols, tw)[k] == p[k]);
            }
        }
    }
}

/// Eligibility of a prefix of the columns is the prefix of the eligibility.
proof fn lemma_eligible_prefix(cols: Seq<ColumnSpec>, tw: u16, i: int)
    requires
        0 <= i < cols.len(),
    ensures
        eligible_idx(cols.take(i + 1), tw) == if column_eligible(cols[i], tw) {
            eligible_idx(cols.take(i), tw).push(i)
        } else {
            eligible_idx(cols.take(i), tw)
        },
{
    assert(cols.take(i + 1).drop_last() =~= cols.take(i));
}

/// Inserting into a sequence of valid indices keeps them valid.
proof fn lemma_insert_by_priority_shape(cols: Seq<ColumnSpec>, s: Seq<int>, x: int, pos: int)
    requires
        0 <= pos <= s.len(),
        forall|k: int| pos <= k < s.len() ==> cols[s[k]].priority < cols[x].priority,
        pos > 0 ==> cols[s[pos - 1]].priority >= cols[x].priority,
    ensures
        insert_by_priority(cols, s, x) == s.take(pos).push(x) + s.skip(pos),
    decreases s.len(),
{
    if s.len() == 0 {
        assert(s.take(pos).push(x) + s.skip(pos) =~= seq![x]);
    } else if pos == s.len() {
        assert(s.take(pos).push(x) + s.skip(pos) =~= s.push(x));
    } else {
        lemma_insert_by_priority_shape(cols, s.drop_last(), x, pos);
        assert(s.drop_last().take(pos) =~= s.take(pos));
        assert((s.take(pos).push(x) + s.drop_last().skip(pos)).push(s.last()) =~= s.take(pos).push(
            x,
        ) + s.skip(pos));
    }
}

/// The sum of widths does not decrease when a key's width does not decrease.
proof fn lemma_sum_insert(es: Seq<(Seq<char>, u16)>, k: Seq<char>, v: u16)
    ensures
        sum_widths(insert_entry(es, k, v)) == sum_widths(es) + v - match lookup_entry(es, k) {
            Some(w) => w as int,
            None => 0,
        },
    decreases es.len(),
{
    if es.len() == 0 {
        assert(insert_entry(es, k, v) == seq![(k, v)]);
        let one = seq![(k, v)];
        assert(one.drop_last() =~= Seq::<(Seq<char>, u16)>::empty());
        assert(one.last() == (k, v));
        assert(sum_widths(one.drop_last()) == 0);
        assert(sum_widths(one) == v);
    } else {
        lemma_sum_split(es);
        if es[0].0 == k {
            let up = es.update(0, (k, v));
            assert(insert_entry(es, k, v) == up);
            assert(lookup_entry(es, k) == Some(es[0].1));
            lemma_sum_split(up);
            assert(up.drop_first() =~= es.drop_first());
        } else {
            lemma_sum_insert(es.drop_first(), k, v);
            let ins = seq![es[0]] + insert_entry(es.drop_first(), k, v);
            assert(insert_entry(es, k, v) == ins);
            assert(lookup_entry(es, k) == lookup_entry(es.drop_first(), k));
            lemma_sum_split(ins);
            assert(ins[0] == es[0]);
            assert(ins.drop_first() =~= insert_entry(es.drop_first(), k, v));
        }
    }
}

/// The sum of widths splits off the first entry.
proof fn lemma_sum_split(es: Seq<(Seq<char>, u16)>)
    requires
        es.len() > 0,
    ensures
        sum_widths(es) == es[0].1 + sum_widths(es.drop_first()),
    decreases es.len(),
{
    if es.len() > 1 {
        lemma_sum_split(es.drop_last());
        assert(es.drop_last().drop_first() =~= es.drop_first().drop_last());
    } else {
        assert(es.drop_first() =~= Seq::<(Seq<char>, u16)>::empty());
        assert(es.drop_last() =~= Seq::<(Seq<char>, u16)>::empty());
    }
}

/// Removing an entry does not increase the sum, and removes one entry when the key is present.
proof fn lemma_remove(es: Seq<(Seq<char>, u16)>, k: Seq<char>)
    ensures
        sum_widths(remove_entry(es, k)) <= sum_widths(es),
        lookup_entry(es, k) is Some ==> remove_entry(es, k).len() == es.len() - 1,
        lookup_entry(es, k) is None ==> remove_entry(es, k) == es,
    decreases es.len(),
{
    if es.len() > 0 {
        lemma_sum_split(es);
        if es[0].0 != k {
            lemma_remove(es.drop_first(), k);
            let r = seq![es[0]] + remove_entry(es.drop_first(), k);
            lemma_sum_split(r);
            assert(r.drop_first() =~= remove_entry(es.drop_first(), k));
            if lookup_entry(es, k) is None {
                assert(r =~= es);
            }
        }
    }
}

/// Lookup after removal of another key is unchanged; the removed key is gone
/// when keys are unique.
proof fn lemma_remove_lookup(es: Seq<(Seq<char>, u16)>, k: Seq<char>, q: Seq<char>)
    requires
        q != k,
    ensures
        lookup_entry(remove_entry(es, k), q) == lookup_entry(es, q),
    decreases es.len(),
{
    if es.len() > 0 && es[0].0 != k {
        lemma_remove_lookup(es.drop_first(), k, q);
        let r = seq![es[0]] + remove_entry(es.drop_first(), k);
        assert(r.drop_first() =~= remove_entry(es.drop_first(), k));
    } else if es.len() > 0 {
        if es[0].0 != q {
        } else {
        }
    }
}

/// Every column of `order` has an entry in the initial assignment.
proof fn lemma_initial_present(cols: Seq<ColumnSpec>, order: Seq<int>, j: int)
    requires
        0 <= j < order.len(),
    ensures
        lookup_entry(initial_entries(cols, order), cols[order[j]].name@) is Some,
    decreases order.len(),
{
    let k = cols[order.last()].name@;
    let prev = initial_entries(cols, order.drop_last());
    crate::strmap::lemma_insert_lookup(prev, k, cols[order.last()].min_width, cols[order[j]].name@);
    if j < order.len() - 1 {
        lemma_initial_present(cols, order.drop_last(), j);
    }
}

/// Growing keeps every key present and bounds the remaining budget.
proof fn lemma_grow(cols: Seq<ColumnSpec>, order: Seq<int>, st: (Seq<(Seq<char>, u16)>, int))
    requires
        st.1 >= 0,
        forall|j: int| 0 <= j < order.len() ==> lookup_entry(st.0, #[trigger] cols[order[j]].name@) is Some,
    ensures
        0 <= grow(cols, order, st).1 <= st.1,
        sum_widths(grow(cols, order, st).0) == sum_widths(st.0) + st.1 - grow(cols, order, st).1,
        forall|q: Seq<char>| lookup_entry(st.0, q) is Some ==> lookup_entry(grow(cols, order, st).0, q) is Some,
    decreases order.len(),
{
    if order.len() > 0 {
        lemma_grow(cols, order.drop_last(), st);
        let mid = grow(cols, order.drop_last(), st);
        let i = order.last();
        let name = cols[i].name@;
        assert(lookup_entry(st.0, cols[order[order.len() - 1]].name@) is Some);
        let cur: int = match lookup_entry(mid.0, name) {
            Some(w) => w as int,
            None => 0,
        };
        let room = sat_sub(cols[i].content_max as int, cur);
        let extra = if mid.1 < room {
            mid.1
        } else {
            room
        };
        if !(mid.1 == 0 || extra <= 0) {
            lemma_sum_insert(mid.0, name, (cur + extra) as u16);
            assert forall|q: Seq<char>| lookup_entry(mid.0, q) is Some implies lookup_entry(
                insert_entry(mid.0, name, (cur + extra) as u16),
                q,
            ) is Some by {
                crate::strmap::lemma_insert_lookup(mid.0, name, (cur + extra) as u16, q);
            }
        }
    }
}

/// Eligibility keeps at most all the columns.
proof fn lemma_eligible_len(cols: Seq<ColumnSpec>, tw: u16)
    ensures
        eligible_idx(cols, tw).len() <= cols.len(),
    decreases cols.len(),
{
    if cols.len() > 0 {
        lemma_eligible_len(cols.drop_last(), tw);
    }
}

/// Inserting by priority keeps every index a column index.
proof fn lemma_insert_bounds(cols: Seq<ColumnSpec>, s: Seq<int>, x: int)
    requires
        0 <= x < cols.len(),
        forall|k: int| 0 <= k < s.len() ==> 0 <= #[trigger] s[k] < cols.len(),
    ensures
        forall|k: int|
            0 <= k < insert_by_priority(cols, s, x).len() ==> 0 <= #[trigger] insert_by_priority(
                cols,
                s,
                x,
            )[k] < cols.len(),
    decreases s.len(),
{
    if s.len() > 0 && cols[s.last()].priority < cols[x].priority {
        lemma_insert_bounds(cols, s.drop_last(), x);
        let p = insert_by_priority(cols, s.drop_last(), x);
        assert forall|k: int| 0 <= k < p.push(s.last()).len() implies 0 <= #[trigger] p.push(
            s.last(),
        )[k] < cols.len() by {
            if k < p.len() {
                assert(p.push(s.last())[k] == p[k]);
            } else {
                assert(s[s.len() - 1] == s.last());
            }
        }
    } else if s.len() > 0 {
        assert forall|k: int| 0 <= k < s.push(x).len() implies 0 <= #[trigger] s.push(x)[k]
            < cols.len() by {
            if k < s.len() {
                assert(s.push(x)[k] == s[k]);
            }
        }
    }
}

/// Sorting by priority keeps every index a column index.
proof fn lemma_sort_bounds(cols: Seq<ColumnSpec>, s: Seq<int>)
    requires
        forall|k: int| 0 <= k < s.len() ==> 0 <= #[trigger] s[k] < cols.len(),
    ensures
        forall|k: int|
            0 <= k < sort_by_priority(cols, s).len() ==> 0 <= #[trigger] sort_by_priority(
                cols,
                s,
            )[k] < cols.len(),
    decreases s.len(),
{
    if s.len() > 0 {
        assert forall|k: int| 0 <= k < s.drop_last().len() implies 0 <= #[trigger] s.drop_last()[k]
            < cols.len() by {
            assert(s.drop_last()[k] == s[k]);
        }
        lemma_sort_bounds(cols, s.drop_last());
        assert(s[s.len() - 1] == s.last());
        lemma_insert_bounds(cols, sort_by_priority(cols, s.drop_last()), s.last());
    }
}

/// The minimum widths of the columns in `order` add up to at most
/// `maxw` per column.
proof fn lemma_initial_sum_bound(cols: Seq<ColumnSpec>, order: Seq<int>, maxw: int)
    requires
        maxw >= 0,
        forall|j: int| 0 <= j < order.len() ==> #[trigger] cols[order[j]].min_width <= maxw,
    ensures
        sum_widths(initial_entries(cols, order)) <= order.len() * maxw,
    decreases order.len(),
{
    if order.len() > 0 {
        let d = order.drop_last();
        assert forall|j: int| 0 <= j < d.len() implies #[trigger] cols[d[j]].min_width <= maxw by {
            assert(d[j] == order[j]);
        }
        lemma_initial_sum_bound(cols, d, maxw);
        let prev = initial_entries(cols, d);
        let x = order.last();
        assert(cols[order[order.len() - 1]].min_width <= maxw);
        lemma_sum_insert(prev, cols[x].name@, cols[x].min_width);
        let n = order.len() as int;
        assert((n - 1) * maxw + maxw == n * maxw) by (nonlinear_arith);
    }
}

/// When every minimum width is at most `maxw` and all the columns at that
/// width fit in a `u16`, the allocator can sum the minimum widths.
pub proof fn lemma_allocation_fits_bounded(budget: u16, cols: Seq<ColumnSpec>, maxw: u16)
    requires
        forall|i: int| 0 <= i < cols.len() ==> #[trigger] cols[i].min_width <= maxw,
        cols.len() * maxw <= u16::MAX,
    ensures
        allocation_fits(budget, cols),
{
    let tw = terminal_width(budget);
    let e = eligible_idx(cols, tw);
    let order = sort_by_priority(cols, e);
    lemma_eligible_bounds(cols, tw);
    lemma_sort_bounds(cols, e);
    lemma_sort_len(cols, e);
    lemma_eligible_len(cols, tw);
    assert forall|j: int| 0 <= j < order.len() implies #[trigger] cols[order[j]].min_width <= maxw by {
        assert(0 <= order[j] < cols.len());
    }
    lemma_initial_sum_bound(cols, order, maxw as int);
    let n = order.len() as int;
    let c = cols.len() as int;
    let m = maxw as int;
    assert(n * m <= c * m) by (nonlinear_arith)
        requires
            0 <= n <= c,
            0 <= m,
    ;
}

// ── The allocation stays within its budget ────────────────────────────────

/// Some column of `order` is named `k`.
pub open spec fn named_in(cols: Seq<ColumnSpec>, order: Seq<int>, k: Seq<char>) -> bool {
    exists|j: int| 0 <= j < order.len() && #[trigger] cols[order[j]].name@ == k
}

/// Every assigned key names a column of `order`.
pub open spec fn keys_named(cols: Seq<ColumnSpec>, order: Seq<int>, es: Seq<(Seq<char>, u16)>) -> bool {
    forall|i: int| 0 <= i < es.len() ==> named_in(cols, order, #[trigger] es[i].0)
}

/// Some column of `cols` is named `k`.
pub open spec fn names_column(cols: Seq<ColumnSpec>, k: Seq<char>) -> bool {
    exists|m: int| 0 <= m < cols.len() && #[trigger] cols[m].name@ == k
}

/// No two columns share a name.
pub open spec fn names_distinct(cols: Seq<ColumnSpec>) -> bool {
    forall|i: int, j: int| 0 <= i < j < cols.len() ==> cols[i].name@ != cols[j].name@
}

/// The total of an entry followed by others.
proof fn lemma_sum_cons(a: (Seq<char>, u16), s: Seq<(Seq<char>, u16)>)
    ensures
        sum_widths(seq![a] + s) == a.1 + sum_widths(s),
    decreases s.len(),
{
    if s.len() > 0 {
        lemma_sum_cons(a, s.drop_last());
        assert((seq![a] + s).drop_last() =~= seq![a] + s.drop_last());
        assert((seq![a] + s).last() == s.last());
    } else {
        assert(seq![a] + s =~= seq![a]);
        assert(seq![a].drop_last() =~= Seq::<(Seq<char>, u16)>::empty());
        assert(sum_widths(Seq::<(Seq<char>, u16)>::empty()) == 0);
    }
}

/// Removing a key takes its width off the total.
proof fn lemma_remove_sum(es: Seq<(Seq<char>, u16)>, k: Seq<char>)
    ensures
        sum_widths(es) == sum_widths(remove_entry(es, k)) + match lookup_entry(es, k) {
            Some(w) => w as int,
            None => 0,
        },
    decreases es.len(),
{
    if es.len() > 0 {
        assert(seq![es[0]] + es.drop_first() =~= es);
        lemma_sum_cons(es[0], es.drop_first());
        if es[0].0 != k {
            lemma_remove_sum(es.drop_first(), k);
            lemma_sum_cons(es[0], remove_entry(es.drop_first(), k));
        }
    }
}

/// Removing a key that no column is named does not change the survivors.
proof fn lemma_survivors_ignore(cols: Seq<ColumnSpec>, es: Seq<(Seq<char>, u16)>, n: Seq<char>)
    requires
        forall|j: int| 0 <= j < cols.len() ==> #[trigger] cols[j].name@ != n,
    ensures
        survivors(cols, remove_entry(es, n)) == survivors(cols, es),
    decreases cols.len(),
{
    if cols.len() > 0 {
        lemma_survivors_ignore(cols.drop_last(), es, n);
        lemma_remove_facts(es, n);
        assert(cols.last().name@ != n);
        assert(lookup_entry(remove_entry(es, n), cols.last().name@) == lookup_entry(es, cols.last().name@));
    }
}

/// With distinct column names and distinct keys that all name a column,
/// the survivors hold the assigned entries: as many, with the same total.
proof fn lemma_survivors_sum(cols: Seq<ColumnSpec>, es: Seq<(Seq<char>, u16)>)
    requires
        names_distinct(cols),
        keys_unique(es),
        forall|i: int| 0 <= i < es.len() ==> names_column(cols, #[trigger] es[i].0),
    ensures
        sum_widths(survivors(cols, es)) == sum_widths(es),
        survivors(cols, es).len() == es.len(),
    decreases cols.len(),
{
    if cols.len() == 0 {
        if es.len() > 0 {
            assert(names_column(cols, es[0].0));
        }
    } else {
        let c = cols.drop_last();
        let n = cols.last().name@;
        lemma_remove_facts(es, n);
        let es2 = remove_entry(es, n);
        assert forall|i: int| 0 <= i < es2.len() implies names_column(c, #[trigger] es2[i].0) by {
            let j = choose|j: int| 0 <= j < es.len() && #[trigger] es2[i] == es[j];
            assert(names_column(cols, es[j].0));
            let m = choose|m: int| 0 <= m < cols.len() && #[trigger] cols[m].name@ == es[j].0;
            assert(es2[i].0 != n);
            assert(m != cols.len() - 1);
            assert(c[m] == cols[m]);
        }
        assert(names_distinct(c));
        lemma_survivors_sum(c, es2);
        assert forall|j: int| 0 <= j < c.len() implies #[trigger] c[j].name@ != n by {
            assert(c[j] == cols[j]);
        }
        lemma_survivors_ignore(c, es, n);
        lemma_remove_sum(es, n);
        let p = survivors(c, es);
        match lookup_entry(es, n) {
            Some(w) => {
                assert(survivors(cols, es) == p.push((n, w)));
                assert(p.push((n, w)).drop_last() =~= p);
            },
            None => {
                assert(survivors(cols, es) == p);
            },
        }
    }
}

/// The lowest-priority assigned column is assigned, and there is one when
/// some column of `order` is assigned.
proof fn lemma_lowest_present(cols: Seq<ColumnSpec>, order: Seq<int>, es: Seq<(Seq<char>, u16)>)
    ensures
        lowest_present(cols, order, es) matches Some(x) ==> lookup_entry(es, cols[x].name@) is Some,
        (exists|j: int| 0 <= j < order.len() && #[trigger] lookup_entry(es, cols[order[j]].name@) is Some)
            ==> lowest_present(cols, order, es) is Some,
    decreases order.len(),
{
    if order.len() > 0 {
        let p = order.drop_last();
        lemma_lowest_present(cols, p, es);
        if exists|j: int| 0 <= j < order.len() && #[trigger] lookup_entry(es, cols[order[j]].name@) is Some {
            let j = choose|j: int| 0 <= j < order.len() && #[trigger] lookup_entry(es, cols[order[j]].name@) is Some;
            if j < order.len() - 1 {
                assert(p[j] == order[j]);
                assert(lookup_entry(es, cols[p[j]].name@) is Some);
            }
        }
    }
}

/// The drop pass ends within the budget or with at most one column, and
/// keeps the keys distinct and naming columns of `order`.
proof fn lemma_drop_pass(cols: Seq<ColumnSpec>, order: Seq<int>, es: Seq<(Seq<char>, u16)>, b: int)
    requires
        keys_unique(es),
        keys_named(cols, order, es),
    ensures
        sum_widths(drop_pass(cols, order, es, b)) <= b || drop_pass(cols, order, es, b).len() <= 1,
        keys_unique(drop_pass(cols, order, es, b)),
        keys_named(cols, order, drop_pass(cols, order, es, b)),
    decreases es.len(),
{
    if sum_widths(es) > b && es.len() > 1 {
        assert(named_in(cols, order, es[0].0));
        let j = choose|j: int| 0 <= j < order.len() && #[trigger] cols[order[j]].name@ == es[0].0;
        lemma_lookup_held(es, es[0].0, 0);
        assert(lookup_entry(es, cols[order[j]].name@) is Some);
        lemma_lowest_present(cols, order, es);
        let x = lowest_present(cols, order, es)->0;
        let nm = cols[x].name@;
        lemma_remove_facts(es, nm);
        let next = remove_entry(es, nm);
        assert forall|i: int| 0 <= i < next.len() implies named_in(cols, order, #[trigger] next[i].0) by {
            let k = choose|k: int| 0 <= k < es.len() && #[trigger] next[i] == es[k];
            assert(named_in(cols, order, es[k].0));
        }
        lemma_drop_pass(cols, order, next, b);
    }
}

/// The minimum-width assignment of the columns of `o` has distinct keys,
/// each naming a column of `full`.
proof fn lemma_initial_keys(cols: Seq<ColumnSpec>, o: Seq<int>, full: Seq<int>)
    requires
        forall|j: int| 0 <= j < o.len() ==> named_in(cols, full, #[trigger] cols[o[j]].name@),
    ensures
        keys_unique(initial_entries(cols, o)),
        keys_named(cols, full, initial_entries(cols, o)),
    decreases o.len(),
{
    if o.len() > 0 {
        let p = o.drop_last();
        assert forall|j: int| 0 <= j < p.len() implies named_in(cols, full, #[trigger] cols[p[j]].name@) by {
            assert(p[j] == o[j]);
        }
        lemma_initial_keys(cols, p, full);
        let prev = initial_entries(cols, p);
        let k = cols[o.last()].name@;
        lemma_insert_facts(prev, k, cols[o.last()].min_width);
        let ins = initial_entries(cols, o);
        assert forall|i: int| 0 <= i < ins.len() implies named_in(cols, full, #[trigger] ins[i].0) by {
            if ins[i].0 == k {
                assert(named_in(cols, full, cols[o[o.len() - 1]].name@));
            } else {
                let j = choose|j: int| 0 <= j < prev.len() && prev[j].0 == ins[i].0;
                assert(named_in(cols, full, prev[j].0));
            }
        }
    }
}

/// Surplus distribution keeps the keys distinct and naming columns of `full`.
proof fn lemma_grow_keys(
    cols: Seq<ColumnSpec>,
    o: Seq<int>,
    st: (Seq<(Seq<char>, u16)>, int),
    full: Seq<int>,
)
    requires
        keys_unique(st.0),
        keys_named(cols, full, st.0),
        forall|j: int| 0 <= j < o.len() ==> named_in(cols, full, #[trigger] cols[o[j]].name@),
    ensures
        keys_unique(grow(cols, o, st).0),
        keys_named(cols, full, grow(cols, o, st).0),
    decreases o.len(),
{
    if o.len() > 0 {
        let p = o.drop_last();
        assert forall|j: int| 0 <= j < p.len() implies named_in(cols, full, #[trigger] cols[p[j]].name@) by {
            assert(p[j] == o[j]);
        }
        lemma_grow_keys(cols, p, st, full);
        let g = grow(cols, p, st);
        let i = o.last();
        let es = g.0;
        let rem = g.1;
        let name = cols[i].name@;
        let cur: int = match lookup_entry(es, name) {
            Some(w) => w as int,
            None => 0,
        };
        let room = sat_sub(cols[i].content_max as int, cur);
        let extra = if rem < room {
            rem
        } else {
            room
        };
        if !(rem == 0 || extra <= 0) {
            let w = (cur + extra) as u16;
            lemma_insert_facts(es, name, w);
            let ins = insert_entry(es, name, w);
            assert(grow(cols, o, st).0 == ins);
            assert forall|k: int| 0 <= k < ins.len() implies named_in(cols, full, #[trigger] ins[k].0) by {
                if ins[k].0 == name {
                    assert(named_in(cols, full, cols[o[o.len() - 1]].name@));
                } else {
                    let j = choose|j: int| 0 <= j < es.len() && es[j].0 == ins[k].0;
                    assert(named_in(cols, full, es[j].0));
                }
            }
        }
    }
}

/// The widths the allocator returns add up to at most the budget, unless a
/// single column is left: the allocator keeps the last column even when its
/// minimum width is over the budget. Column names are distinct.
pub proof fn lemma_allocation_within_budget(budget: u16, cols: Seq<ColumnSpec>)
    requires
        names_distinct(cols),
    ensures
        allocate_spec(budget, cols).len() <= 1 || sum_widths(allocate_spec(budget, cols)) <= budget,
{
    let tw = terminal_width(budget);
    let e = eligible_idx(cols, tw);
    if budget != 0 && e.len() != 0 {
        let order = sort_by_priority(cols, e);
        lemma_eligible_bounds(cols, tw);
        lemma_sort_bounds(cols, e);
        assert forall|j: int| 0 <= j < order.len() implies named_in(cols, order, #[trigger] cols[order[j]].name@) by {}
        lemma_initial_keys(cols, order, order);
        let es0 = initial_entries(cols, order);
        let rem0 = sat_sub(budget as int, sum_widths(es0));
        lemma_grow_keys(cols, order, (es0, rem0), order);
        let es1 = grow(cols, order, (es0, rem0)).0;
        lemma_drop_pass(cols, order, es1, budget as int);
        let f = drop_pass(cols, order, es1, budget as int);
        assert(f == final_entries(budget, cols));
        assert forall|i: int| 0 <= i < f.len() implies names_column(cols, #[trigger] f[i].0) by {
            assert(named_in(cols, order, f[i].0));
            let j = choose|j: int| 0 <= j < order.len() && #[trigger] cols[order[j]].name@ == f[i].0;
            assert(0 <= order[j] < cols.len());
        }
        lemma_survivors_sum(cols, f);
    }
}

/// Every entry of `r` is named by a column, and a later entry by a later
/// column.
pub open spec fn in_input_order(cols: Seq<ColumnSpec>, r: Seq<(Seq<char>, u16)>) -> bool {
    &&& forall|k: int| 0 <= k < r.len() ==> names_column(cols, #[trigger] r[k].0)
    &&& forall|i: int, j: int|
        0 <= i < j < r.len() ==> exists|a: int, b: int|
            0 <= a < b < cols.len() && cols[a].name@ == #[trigger] r[i].0 && cols[b].name@
                == #[trigger] r[j].0
}

/// The survivors are columns, in input order.
proof fn lemma_survivors_order(cols: Seq<ColumnSpec>, es: Seq<(Seq<char>, u16)>)
    ensures
        in_input_order(cols, survivors(cols, es)),
    decreases cols.len(),
{
    if cols.len() > 0 {
        let c = cols.drop_last();
        lemma_survivors_order(c, es);
        let p = survivors(c, es);
        let r = survivors(cols, es);
        let last = cols.len() - 1;
        assert forall|k: int| 0 <= k < p.len() implies names_column(cols, #[trigger] p[k].0) by {
            assert(names_column(c, p[k].0));
            let m = choose|m: int| 0 <= m < c.len() && #[trigger] c[m].name@ == p[k].0;
            assert(cols[m] == c[m]);
        }
        match lookup_entry(es, cols.last().name@) {
            Some(w) => {
                assert(r == p.push((cols.last().name@, w)));
                assert forall|k: int| 0 <= k < r.len() implies names_column(cols, #[trigger] r[k].0) by {
                    if k < p.len() {
                        assert(r[k] == p[k]);
                    } else {
                        assert(cols[last].name@ == r[k].0);
                    }
                }
                assert forall|i: int, j: int| 0 <= i < j < r.len() implies exists|a: int, b: int|
                    0 <= a < b < cols.len() && cols[a].name@ == #[trigger] r[i].0 && cols[b].name@
                        == #[trigger] r[j].0 by {
                    assert(r[i] == p[i]);
                    if j < p.len() {
                        assert(r[j] == p[j]);
                        let (a, b) = choose|a: int, b: int|
                            0 <= a < b < c.len() && c[a].name@ == #[trigger] p[i].0 && c[b].name@
                                == #[trigger] p[j].0;
                        assert(cols[a] == c[a] && cols[b] == c[b]);
                    } else {
                        assert(names_column(c, p[i].0));
                        let a = choose|a: int| 0 <= a < c.len() && #[trigger] c[a].name@ == p[i].0;
                        assert(cols[a] == c[a]);
                        assert(cols[last].name@ == r[j].0);
                    }
                }
            },
            None => {
                assert(r == p);
                assert forall|i: int, j: int| 0 <= i < j < r.len() implies exists|a: int, b: int|
                    0 <= a < b < cols.len() && cols[a].name@ == #[trigger] r[i].0 && cols[b].name@
                        == #[trigger] r[j].0 by {
                    let (a, b) = choose|a: int, b: int|
                        0 <= a < b < c.len() && c[a].name@ == #[trigger] p[i].0 && c[b].name@
                            == #[trigger] p[j].0;
                    assert(cols[a] == c[a] && cols[b] == c[b]);
                }
            },
        }
    }
}

/// The allocator keeps the input order: every column it returns is one of
/// the input columns, and a later one in its result is a later input column.
pub proof fn lemma_allocation_keeps_input_order(budget: u16, cols: Seq<ColumnSpec>)
    ensures
        in_input_order(cols, allocate_spec(budget, cols)),
{
    lemma_survivors_order(cols, final_entries(budget, cols));
}

// ── Allocation ──────────────────────────────────────────────────────────────

/// Whether `allocate_columns` can sum the minimum widths of `columns` for
/// `budget` in a `u16`.
pub fn allocation_fits_check(budget: u16, columns: &[ColumnSpec]) -> (r: bool)
    ensures
        r == allocation_fits(budget, columns@),
{
    if budget == 0 {
        return true;
    }
    let tw = budget.saturating_add(CHROME_OVERHEAD);
    assert(tw == terminal_width(budget));
    let order = sorted_eligible(columns, tw);
    if order.len() == 0 {
        assert(eligible_idx(columns@, tw).len() == 0) by {
            lemma_sort_len(columns@, eligible_idx(columns@, tw));
        }
        return true;
    }
    let assigned = initial_map(columns, &order);
    proof {
        lemma_sort_len(columns@, eligible_idx(columns@, tw));
        assert(assigned.entries() == start_entries(budget, columns@));
    }
    let mut total: u64 = 0;
    let mut i: usize = 0;
    while i < assigned.len()
        invariant
            i <= assigned.entries().len(),
            total == sum_widths(assigned.entries().take(i as int)),
            total <= 0xffff,
            budget != 0,
            eligible_idx(columns@, terminal_width(budget)).len() != 0,
            assigned.entries() == start_entries(budget, columns@),
        decreases assigned.entries().len() - i,
    {
        assert(assigned.entries().take(i + 1).drop_last() =~= assigned.entries().take(i as int));
        total = total + *assigned.value_at(i) as u64;
        i = i + 1;
        if total > 0xffff {
            proof {
                lemma_sum_prefix(assigned.entries(), i as int);
            }
            return false;
        }
    }
    assert(assigned.entries().take(assigned.entries().len() as int) =~= assigned.entries());
    total <= 0xffff
}

/// Indices of the eligible columns at terminal width `tw`, stably sorted by
/// descending priority.
fn sorted_eligible(columns: &[ColumnSpec], tw: u16) -> (order: Vec<usize>)
    ensures
        order@.map_values(|i: usize| i as int) == sort_by_priority(
            columns@,
            eligible_idx(columns@, tw),
        ),
        forall|k: int| 0 <= k < order@.len() ==> #[trigger] order@[k] < columns@.len(),
{
    let mut elig: Vec<usize> = Vec::new();
    let mut i: usize = 0;
    while i < columns.len()
        invariant
            i <= columns@.len(),
            elig@.map_values(|x: usize| x as int) == eligible_idx(columns@.take(i as int), tw),
            forall|k: int| 0 <= k < elig@.len() ==> #[trigger] elig@[k] < i,
        decreases columns@.len() - i,
    {
        proof {
            lemma_eligible_prefix(columns@, tw, i as int);
        }
        if at_least(columns[i].min_tier, tw) && columns[i].min_terminal_width <= tw {
            elig.push(i);
        }
        assert(elig@.map_values(|x: usize| x as int) =~= eligible_idx(columns@.take(i + 1), tw));
        i = i + 1;
    }
    assert(columns@.take(columns@.len() as int) =~= columns@);
    let ghost e = eligible_idx(columns@, tw);
    let mut order: Vec<usize> = Vec::new();
    let mut j: usize = 0;
    while j < elig.len()
        invariant
            j <= elig@.len(),
            elig@.map_values(|x: usize| x as int) == e,
            order@.map_values(|x: usize| x as int) == sort_by_priority(columns@, e.take(j as int)),
            order@.len() == j,
            forall|k: int| 0 <= k < elig@.len() ==> #[trigger] elig@[k] < columns@.len(),
            forall|k: int| 0 <= k < order@.len() ==> #[trigger] order@[k] < columns@.len(),
        decreases elig@.len() - j,
    {
        let x = elig[j];
        let px = columns[x].priority;
        let mut pos = order.len();
        while pos > 0 && columns[order[pos - 1]].priority < px
            invariant
                pos <= order@.len(),
                forall|k: int| 0 <= k < order@.len() ==> #[trigger] order@[k] < columns@.len(),
                x < columns@.len(),
                px == columns@[x as int].priority,
                forall|k: int| pos <= k < order@.len() ==> columns@[#[trigger] order@[k] as int].priority < px,
            decreases pos,
        {
            pos = pos - 1;
        }
        let ghost s = order@.map_values(|y: usize| y as int);
        proof {
            assert forall|k: int| pos <= k < s.len() implies columns@[s[k]].priority < columns@[x as int].priority by {
                assert(s[k] == order@[k] as int);
            }
            lemma_insert_by_priority_shape(columns@, s, x as int, pos as int);
            assert(e.take(j + 1).drop_last() =~= e.take(j as int));
            assert(e.take(j + 1).last() == x as int);
        }
        order.insert(pos, x);
        assert(order@.map_values(|y: usize| y as int) =~= s.take(pos as int).push(x as int) + s.skip(
            pos as int,
        ));
        j = j + 1;
    }
    assert(e.take(elig@.len() as int) =~= e);
    order
}

/// Sorting keeps the length.
proof fn lemma_sort_len(cols: Seq<ColumnSpec>, s: Seq<int>)
    ensures
        sort_by_priority(cols, s).len() == s.len(),
    decreases s.len(),
{
    if s.len() > 0 {
        lemma_sort_len(cols, s.drop_last());
        lemma_insert_len(cols, sort_by_priority(cols, s.drop_last()), s.last());
    }
}

/// Inserting adds one element.
proof fn lemma_insert_len(cols: Seq<ColumnSpec>, s: Seq<int>, x: int)
    ensures
        insert_by_priority(cols, s, x).len() == s.len() + 1,
    decreases s.len(),
{
    if s.len() > 0 {
        lemma_insert_len(cols, s.drop_last(), x);
    }
}

/// The initial assignment: every column of `order` at its minimum width.
fn initial_map(columns: &[ColumnSpec], order: &Vec<usize>) -> (m: StrMap<u16>)
    requires
        forall|k: int| 0 <= k < order@.len() ==> #[trigger] order@[k] < columns@.len(),
    ensures
        m.entries() == initial_entries(columns@, order@.map_values(|i: usize| i as int)),
{
    let ghost ord = order@.map_values(|i: usize| i as int);
    let mut m: StrMap<u16> = StrMap::new();
    let mut j: usize = 0;
    while j < order.len()
        invariant
            j <= order@.len(),
            ord == order@.map_values(|i: usize| i as int),
            forall|k: int| 0 <= k < order@.len() ==> #[trigger] order@[k] < columns@.len(),
            m.entries() == initial_entries(columns@, ord.take(j as int)),
        decreases order@.len() - j,
    {
        assert(ord.take(j + 1).drop_last() =~= ord.take(j as int));
        assert(ord.take(j + 1).last() == order@[j as int] as int);
        let c = &columns[order[j]];
        m.insert(c.name.clone(), c.min_width);
        j = j + 1;
    }
    assert(ord.take(order@.len() as int) =~= ord);
    m
}

/// Sum of the widths in `m`, given that it fits in a `u16`.
fn total_width(m: &StrMap<u16>) -> (t: u16)
    requires
        sum_widths(m.entries()) <= u16::MAX,
    ensures
        t == sum_widths(m.entries()),
{
    let mut total: u16 = 0;
    let mut i: usize = 0;
    while i < m.len()
        invariant
            i <= m.entries().len(),
            sum_widths(m.entries()) <= u16::MAX,
            total == sum_widths(m.entries().take(i as int)),
        decreases m.entries().len() - i,
    {
        assert(m.entries().take(i + 1).drop_last() =~= m.entries().take(i as int));
        proof {
            lemma_sum_prefix(m.entries(), i + 1);
        }
        total = total + *m.value_at(i);
        i = i + 1;
    }
    assert(m.entries().take(m.entries().len() as int) =~= m.entries());
    total
}

/// Prefix sums are at most the total.
proof fn lemma_sum_prefix(es: Seq<(Seq<char>, u16)>, n: int)
    requires
        0 <= n <= es.len(),
    ensures
        sum_widths(es.take(n)) <= sum_widths(es),
    decreases es.len(),
{
    if n < es.len() {
        assert(es.drop_last().take(n) =~= es.take(n));
        lemma_sum_prefix(es.drop_last(), n);
    } else {
        assert(es.take(n) =~= es);
    }
}

/// Return list of `(name, width)` for the columns that fit in `budget` cells.
///
/// 1. Keep the columns eligible at the terminal width `budget + CHROME_OVERHEAD`.
/// 2. Order them by descending priority (stable).
/// 3. Assign each its minimum width.
/// 4. Distribute the remaining budget by priority, capped at `content_max`.
/// 5. While the total exceeds the budget and more than one column is left,
///    drop the lowest-priority column.
/// 6. Return the survivors in input order.
pub fn allocate_columns(budget: u16, columns: &[ColumnSpec], _current_tier: Tier) -> (r: Vec<
    (String, u16),
>)
    requires
        allocation_fits(budget, columns@),
    ensures
        r@.map_values(|p: (String, u16)| (p.0@, p.1)) == allocate_spec(budget, columns@),
{
    if budget == 0 {
        let r: Vec<(String, u16)> = Vec::new();
        assert(r@.map_values(|p: (String, u16)| (p.0@, p.1)) =~= Seq::<(Seq<char>, u16)>::empty());
        return r;
    }
    let tw = budget.saturating_add(CHROME_OVERHEAD);
    assert(tw == terminal_width(budget));
    let order = sorted_eligible(columns, tw);
    if order.len() == 0 {
        let r: Vec<(String, u16)> = Vec::new();
        assert(r@.map_values(|p: (String, u16)| (p.0@, p.1)) =~= Seq::<(Seq<char>, u16)>::empty());
        return r;
    }
    let ghost cols = columns@;
    let ghost ord = order@.map_values(|i: usize| i as int);
    let mut assigned = initial_map(columns, &order);
    let ghost es0 = assigned.entries();
    let total = total_width(&assigned);
    let mut remaining: u16 = budget.saturating_sub(total);
    let ghost rem0 = remaining as int;
    proof {
        assert forall|j: int| 0 <= j < ord.len() implies lookup_entry(es0, #[trigger] cols[ord[j]].name@) is Some by {
            lemma_initial_present(cols, ord, j);
        }
    }
    // Pass 2: distribute the surplus in priority order.
    let mut j: usize = 0;
    while j < order.len()
        invariant
            j <= order@.len(),
            ord == order@.map_values(|i: usize| i as int),
            cols == columns@,
            forall|k: int| 0 <= k < order@.len() ==> #[trigger] order@[k] < columns@.len(),
            forall|k: int| 0 <= k < ord.len() ==> lookup_entry(es0, #[trigger] cols[ord[k]].name@) is Some,
            rem0 >= 0,
            (assigned.entries(), remaining as int) == grow(cols, ord.take(j as int), (es0, rem0)),
        decreases order@.len() - j,
    {
        assert(ord.take(j + 1).drop_last() =~= ord.take(j as int));
        assert(ord.take(j + 1).last() == order@[j as int] as int);
        let c = &columns[order[j]];
        proof {
            lemma_grow(cols, ord.take(j as int), (es0, rem0));
            assert(ord[j as int] == order@[j as int] as int);
            assert(lookup_entry(es0, cols[ord[j as int]].name@) is Some);
        }
        if remaining > 0 {
            let current: u16 = match assigned.get(c.name.as_str()) {
                Some(w) => *w,
                None => 0,
            };
            let room = c.content_max.saturating_sub(current);
            let extra = if remaining < room {
                remaining
            } else {
                room
            };
            if extra > 0 {
                assigned.insert(c.name.clone(), current + extra);
                remaining = remaining - extra;
            }
        }
        j = j + 1;
    }
    assert(ord.take(order@.len() as int) =~= ord);
    proof {
        lemma_grow(cols, ord, (es0, rem0));
    }
    // Pass 3: drop lowest-priority columns while over budget.
    let ghost es1 = assigned.entries();
    loop
        invariant_except_break
            ord == order@.map_values(|i: usize| i as int),
            cols == columns@,
            forall|k: int| 0 <= k < order@.len() ==> #[trigger] order@[k] < columns@.len(),
            sum_widths(assigned.entries()) <= u16::MAX,
            drop_pass(cols, ord, assigned.entries(), budget as int) == drop_pass(
                cols,
                ord,
                es1,
                budget as int,
            ),
        ensures
            assigned.entries() == drop_pass(cols, ord, es1, budget as int),
        decreases assigned.entries().len(),
    {
        let sum = total_width(&assigned);
        if !(sum > budget && assigned.len() > 1) {
            break;
        }
        let pick = lowest_assigned(columns, &order, &assigned);
        match pick {
            Some(x) => {
                let ghost before = assigned.entries();
                proof {
                    lemma_remove(before, cols[x as int].name@);
                }
                let removed = assigned.remove(columns[x].name.as_str());
                if !removed {
                    break;
                }
            },
            None => {
                break;
            },
        }
    }
    let ghost es2 = assigned.entries();
    assert(es2 == final_entries(budget, cols));
    // Step 6: survivors in input order.
    let mut out: Vec<(String, u16)> = Vec::new();
    let mut i: usize = 0;
    while i < columns.len()
        invariant
            i <= columns@.len(),
            cols == columns@,
            es2 == assigned.entries(),
            out@.map_values(|p: (String, u16)| (p.0@, p.1)) == survivors(cols.take(i as int), es2),
        decreases columns@.len() - i,
    {
        assert(cols.take(i + 1).drop_last() =~= cols.take(i as int));
        assert(cols.take(i + 1).last() == columns@[i as int]);
        match assigned.get(columns[i].name.as_str()) {
            Some(w) => {
                out.push((columns[i].name.clone(), *w));
            },
            None => {},
        }
        assert(out@.map_values(|p: (String, u16)| (p.0@, p.1)) =~= survivors(cols.take(i + 1), es2));
        i = i + 1;
    }
    assert(cols.take(columns@.len() as int) =~= cols);
    out
}

/// The first column of `order` with the lowest priority among the assigned ones.
fn lowest_assigned(columns: &[ColumnSpec], order: &Vec<usize>, assigned: &StrMap<u16>) -> (r:
    Option<usize>)
    requires
        forall|k: int| 0 <= k < order@.len() ==> #[trigger] order@[k] < columns@.len(),
    ensures
        match r {
            Some(x) => Some(x as int),
            None => None,
        } == lowest_present(columns@, order@.map_values(|i: usize| i as int), assigned.entries()),
        r matches Some(x) ==> x < columns@.len() && lookup_entry(
            assigned.entries(),
            columns@[x as int].name@,
        ) is Some,
{
    let ghost ord = order@.map_values(|i: usize| i as int);
    let mut best: Option<usize> = None;
    let mut j: usize = 0;
    while j < order.len()
        invariant
            j <= order@.len(),
            ord == order@.map_values(|i: usize| i as int),
            forall|k: int| 0 <= k < order@.len() ==> #[trigger] order@[k] < columns@.len(),
            match best {
                Some(x) => Some(x as int),
                None => None,
            } == lowest_present(columns@, ord.take(j as int), assigned.entries()),
            best matches Some(x) ==> x < columns@.len() && lookup_entry(
                assigned.entries(),
                columns@[x as int].name@,
            ) is Some,
        decreases order@.len() - j,
    {
        assert(ord.take(j + 1).drop_last() =~= ord.take(j as int));
        assert(ord.take(j + 1).last() == order@[j as int] as int);
        let x = order[j];
        if assigned.contains_key(columns[x].name.as_str()) {
            best = match best {
                None => Some(x),
                Some(y) => if columns[x].priority < columns[y].priority {
                    Some(x)
                } else {
                    Some(y)
                },
            };
        }
        j = j + 1;
    }
    assert(ord.take(order@.len() as int) =~= ord);
    best
}

// ── Cell truncation ─────────────────────────────────────────────────────────

/// What `truncate_cell` shows: nothing below width 2; the text when it has
/// at most `width` characters; else its first `width - 1` characters and `…`.
pub open spec fn truncate_cell_spec(text: Seq<char>, width: usize) -> Seq<char> {
    if width < 2 {
        Seq::empty()
    } else if text.len() <= width {
        text
    } else {
        text.take(width - 1).push('…')
    }
}

/// Truncate `text` to fit within `width` cells (one per character),
/// appending `…` if needed.
///
/// If `width` < 2, returns an empty string (no room for any visible character).
/// If `text` already fits, it is returned unchanged.
pub fn truncate_cell(text: &str, width: usize) -> (r: String)
    ensures
        r@ == truncate_cell_spec(text@, width),
{
    if width < 2 {
        return String::new();
    }
    let v = chars_of(text);
    if v.len() <= width {
        return to_string(text);
    }
    let mut r = string_from_range(&v, 0, width - 1);
    r.push('…');
    assert(r@ =~= text@.take(width - 1).push('…'));
    r
}

} // verus!
