//! Pure helpers for user-driven column reordering and column definitions.

use crate::responsive::{ColumnSpec, Tier};
use crate::text::str_eq;
use vstd::prelude::*;

verus! {

/// The characters of each name.
pub open spec fn names(v: Seq<String>) -> Seq<Seq<char>> {
    v.map_values(|s: String| s@)
}

/// The entries of `saved` that `default` knows, each at its first
/// occurrence in `saved`, in saved order.
pub open spec fn saved_part(saved: Seq<Seq<char>>, default: Seq<Seq<char>>) -> Seq<Seq<char>>
    decreases saved.len(),
{
    if saved.len() == 0 {
        Seq::empty()
    } else {
        let prev = saved_part(saved.drop_last(), default);
        let e = saved.last();
        if !saved.drop_last().contains(e) && default.contains(e) {
            prev.push(e)
        } else {
            prev
        }
    }
}

/// The entries of `default` that `saved` lacks, in default order.
pub open spec fn missing_part(default: Seq<Seq<char>>, saved: Seq<Seq<char>>) -> Seq<Seq<char>>
    decreases default.len(),
{
    if default.len() == 0 {
        Seq::empty()
    } else {
        let prev = missing_part(default.drop_last(), saved);
        if saved.contains(default.last()) {
            prev
        } else {
            prev.push(default.last())
        }
    }
}

/// The reconciled order: the known saved names in saved order (first
/// occurrence wins), then the default names not saved, in default order.
pub open spec fn reconcile_spec(saved: Seq<Seq<char>>, default: Seq<Seq<char>>) -> Seq<Seq<char>> {
    saved_part(saved, default) + missing_part(default, saved)
}

/// Whether the first `n` names of `s` hold `x`.
fn holds_within(s: &[String], n: usize, x: &str) -> (r: bool)
    requires
        n <= s@.len(),
    ensures
        r == names(s@).take(n as int).contains(x@),
{
    let mut i: usize = 0;
    while i < n
        invariant
            i <= n <= s@.len(),
            forall|k: int| 0 <= k < i ==> names(s@)[k] != x@,
        decreases n - i,
    {
        if str_eq(s[i].as_str(), x) {
            assert(names(s@).take(n as int)[i as int] == x@);
            return true;
        }
        i = i + 1;
    }
    assert forall|k: int| 0 <= k < n implies names(s@).take(n as int)[k] != x@ by {}
    false
}

/// Whether `s` holds `x`, for string slices.
pub(crate) fn holds(s: &[String], x: &str) -> (r: bool)
    ensures
        r == names(s@).contains(x@),
{
    let r = holds_within(s, s.len(), x);
    assert(names(s@).take(s@.len() as int) =~= names(s@));
    r
}

/// Return a column-name list that reconciles saved order with default columns.
///
/// Rules:
/// 1. Result contains every name in `default` exactly once.
/// 2. Relative order of entries in `saved` that exist in `default` is preserved.
/// 3. Names in `saved` not present in `default` are dropped.
/// 4. Names in `default` not present in `saved` are appended in their default order.
///
/// Duplicate entries in `saved` are de-duplicated (first occurrence wins).
pub fn reconcile_order(saved: &[String], default: &[String]) -> (r: Vec<String>)
    ensures
        names(r@) == reconcile_spec(names(saved@), names(default@)),
{
    let ghost sv = names(saved@);
    let ghost dv = names(default@);
    let mut ordered: Vec<String> = Vec::new();
    let mut i: usize = 0;
    while i < saved.len()
        invariant
            i <= saved@.len(),
            sv == names(saved@),
            dv == names(default@),
            names(ordered@) == saved_part(sv.take(i as int), dv),
        decreases saved@.len() - i,
    {
        assert(sv.take(i + 1).drop_last() =~= sv.take(i as int));
        assert(sv.take(i + 1).last() == saved@[i as int]@);
        let entry = &saved[i];
        let seen = holds_within(saved, i, entry.as_str());
        if !seen && holds(default, entry.as_str()) {
            let ghost before = names(ordered@);
            ordered.push(entry.clone());
            assert(names(ordered@) =~= before.push(entry@));
        }
        i = i + 1;
    }
    assert(sv.take(saved@.len() as int) =~= sv);
    let ghost head = names(ordered@);
    let mut j: usize = 0;
    while j < default.len()
        invariant
            j <= default@.len(),
            sv == names(saved@),
            dv == names(default@),
            head == saved_part(sv, dv),
            names(ordered@) == head + missing_part(dv.take(j as int), sv),
        decreases default@.len() - j,
    {
        assert(dv.take(j + 1).drop_last() =~= dv.take(j as int));
        assert(dv.take(j + 1).last() == default@[j as int]@);
        let name = &default[j];
        if !holds(saved, name.as_str()) {
            let ghost before = names(ordered@);
            ordered.push(name.clone());
            assert(names(ordered@) =~= before.push(name@));
        }
        assert(names(ordered@) =~= head + missing_part(dv.take(j + 1), sv));
        j = j + 1;
    }
    assert(dv.take(default@.len() as int) =~= dv);
    ordered
}

/// The saved part holds exactly the saved names that the default knows.
proof fn lemma_saved_part_members(saved: Seq<Seq<char>>, default: Seq<Seq<char>>, x: Seq<char>)
    ensures
        saved_part(saved, default).contains(x) <==> (saved.contains(x) && default.contains(x)),
    decreases saved.len(),
{
    if saved.len() > 0 {
        lemma_saved_part_members(saved.drop_last(), default, x);
        let prev = saved_part(saved.drop_last(), default);
        let e = saved.last();
        assert(saved =~= saved.drop_last().push(e));
        if saved.contains(x) && !saved.drop_last().contains(x) {
            assert(x == e) by {
                let k = choose|k: int| 0 <= k < saved.len() && saved[k] == x;
                if k < saved.len() - 1 {
                    assert(saved.drop_last()[k] == x);
                }
            }
        }
        if saved.drop_last().contains(x) {
            let k = choose|k: int| 0 <= k < saved.drop_last().len() && saved.drop_last()[k] == x;
            assert(saved[k] == x);
        }
        if !saved.drop_last().contains(e) && default.contains(e) {
            assert(prev.push(e).contains(x) <==> (prev.contains(x) || x == e)) by {
                if prev.push(e).contains(x) && x != e {
                    let k = choose|k: int| 0 <= k < prev.push(e).len() && prev.push(e)[k] == x;
                    assert(prev[k] == x);
                }
                if prev.contains(x) {
                    let k = choose|k: int| 0 <= k < prev.len() && prev[k] == x;
                    assert(prev.push(e)[k] == x);
                }
                if x == e {
                    assert(prev.push(e)[prev.len() as int] == x);
                }
            }
            if x == e {
                assert(saved[saved.len() - 1] == x);
            }
        }
    }
}

/// The missing part holds exactly the default names that were not saved.
proof fn lemma_missing_part_members(default: Seq<Seq<char>>, saved: Seq<Seq<char>>, x: Seq<char>)
    ensures
        missing_part(default, saved).contains(x) <==> (default.contains(x) && !saved.contains(x)),
    decreases default.len(),
{
    if default.len() > 0 {
        lemma_missing_part_members(default.drop_last(), saved, x);
        let prev = missing_part(default.drop_last(), saved);
        let e = default.last();
        if default.contains(x) && !default.drop_last().contains(x) {
            let k = choose|k: int| 0 <= k < default.len() && default[k] == x;
            if k < default.len() - 1 {
                assert(default.drop_last()[k] == x);
            }
        }
        if default.drop_last().contains(x) {
            let k = choose|k: int| 0 <= k < default.drop_last().len() && default.drop_last()[k] == x;
            assert(default[k] == x);
        }
        if !saved.contains(e) {
            if prev.push(e).contains(x) && x != e {
                let k = choose|k: int| 0 <= k < prev.push(e).len() && prev.push(e)[k] == x;
                assert(prev[k] == x);
            }
            if prev.contains(x) {
                let k = choose|k: int| 0 <= k < prev.len() && prev[k] == x;
                assert(prev.push(e)[k] == x);
            }
            if x == e {
                assert(prev.push(e)[prev.len() as int] == x);
                assert(default[default.len() - 1] == x);
            }
        }
    }
}

/// The saved part has no repeated name.
proof fn lemma_saved_part_unique(saved: Seq<Seq<char>>, default: Seq<Seq<char>>)
    ensures
        saved_part(saved, default).no_duplicates(),
    decreases saved.len(),
{
    if saved.len() > 0 {
        lemma_saved_part_unique(saved.drop_last(), default);
        let prev = saved_part(saved.drop_last(), default);
        let e = saved.last();
        if !saved.drop_last().contains(e) && default.contains(e) {
            lemma_saved_part_members(saved.drop_last(), default, e);
            assert forall|i: int, j: int| 0 <= i < j < prev.push(e).len() implies prev.push(e)[i]
                != prev.push(e)[j] by {
                if j == prev.len() {
                    if prev[i] == e {
                        assert(prev.contains(e));
                    }
                }
            }
        }
    }
}

/// The missing part repeats no name when the default repeats none.
proof fn lemma_missing_part_unique(default: Seq<Seq<char>>, saved: Seq<Seq<char>>)
    requires
        default.no_duplicates(),
    ensures
        missing_part(default, saved).no_duplicates(),
    decreases default.len(),
{
    if default.len() > 0 {
        assert(default.drop_last().no_duplicates()) by {
            assert forall|i: int, j: int| 0 <= i < j < default.drop_last().len() implies
                default.drop_last()[i] != default.drop_last()[j] by {
                assert(default[i] != default[j]);
            }
        }
        lemma_missing_part_unique(default.drop_last(), saved);
        let prev = missing_part(default.drop_last(), saved);
        let e = default.last();
        if !saved.contains(e) {
            lemma_missing_part_members(default.drop_last(), saved, e);
            if default.drop_last().contains(e) {
                let k = choose|k: int| 0 <= k < default.drop_last().len() && default.drop_last()[k] == e;
                assert(default[k] == default[default.len() - 1]);
            }
            assert forall|i: int, j: int| 0 <= i < j < prev.push(e).len() implies prev.push(e)[i]
                != prev.push(e)[j] by {
                if j == prev.len() {
                    if prev[i] == e {
                        assert(prev.contains(e));
                    }
                }
            }
        }
    }
}

/// The missing part is no longer than the default.
proof fn lemma_missing_part_len(default: Seq<Seq<char>>, saved: Seq<Seq<char>>)
    ensures
        missing_part(default, saved).len() <= default.len(),
    decreases default.len(),
{
    if default.len() > 0 {
        lemma_missing_part_len(default.drop_last(), saved);
    }
}

/// A reconciled order is at most twice as long as the default: its saved
/// part repeats no name and holds only default names, and its missing part
/// is a part of the default.
pub proof fn lemma_reconcile_len(saved: Seq<Seq<char>>, default: Seq<Seq<char>>)
    ensures
        reconcile_spec(saved, default).len() <= 2 * default.len(),
{
    let sp = saved_part(saved, default);
    lemma_saved_part_unique(saved, default);
    assert forall|x: Seq<char>| sp.to_set().contains(x) implies default.to_set().contains(x) by {
        lemma_saved_part_members(saved, default, x);
    }
    assert(sp.to_set().subset_of(default.to_set()));
    vstd::seq_lib::seq_to_set_is_finite(default);
    sp.unique_seq_to_set();
    default.lemma_cardinality_of_set();
    vstd::set_lib::lemma_len_subset(sp.to_set(), default.to_set());
    lemma_missing_part_len(default, saved);
}

/// Reconciling keeps exactly the default names: every default name is in
/// the result, nothing else is, and when the default repeats no name,
/// neither does the result — each default name occurs exactly once.
pub proof fn lemma_reconcile_order(saved: Seq<Seq<char>>, default: Seq<Seq<char>>)
    ensures
        forall|x: Seq<char>| #[trigger]
            reconcile_spec(saved, default).contains(x) <==> default.contains(x),
        default.no_duplicates() ==> reconcile_spec(saved, default).no_duplicates(),
{
    let a = saved_part(saved, default);
    let b = missing_part(default, saved);
    let r = a + b;
    assert forall|x: Seq<char>| #[trigger] r.contains(x) <==> default.contains(x) by {
        lemma_saved_part_members(saved, default, x);
        lemma_missing_part_members(default, saved, x);
        if r.contains(x) {
            let k = choose|k: int| 0 <= k < r.len() && r[k] == x;
            if k < a.len() {
                assert(a[k] == x);
            } else {
                assert(b[k - a.len()] == x);
            }
        }
        if a.contains(x) {
            let k = choose|k: int| 0 <= k < a.len() && a[k] == x;
            assert(r[k] == x);
        }
        if b.contains(x) {
            let k = choose|k: int| 0 <= k < b.len() && b[k] == x;
            assert(r[a.len() + k] == x);
        }
    }
    if default.no_duplicates() {
        lemma_saved_part_unique(saved, default);
        lemma_missing_part_unique(default, saved);
        assert forall|i: int, j: int| 0 <= i < j < r.len() implies r[i] != r[j] by {
            if i < a.len() && j >= a.len() {
                let x = r[i];
                assert(a[i] == x);
                assert(b[j - a.len()] == r[j]);
                lemma_saved_part_members(saved, default, x);
                lemma_missing_part_members(default, saved, x);
                if r[j] == x {
                    assert(a.contains(x));
                    assert(b.contains(x));
                }
            } else if i >= a.len() {
                assert(b[i - a.len()] == r[i]);
                assert(b[j - a.len()] == r[j]);
            } else {
                assert(a[i] == r[i]);
                assert(a[j] == r[j]);
            }
        }
    }
}

/// `s` without every occurrence of `x`.
pub open spec fn without(s: Seq<Seq<char>>, x: Seq<char>) -> Seq<Seq<char>>
    decreases s.len(),
{
    if s.len() == 0 {
        Seq::empty()
    } else {
        let prev = without(s.drop_last(), x);
        if s.last() == x {
            prev
        } else {
            prev.push(s.last())
        }
    }
}

/// The position of the first `x` in `s`, if any.
pub open spec fn position_of(s: Seq<Seq<char>>, x: Seq<char>) -> Option<int>
    decreases s.len(),
{
    if s.len() == 0 {
        None
    } else if s[0] == x {
        Some(0)
    } else {
        match position_of(s.drop_first(), x) {
            Some(i) => Some(i + 1),
            None => None,
        }
    }
}

/// `order` with `name` moved before `before` (or to the end).
pub open spec fn move_spec(order: Seq<Seq<char>>, name: Seq<char>, before: Option<Seq<char>>) -> Seq<
    Seq<char>,
> {
    if !order.contains(name) {
        order
    } else {
        let rest = without(order, name);
        match before {
            None => rest.push(name),
            Some(b) => match position_of(rest, b) {
                Some(i) => rest.insert(i, name),
                None => rest.push(name),
            },
        }
    }
}

/// The position of `x` in `s` is `i` when `i` holds it and no earlier place does.
pub proof fn lemma_position_of(s: Seq<Seq<char>>, x: Seq<char>, i: int)
    requires
        0 <= i <= s.len(),
        i < s.len() ==> s[i] == x,
        forall|k: int| 0 <= k < i ==> s[k] != x,
    ensures
        position_of(s, x) == if i < s.len() {
            Some(i)
        } else {
            None::<int>
        },
    decreases s.len(),
{
    if s.len() > 0 && i > 0 {
        lemma_position_of(s.drop_first(), x, i - 1);
    }
}

/// Return a new list with `name` repositioned.
///
/// - If `before` is `None`, `name` is moved to the end.
/// - If `name` is not in `order`, return `order` unchanged.
/// - If `before` is not in `order`, `name` is moved to the end.
/// - Pure: does not mutate the input.
pub fn move_in_order(order: &[String], name: &str, before: Option<&str>) -> (r: Vec<String>)
    ensures
        names(r@) == move_spec(
            names(order@),
            name@,
            match before {
                Some(b) => Some(b@),
                None => None,
            },
        ),
{
    let ghost ov = names(order@);
    if !holds(order, name) {
        let mut copy: Vec<String> = Vec::new();
        let mut i: usize = 0;
        while i < order.len()
            invariant
                i <= order@.len(),
                names(copy@) == ov.take(i as int),
                ov == names(order@),
            decreases order@.len() - i,
        {
            let ghost before = names(copy@);
            copy.push(order[i].clone());
            assert(names(copy@) =~= before.push(order@[i as int]@));
            assert(ov.take(i + 1) =~= ov.take(i as int).push(ov[i as int]));
            i = i + 1;
        }
        assert(ov.take(order@.len() as int) =~= ov);
        return copy;
    }
    let mut result: Vec<String> = Vec::new();
    let mut i: usize = 0;
    while i < order.len()
        invariant
            i <= order@.len(),
            names(result@) == without(ov.take(i as int), name@),
            ov == names(order@),
        decreases order@.len() - i,
    {
        assert(ov.take(i + 1).drop_last() =~= ov.take(i as int));
        assert(ov.take(i + 1).last() == order@[i as int]@);
        if !str_eq(order[i].as_str(), name) {
            let ghost before = names(result@);
            result.push(order[i].clone());
            assert(names(result@) =~= before.push(order@[i as int]@));
        }
        i = i + 1;
    }
    assert(ov.take(order@.len() as int) =~= ov);
    let ghost rest = names(result@);
    match before {
        None => {
            result.push(crate::text::to_string(name));
            assert(names(result@) =~= rest.push(name@));
        },
        Some(before_name) => {
            let mut k: usize = 0;
            while k < result.len() && !str_eq(result[k].as_str(), before_name)
                invariant
                    k <= result@.len(),
                    rest == names(result@),
                    forall|m: int| 0 <= m < k ==> rest[m] != before_name@,
                decreases result@.len() - k,
            {
                k = k + 1;
            }
            proof {
                lemma_position_of(rest, before_name@, k as int);
            }
            if k < result.len() {
                result.insert(k, crate::text::to_string(name));
                assert(names(result@) =~= rest.insert(k as int, name@));
            } else {
                result.push(crate::text::to_string(name));
                assert(names(result@) =~= rest.push(name@));
            }
        },
    }
    result
}

/// Without `x`: the other names stay, and nothing repeats that did not.
proof fn lemma_without(s: Seq<Seq<char>>, x: Seq<char>)
    ensures
        forall|y: Seq<char>| #[trigger] without(s, x).contains(y) <==> (s.contains(y) && y != x),
        s.no_duplicates() ==> without(s, x).no_duplicates(),
        s.no_duplicates() && s.contains(x) ==> without(s, x).len() == s.len() - 1,
        !s.contains(x) ==> without(s, x).len() == s.len(),
    decreases s.len(),
{
    if s.len() > 0 {
        let d = s.drop_last();
        let e = s.last();
        lemma_without(d, x);
        let prev = without(d, x);
        assert forall|y: Seq<char>| #[trigger] without(s, x).contains(y) <==> (s.contains(y) && y != x) by {
            if s.contains(y) && !d.contains(y) {
                let k = choose|k: int| 0 <= k < s.len() && s[k] == y;
                if k < s.len() - 1 {
                    assert(d[k] == y);
                }
            }
            if d.contains(y) {
                let k = choose|k: int| 0 <= k < d.len() && d[k] == y;
                assert(s[k] == y);
            }
            if e != x {
                if prev.push(e).contains(y) && y != e {
                    let k = choose|k: int| 0 <= k < prev.push(e).len() && prev.push(e)[k] == y;
                    assert(prev[k] == y);
                }
                if prev.contains(y) {
                    let k = choose|k: int| 0 <= k < prev.len() && prev[k] == y;
                    assert(prev.push(e)[k] == y);
                }
                if y == e {
                    assert(prev.push(e)[prev.len() as int] == y);
                    assert(s[s.len() - 1] == y);
                }
            } else {
                if y == e {
                    assert(s[s.len() - 1] == y);
                }
            }
        }
        if s.no_duplicates() {
            assert(d.no_duplicates()) by {
                assert forall|i: int, j: int| 0 <= i < j < d.len() implies d[i] != d[j] by {
                    assert(s[i] != s[j]);
                }
            }
            assert(!d.contains(e)) by {
                if d.contains(e) {
                    let k = choose|k: int| 0 <= k < d.len() && d[k] == e;
                    assert(s[k] == s[s.len() - 1]);
                }
            }
            if e != x {
                assert forall|i: int, j: int| 0 <= i < j < prev.push(e).len() implies prev.push(e)[i]
                    != prev.push(e)[j] by {
                    if j == prev.len() && prev[i] == e {
                        assert(prev.contains(e));
                    }
                }
            }
            if s.contains(x) {
                if e != x {
                    assert(d.contains(x)) by {
                        let k = choose|k: int| 0 <= k < s.len() && s[k] == x;
                        assert(k < s.len() - 1);
                        assert(d[k] == x);
                    }
                }
            }
        }
        if !s.contains(x) {
            assert(!d.contains(x)) by {
                if d.contains(x) {
                    let k = choose|k: int| 0 <= k < d.len() && d[k] == x;
                    assert(s[k] == x);
                }
            }
            assert(e != x) by {
                if e == x {
                    assert(s[s.len() - 1] == x);
                }
            }
        }
    }
}

/// Moving a column is a permutation: when the order repeats no name and
/// holds `name`, the result has the same length, the same names, and
/// repeats none.
pub proof fn lemma_move_in_order_permutes(order: Seq<Seq<char>>, name: Seq<char>, before: Option<Seq<char>>)
    requires
        order.no_duplicates(),
    ensures
        move_spec(order, name, before).len() == order.len(),
        forall|y: Seq<char>| #[trigger] move_spec(order, name, before).contains(y) <==> order.contains(y),
        move_spec(order, name, before).no_duplicates(),
{
    if order.contains(name) {
        lemma_without(order, name);
        let rest = without(order, name);
        let r = move_spec(order, name, before);
        assert(!rest.contains(name));
        let pos: int = match before {
            Some(b) => match position_of(rest, b) {
                Some(i) => i,
                None => rest.len() as int,
            },
            None => rest.len() as int,
        };
        assert(0 <= pos <= rest.len()) by {
            if let Some(b) = before {
                if let Some(i) = position_of(rest, b) {
                    lemma_position_bound(rest, b);
                }
            }
        }
        assert(r =~= rest.insert(pos, name)) by {
            if pos == rest.len() {
                assert(rest.insert(pos, name) =~= rest.push(name));
            }
        }
        assert forall|y: Seq<char>| #[trigger] r.contains(y) <==> order.contains(y) by {
            if r.contains(y) {
                let k = choose|k: int| 0 <= k < r.len() && r[k] == y;
                if k < pos {
                    assert(rest[k] == y);
                    assert(rest.contains(y));
                } else if k > pos {
                    assert(rest[k - 1] == y);
                    assert(rest.contains(y));
                }
            }
            if order.contains(y) && y != name {
                assert(rest.contains(y));
                let k = choose|k: int| 0 <= k < rest.len() && rest[k] == y;
                if k < pos {
                    assert(r[k] == y);
                } else {
                    assert(r[k + 1] == y);
                }
            }
            if y == name {
                assert(r[pos] == y);
            }
        }
        assert forall|i: int, j: int| 0 <= i < j < r.len() implies r[i] != r[j] by {
            if i == pos {
                if j > pos {
                    assert(r[j] == rest[j - 1]);
                    assert(rest.contains(r[j]));
                }
            } else if j == pos {
                assert(r[i] == rest[i]);
                assert(rest.contains(r[i]));
            } else {
                let ri: int = if i < pos { i } else { i - 1 };
                let rj: int = if j < pos { j } else { j - 1 };
                assert(r[i] == rest[ri]);
                assert(r[j] == rest[rj]);
            }
        }
    }
}

proof fn lemma_position_bound(s: Seq<Seq<char>>, x: Seq<char>)
    ensures
        position_of(s, x) matches Some(i) ==> 0 <= i < s.len(),
    decreases s.len(),
{
    if s.len() > 0 {
        lemma_position_bound(s.drop_first(), x);
    }
}

/// A column definition as plain values: name, minimum width, content
/// maximum, priority, minimum tier, minimum terminal width.
pub open spec fn column_view(c: ColumnSpec) -> (Seq<char>, u16, u16, u16, Tier, u16) {
    (c.name@, c.min_width, c.content_max, c.priority, c.min_tier, c.min_terminal_width)
}

/// The Jobs view columns.
pub open spec fn jobs_column_table() -> Seq<(Seq<char>, u16, u16, u16, Tier, u16)> {
    seq![
        ("JOBID"@, 8u16, 12u16, 100u16, Tier::Xs, 0u16),
        ("STATE"@, 10u16, 14u16, 95u16, Tier::Xs, 0u16),
        ("NAME"@, 8u16, 24u16, 90u16, Tier::Xs, 0u16),
        ("USER"@, 8u16, 12u16, 80u16, Tier::Sm, 0u16),
        ("TIME"@, 10u16, 12u16, 75u16, Tier::Sm, 0u16),
        ("TIME_LEFT"@, 10u16, 12u16, 70u16, Tier::Sm, 0u16),
        ("PARTITION"@, 9u16, 14u16, 60u16, Tier::Md, 0u16),
        ("NODES"@, 6u16, 8u16, 55u16, Tier::Md, 0u16),
        ("CPUS"@, 6u16, 8u16, 50u16, Tier::Md, 0u16),
        ("QOS"@, 8u16, 12u16, 45u16, Tier::Sm, 90u16),
        ("TIME_LIMIT"@, 10u16, 12u16, 40u16, Tier::Md, 0u16),
        ("NODELIST(REASON)"@, 14u16, 40u16, 30u16, Tier::Lg, 0u16),
    ]
}

/// The Nodes view columns.
pub open spec fn nodes_column_table() -> Seq<(Seq<char>, u16, u16, u16, Tier, u16)> {
    seq![
        ("NODE"@, 12u16, 20u16, 100u16, Tier::Xs, 0u16),
        ("STATE"@, 12u16, 16u16, 95u16, Tier::Xs, 0u16),
        ("CPU%"@, 14u16, 18u16, 90u16, Tier::Xs, 0u16),
        ("GPU%"@, 14u16, 18u16, 80u16, Tier::Sm, 0u16),
        ("CPUS A/T"@, 10u16, 12u16, 75u16, Tier::Sm, 0u16),
        ("GPU A/T"@, 9u16, 12u16, 70u16, Tier::Sm, 0u16),
        ("MEM FREE"@, 10u16, 12u16, 60u16, Tier::Md, 0u16),
        ("PARTITION"@, 12u16, 20u16, 55u16, Tier::Md, 0u16),
        ("MEM TOTAL"@, 10u16, 12u16, 45u16, Tier::Lg, 0u16),
        ("LOAD"@, 8u16, 10u16, 40u16, Tier::Lg, 0u16),
    ]
}

fn push_column(v: &mut Vec<ColumnSpec>, c: ColumnSpec)
    ensures
        final(v)@.map_values(|c: ColumnSpec| column_view(c)) == old(v)@.map_values(
            |c: ColumnSpec| column_view(c),
        ).push(column_view(c)),
{
    let ghost before = v@;
    let ghost cv = column_view(c);
    v.push(c);
    assert(v@.map_values(|c: ColumnSpec| column_view(c)) =~= before.map_values(
        |c: ColumnSpec| column_view(c),
    ).push(cv));
}

/// Jobs view column definitions; `content_max` is overridden at runtime
/// from config.
pub fn jobs_columns() -> (r: Vec<ColumnSpec>)
    ensures
        r@.map_values(|c: ColumnSpec| column_view(c)) == jobs_column_table(),
{
    let mut r: Vec<ColumnSpec> = Vec::new();
    push_column(&mut r, ColumnSpec::new("JOBID", 8, 12, 100, Tier::Xs));
    push_column(&mut r, ColumnSpec::new("STATE", 10, 14, 95, Tier::Xs));
    push_column(&mut r, ColumnSpec::new("NAME", 8, 24, 90, Tier::Xs));
    push_column(&mut r, ColumnSpec::new("USER", 8, 12, 80, Tier::Sm));
    push_column(&mut r, ColumnSpec::new("TIME", 10, 12, 75, Tier::Sm));
    push_column(&mut r, ColumnSpec::new("TIME_LEFT", 10, 12, 70, Tier::Sm));
    push_column(&mut r, ColumnSpec::new("PARTITION", 9, 14, 60, Tier::Md));
    push_column(&mut r, ColumnSpec::new("NODES", 6, 8, 55, Tier::Md));
    push_column(&mut r, ColumnSpec::new("CPUS", 6, 8, 50, Tier::Md));
    push_column(&mut r, ColumnSpec::new("QOS", 8, 12, 45, Tier::Sm).with_min_terminal_width(90));
    push_column(&mut r, ColumnSpec::new("TIME_LIMIT", 10, 12, 40, Tier::Md));
    push_column(&mut r, ColumnSpec::new("NODELIST(REASON)", 14, 40, 30, Tier::Lg));
    assert(r@.map_values(|c: ColumnSpec| column_view(c)) =~= jobs_column_table());
    r
}

/// Nodes view column definitions.
pub fn nodes_columns() -> (r: Vec<ColumnSpec>)
    ensures
        r@.map_values(|c: ColumnSpec| column_view(c)) == nodes_column_table(),
{
    let mut r: Vec<ColumnSpec> = Vec::new();
    push_column(&mut r, ColumnSpec::new("NODE", 12, 20, 100, Tier::Xs));
    push_column(&mut r, ColumnSpec::new("STATE", 12, 16, 95, Tier::Xs));
    push_column(&mut r, ColumnSpec::new("CPU%", 14, 18, 90, Tier::Xs));
    push_column(&mut r, ColumnSpec::new("GPU%", 14, 18, 80, Tier::Sm));
    push_column(&mut r, ColumnSpec::new("CPUS A/T", 10, 12, 75, Tier::Sm));
    push_column(&mut r, ColumnSpec::new("GPU A/T", 9, 12, 70, Tier::Sm));
    push_column(&mut r, ColumnSpec::new("MEM FREE", 10, 12, 60, Tier::Md));
    push_column(&mut r, ColumnSpec::new("PARTITION", 12, 20, 55, Tier::Md));
    push_column(&mut r, ColumnSpec::new("MEM TOTAL", 10, 12, 45, Tier::Lg));
    push_column(&mut r, ColumnSpec::new("LOAD", 8, 10, 40, Tier::Lg));
    assert(r@.map_values(|c: ColumnSpec| column_view(c)) =~= nodes_column_table());
    r
}

} // verus!
