//! Jobs view helpers: search, sort keys, durations and cell truncation.

use crate::columns::{
    column_view, lemma_move_in_order_permutes, without, holds, jobs_column_table, jobs_columns, lemma_position_of, lemma_reconcile_len,
    move_in_order, move_spec, names, position_of, reconcile_order, reconcile_spec,
};
use crate::config::{ColumnsConfig, ConfigUpdate, JobsConfig, ViewStateConfig};
use crate::responsive::{
    allocate_columns, allocate_spec, allocation_fits, lemma_allocation_fits_bounded, tier_for,
    ColumnSpec, CHROME_OVERHEAD,
};
use crate::slurm::model::Job;
use crate::strmap::{insert_entry, lookup_entry, StrMap};
use crate::views::history::sat_sub_u16;
use crate::views::table_state::{
    first_key_position, lemma_first_key_found, next_state, prev_state, CapturedTableState, CyclicTableState,
};
use crate::slurm::parse::{duration_fits, duration_value, parse_slurm_duration};
use crate::views::keys::{Key, KeyPress};
use crate::views::tint::Tint;
use crate::views::visual::{moved_selection, range_spec, VisualSelection};
use crate::text::{
    chars_of, contains, contains_seq, lowercase, parse_i64, parse_signed_spec, parse_u64,
    parse_u64_spec, push_decimal, push_two_digits, str_eq, string_from_range, to_lower,
    to_string, decimal_seq, two_digit_seq,
};
use core::cmp::Ordering;
use vstd::prelude::*;
use vstd::string::*;
use vstd::utf8::*;

verus! {

/// Captured state for restore after update.
#[derive(Debug, Clone, PartialEq, Eq)]
pub struct CapturedState {
    pub anchor: Option<String>,
}

/// Whether `job` matches the search query `query`: always for an empty
/// query; else when the lowercased query occurs in the lowercased name,
/// state, partition, user, QOS, reason or node list, or in the job id.
pub open spec fn job_matches_spec(job: Job, query: Seq<char>) -> bool {
    let q = lowercase(query);
    query.len() == 0 || contains_seq(lowercase(job.name@), q) || contains_seq(
        lowercase(job.state@),
        q,
    ) || contains_seq(lowercase(job.partition@), q) || contains_seq(job.job_id@, q)
        || contains_seq(lowercase(job.user@), q) || contains_seq(lowercase(job.qos@), q)
        || contains_seq(lowercase(job.reason@), q) || contains_seq(lowercase(job.nodelist@), q)
}

fn lower_contains(field: &str, q: &str) -> (r: bool)
    ensures
        r == contains_seq(lowercase(field@), q@),
{
    let l = to_lower(field);
    contains(l.as_str(), q)
}

/// Check if a job matches the search query.
///
/// Searchable fields: name, user, state, partition, qos, reason, nodelist,
/// job_id. Match is case-insensitive. Empty query matches all jobs.
pub fn job_matches_search(job: &Job, query: &str) -> (r: bool)
    ensures
        r == job_matches_spec(*job, query@),
{
    if query.as_bytes().len() == 0 {
        proof {
            if query@.len() != 0 {
                assert(query@ =~= ""@) by { reveal_strlit(""); }
            }
        }
        return true;
    }
    let q = to_lower(query);
    let qs = q.as_str();
    lower_contains(job.name.as_str(), qs) || lower_contains(job.state.as_str(), qs)
        || lower_contains(job.partition.as_str(), qs) || contains(job.job_id.as_str(), qs)
        || lower_contains(job.user.as_str(), qs) || lower_contains(job.qos.as_str(), qs)
        || lower_contains(job.reason.as_str(), qs) || lower_contains(job.nodelist.as_str(), qs)
}

/// The default sort priority of a job state: `COMPLETING` 0, `RUNNING` 1,
/// `PENDING` 2, anything else 3.
pub open spec fn state_order(state: Seq<char>) -> u8 {
    if state == "COMPLETING"@ {
        0
    } else if state == "RUNNING"@ {
        1
    } else if state == "PENDING"@ {
        2
    } else {
        3
    }
}

/// A job id as a number, or zero.
pub open spec fn job_number(id: Seq<char>) -> u64 {
    match parse_u64_spec(id) {
        Some(n) => n,
        None => 0,
    }
}

/// Default sort key for jobs: (state priority, numeric job id).
pub fn job_sort_key(job: &Job) -> (r: (u8, u64))
    ensures
        r == (state_order(job.state@), job_number(job.job_id@)),
{
    let s = job.state.as_str();
    let priority: u8 = if str_eq(s, "COMPLETING") {
        0
    } else if str_eq(s, "RUNNING") {
        1
    } else if str_eq(s, "PENDING") {
        2
    } else {
        3
    };
    let id = match parse_u64(job.job_id.as_str()) {
        Some(n) => n,
        None => 0,
    };
    (priority, id)
}

/// A job id as a number, or zero, as an integer.
pub open spec fn job_number_int(id: Seq<char>) -> int {
    job_number(id) as int
}

/// The order of two numbers.
pub open spec fn order_of(a: int, b: int) -> Ordering {
    if a < b {
        Ordering::Less
    } else if a == b {
        Ordering::Equal
    } else {
        Ordering::Greater
    }
}

/// Compare job IDs as integers (an unparsable id counts as zero).
pub fn job_id_cmp(a: &Job, b: &Job) -> (r: Ordering)
    ensures
        r == order_of(job_number_int(a.job_id@), job_number_int(b.job_id@)),
{
    let a_id = match parse_u64(a.job_id.as_str()) {
        Some(n) => n,
        None => 0,
    };
    let b_id = match parse_u64(b.job_id.as_str()) {
        Some(n) => n,
        None => 0,
    };
    if a_id < b_id {
        Ordering::Less
    } else if a_id == b_id {
        Ordering::Equal
    } else {
        Ordering::Greater
    }
}

/// A numeric string as an `i64`, or zero.
pub open spec fn int_value(s: Seq<char>) -> int {
    match parse_signed_spec(s, i64::MIN as int, i64::MAX as int) {
        Some(n) => n,
        None => 0,
    }
}

/// Compare numeric strings (an unparsable string counts as zero).
pub fn safe_int_cmp(a: &str, b: &str) -> (r: Ordering)
    ensures
        r == order_of(int_value(a@), int_value(b@)),
{
    let a_val: i64 = match parse_i64(a) {
        Some(n) => n,
        None => 0,
    };
    let b_val: i64 = match parse_i64(b) {
        Some(n) => n,
        None => 0,
    };
    if a_val < b_val {
        Ordering::Less
    } else if a_val == b_val {
        Ordering::Equal
    } else {
        Ordering::Greater
    }
}

/// Estimate display width for the TIME_LEFT column: the byte length of the
/// time limit.
pub fn estimate_time_left_width(job: &Job) -> (r: usize)
    ensures
        r == encode_utf8(job.time_limit@).len(),
{
    job.time_limit.as_str().as_bytes().len()
}

/// `D-HH:MM:SS` for a duration of a day or more, `HH:MM:SS` below, and an
/// em dash for a negative one.
pub open spec fn format_duration_spec(total: int) -> Seq<char> {
    if total < 0 {
        "—"@
    } else {
        let days = total / 86400;
        let rem = total % 86400;
        let hms = two_digit_seq((rem / 3600) as nat) + ":"@ + two_digit_seq(((rem % 3600) / 60) as nat)
            + ":"@ + two_digit_seq((rem % 60) as nat);
        if days > 0 {
            decimal_seq(days as nat) + "-"@ + hms
        } else {
            hms
        }
    }
}

/// Formatting a duration and reading it back as a Slurm duration gives the
/// same number of seconds.
pub proof fn lemma_duration_round_trip(n: int)
    requires
        0 <= n <= i64::MAX,
    ensures
        duration_value(format_duration_spec(n)) == Some(n),
{
    reveal_strlit(":");
    reveal_strlit("-");
    let days = n / 86400;
    let rem = n % 86400;
    let h = (rem / 3600) as nat;
    let m = ((rem % 3600) / 60) as nat;
    let s = (rem % 60) as nat;
    let hh = crate::text::two_digit_seq(h);
    let mm = crate::text::two_digit_seq(m);
    let ss = crate::text::two_digit_seq(s);
    crate::text::lemma_two_digit_value(h);
    crate::text::lemma_two_digit_value(m);
    crate::text::lemma_two_digit_value(s);
    crate::text::lemma_parse_digits(hh);
    crate::text::lemma_parse_digits(mm);
    crate::text::lemma_parse_digits(ss);
    let hms = hh + ":"@ + mm + ":"@ + ss;
    assert(hms =~= (hh + seq![':'] + mm) + seq![':'] + ss);
    assert forall|k: int| 0 <= k < hh.len() implies hh[k] != ':' && hh[k] != '-' && !crate::text::is_ws(hh[k]) by {
        assert(crate::text::is_digit(hh[k]));
    }
    assert forall|k: int| 0 <= k < mm.len() implies mm[k] != ':' && mm[k] != '-' by {
        assert(crate::text::is_digit(mm[k]));
    }
    assert forall|k: int| 0 <= k < ss.len() implies ss[k] != ':' && ss[k] != '-' && !crate::text::is_ws(ss[k]) by {
        assert(crate::text::is_digit(ss[k]));
    }
    crate::text::lemma_split_single(hh, ':');
    crate::text::lemma_split_single(mm, ':');
    crate::text::lemma_split_single(ss, ':');
    crate::text::lemma_split_join(hh + seq![':'] + mm, ss, ':');
    crate::text::lemma_split_join(hh, mm, ':');
    assert(crate::text::split_seq(hms, ':') =~= seq![hh, mm, ss]);
    assert forall|k: int| 0 <= k < hms.len() implies hms[k] != '-' by {
        if k < hh.len() {
            assert(hms[k] == hh[k]);
        } else if k == hh.len() {
        } else if k < hh.len() + 1 + mm.len() {
            assert(hms[k] == mm[k - hh.len() - 1]);
        } else if k == hh.len() + 1 + mm.len() {
        } else {
            assert(hms[k] == ss[k - hh.len() - 2 - mm.len()]);
        }
    }
    assert(days * 86400 + h * 3600 + m * 60 + s == n) by (nonlinear_arith)
        requires
            0 <= n,
            days == n / 86400,
            rem == n % 86400,
            h == rem / 3600,
            m == (rem % 3600) / 60,
            s == rem % 60,
    ;
    let t = format_duration_spec(n);
    if days > 0 {
        let d = crate::text::decimal_seq(days as nat);
        crate::text::lemma_decimal_value(days as nat);
        assert(days <= u64::MAX) by (nonlinear_arith)
            requires
                days == n / 86400,
                0 <= n <= i64::MAX,
        ;
        crate::text::lemma_parse_digits(d);
        assert(t =~= d + seq!['-'] + hms);
        assert forall|k: int| 0 <= k < d.len() implies t[k] != '-' && t[k] == d[k] by {
            assert(crate::text::is_digit(d[k]));
        }
        crate::text::lemma_first_index(t, '-', d.len() as int);
        assert(t.subrange(0, d.len() as int) =~= d);
        assert(t.subrange(d.len() as int + 1, t.len() as int) =~= hms);
        assert(crate::text::is_digit(d[0]));
        assert(t.last() == ss.last());
        assert(crate::text::is_digit(ss[ss.len() - 1]));
        crate::text::lemma_trim_nonws(t);
        assert(t.len() > 1);
    } else {
        assert(t == hms);
        crate::text::lemma_first_index(t, '-', t.len() as int);
        assert(t[0] == hh[0]);
        assert(crate::text::is_digit(hh[0]));
        assert(t.last() == ss.last());
        assert(crate::text::is_digit(ss[ss.len() - 1]));
        crate::text::lemma_trim_nonws(t);
        assert(t.len() > 1);
    }
}

/// Format seconds into D-HH:MM:SS or HH:MM:SS; an em dash for negative input.
#[verifier::spinoff_prover]
#[verifier::rlimit(30)]
pub fn format_duration(total_seconds: i64) -> (r: String)
    ensures
        r@ == format_duration_spec(total_seconds as int),
{
    if total_seconds < 0 {
        return to_string("—");
    }
    let t: u64 = total_seconds as u64;
    let days = t / 86400;
    let remainder = t % 86400;
    let hours = remainder / 3600;
    let remainder2 = remainder % 3600;
    let minutes = remainder2 / 60;
    let seconds = remainder2 % 60;
    let mut r = String::new();
    if days > 0 {
        push_decimal(&mut r, days);
        crate::text::push_str(&mut r, "-");
    }
    push_two_digits(&mut r, hours);
    crate::text::push_str(&mut r, ":");
    push_two_digits(&mut r, minutes);
    crate::text::push_str(&mut r, ":");
    push_two_digits(&mut r, seconds);
    assert(r@ =~= format_duration_spec(total_seconds as int));
    r
}

/// `s` when it has at most `width` characters; else its first `width`
/// characters when `width` is at most 3; else its first `width - 3`
/// characters followed by `...`.
pub open spec fn truncate_spec(s: Seq<char>, width: usize) -> Seq<char> {
    if s.len() <= width {
        s
    } else if width <= 3 {
        s.take(width as int)
    } else {
        s.take(width - 3) + "..."@
    }
}

/// Truncate a string to fit width, adding an ellipsis if needed.
pub fn truncate(s: &str, width: usize) -> (r: String)
    ensures
        r@ == truncate_spec(s@, width),
{
    let v = chars_of(s);
    if v.len() <= width {
        return to_string(s);
    }
    if width <= 3 {
        string_from_range(&v, 0, width)
    } else {
        let mut r = string_from_range(&v, 0, width - 3);
        crate::text::push_str(&mut r, "...");
        r
    }
}

/// The NODELIST(REASON) cell: the node list, or the reason while the job
/// has no nodes (an empty list or `None`).
pub open spec fn nodelist_or_reason(job: Job) -> Seq<char> {
    if job.nodelist@.len() == 0 || job.nodelist@ == "None"@ {
        job.reason@
    } else {
        job.nodelist@
    }
}

/// The text of the jobs-table cell of column `col` for `job` at `width`:
/// names, users, partitions, QOS and the node list or reason are truncated
/// to the width with `...`; the other columns show their value whole, and
/// an unknown column is empty.
pub open spec fn job_cell_spec(job: Job, col: Seq<char>, width: usize) -> Seq<char> {
    if col == "JOBID"@ {
        job.job_id@
    } else if col == "STATE"@ {
        job.state@
    } else if col == "NAME"@ {
        truncate_spec(job.name@, width)
    } else if col == "USER"@ {
        truncate_spec(job.user@, width)
    } else if col == "TIME"@ {
        job.time_used@
    } else if col == "TIME_LEFT"@ {
        time_left_spec(job).0
    } else if col == "PARTITION"@ {
        truncate_spec(job.partition@, width)
    } else if col == "NODES"@ {
        job.num_nodes@
    } else if col == "CPUS"@ {
        job.num_cpus@
    } else if col == "QOS"@ {
        truncate_spec(job.qos@, width)
    } else if col == "TIME_LIMIT"@ {
        job.time_limit@
    } else if col == "NODELIST(REASON)"@ {
        truncate_spec(nodelist_or_reason(job), width)
    } else {
        Seq::empty()
    }
}

/// The text of the jobs-table cell of column `col` for `job` at `width`.
pub fn job_cell_text(job: &Job, col: &str, width: usize) -> (r: String)
    requires
        col@ == "TIME_LEFT"@ ==> duration_fits(job.time_limit@) && duration_fits(job.time_used@),
    ensures
        r@ == job_cell_spec(*job, col@, width),
{
    if str_eq(col, "JOBID") {
        job.job_id.clone()
    } else if str_eq(col, "STATE") {
        job.state.clone()
    } else if str_eq(col, "NAME") {
        truncate(job.name.as_str(), width)
    } else if str_eq(col, "USER") {
        truncate(job.user.as_str(), width)
    } else if str_eq(col, "TIME") {
        job.time_used.clone()
    } else if str_eq(col, "TIME_LEFT") {
        time_left(job).0
    } else if str_eq(col, "PARTITION") {
        truncate(job.partition.as_str(), width)
    } else if str_eq(col, "NODES") {
        job.num_nodes.clone()
    } else if str_eq(col, "CPUS") {
        job.num_cpus.clone()
    } else if str_eq(col, "QOS") {
        truncate(job.qos.as_str(), width)
    } else if str_eq(col, "TIME_LIMIT") {
        job.time_limit.clone()
    } else if str_eq(col, "NODELIST(REASON)") {
        if job.nodelist.as_str().as_bytes().len() == 0 || str_eq(job.nodelist.as_str(), "None") {
            truncate(job.reason.as_str(), width)
        } else {
            truncate(job.nodelist.as_str(), width)
        }
    } else {
        String::new()
    }
}

/// The jobs table's title: `Jobs`, then `(mine: USER)` when only the user's
/// jobs are shown, then the quoted search text when there is one, joined by
/// ` · `.
pub open spec fn jobs_title_spec(filter_mine: bool, user: Seq<char>, query: Seq<char>) -> Seq<char> {
    "Jobs"@ + (if filter_mine {
        " · (mine: "@ + user + ")"@
    } else {
        Seq::empty()
    }) + (if query.len() > 0 {
        " · \""@ + query + "\""@
    } else {
        Seq::empty()
    })
}

/// The jobs table's title for the filter and search shown.
pub fn jobs_title(filter_mine: bool, user: &str, query: &str) -> (r: String)
    ensures
        r@ == jobs_title_spec(filter_mine, user@, query@),
{
    let mut r = to_string("Jobs");
    if filter_mine {
        crate::text::push_str(&mut r, " · (mine: ");
        crate::text::push_str(&mut r, user);
        crate::text::push_str(&mut r, ")");
    }
    if chars_of(query).len() > 0 {
        crate::text::push_str(&mut r, " · \"");
        crate::text::push_str(&mut r, query);
        crate::text::push_str(&mut r, "\"");
    }
    proof {
        reveal_strlit("");
    }
    r
}

/// A field copy of a job.
pub fn copy_job(j: &Job) -> (r: Job)
    ensures
        r == *j,
{
    Job {
        job_id: j.job_id.clone(),
        name: j.name.clone(),
        user: j.user.clone(),
        state: j.state.clone(),
        partition: j.partition.clone(),
        nodes: j.nodes.clone(),
        num_nodes: j.num_nodes.clone(),
        num_cpus: j.num_cpus.clone(),
        time_used: j.time_used.clone(),
        time_limit: j.time_limit.clone(),
        reason: j.reason.clone(),
        nodelist: j.nodelist.clone(),
        qos: j.qos.clone(),
    }
}

/// Byte strings in lexicographic order, as a sign: -1 when `a` comes
/// first, 0 when they are equal, 1 when `b` comes first.
pub open spec fn bytes_sign(a: Seq<u8>, b: Seq<u8>) -> int
    decreases a.len(),
{
    if a.len() == 0 {
        if b.len() == 0 {
            0
        } else {
            -1
        }
    } else if b.len() == 0 {
        1
    } else if a[0] < b[0] {
        -1
    } else if a[0] > b[0] {
        1
    } else {
        bytes_sign(a.drop_first(), b.drop_first())
    }
}

/// The order a sign stands for.
pub open spec fn sign_order(sign: int) -> Ordering {
    if sign < 0 {
        Ordering::Less
    } else if sign == 0 {
        Ordering::Equal
    } else {
        Ordering::Greater
    }
}

/// Texts in the order `str` compares them: lexicographically by their UTF-8
/// bytes.
pub open spec fn text_order(a: Seq<char>, b: Seq<char>) -> Ordering {
    sign_order(bytes_sign(encode_utf8(a), encode_utf8(b)))
}

/// The length of the longest common prefix of two byte strings.
fn common_prefix(x: &[u8], y: &[u8]) -> (i: usize)
    ensures
        i <= x@.len(),
        i <= y@.len(),
        x@.take(i as int) == y@.take(i as int),
        i < x@.len() && i < y@.len() ==> x@[i as int] != y@[i as int],
{
    let mut i: usize = 0;
    while i < x.len() && i < y.len() && x[i] == y[i]
        invariant
            i <= x@.len(),
            i <= y@.len(),
            x@.take(i as int) == y@.take(i as int),
        decreases x@.len() - i,
    {
        assert(x@.take(i + 1) =~= x@.take(i as int).push(x@[i as int]));
        assert(y@.take(i + 1) =~= y@.take(i as int).push(y@[i as int]));
        i = i + 1;
    }
    i
}

/// Byte strings that agree on their first `i` bytes are ordered by what
/// follows.
proof fn lemma_bytes_order_skip(a: Seq<u8>, b: Seq<u8>, i: int)
    requires
        0 <= i <= a.len(),
        i <= b.len(),
        a.take(i) == b.take(i),
    ensures
        bytes_sign(a, b) == bytes_sign(a.skip(i), b.skip(i)),
    decreases i,
{
    if i > 0 {
        assert(a[0] == a.take(i)[0]);
        assert(b[0] == b.take(i)[0]);
        assert(a.drop_first().take(i - 1) =~= a.take(i).drop_first());
        assert(b.drop_first().take(i - 1) =~= b.take(i).drop_first());
        lemma_bytes_order_skip(a.drop_first(), b.drop_first(), i - 1);
        assert(a.drop_first().skip(i - 1) =~= a.skip(i));
        assert(b.drop_first().skip(i - 1) =~= b.skip(i));
    } else {
        assert(a.skip(0) =~= a);
        assert(b.skip(0) =~= b);
    }
}

/// Compare two strings by their bytes.
pub fn str_order(a: &str, b: &str) -> (r: Ordering)
    ensures
        r == text_order(a@, b@),
{
    let x = a.as_bytes();
    let y = b.as_bytes();
    let i = common_prefix(x, y);
    proof {
        lemma_prefix_split(x@, y@, i);
    }
    if i == x.len() {
        if i == y.len() {
            Ordering::Equal
        } else {
            Ordering::Less
        }
    } else if i == y.len() {
        Ordering::Greater
    } else if x[i] < y[i] {
        Ordering::Less
    } else {
        Ordering::Greater
    }
}

/// The order of two byte strings after a common prefix of length `i`.
proof fn lemma_prefix_split(a: Seq<u8>, b: Seq<u8>, i: usize)
    requires
        i <= a.len(),
        i <= b.len(),
        a.take(i as int) == b.take(i as int),
        i < a.len() && i < b.len() ==> a[i as int] != b[i as int],
    ensures
        bytes_sign(a, b) == if i == a.len() {
            if i == b.len() {
                0
            } else {
                -1
            }
        } else if i == b.len() {
            1
        } else if a[i as int] < b[i as int] {
            -1
        } else {
            1int
        },
{
    lemma_bytes_order_skip(a, b, i as int);
    if i < a.len() && i < b.len() {
        assert(a.skip(i as int)[0] == a[i as int]);
        assert(b.skip(i as int)[0] == b[i as int]);
    }
}

/// `first`, or `second` where `first` is a tie.
pub open spec fn then_order(first: Ordering, second: Ordering) -> Ordering {
    if first == Ordering::Equal {
        second
    } else {
        first
    }
}

/// The opposite order.
pub open spec fn reverse_order(o: Ordering) -> Ordering {
    match o {
        Ordering::Less => Ordering::Greater,
        Ordering::Equal => Ordering::Equal,
        Ordering::Greater => Ordering::Less,
    }
}

/// The sort priority of a job state, as an integer.
pub open spec fn state_rank(state: Seq<char>) -> int {
    state_order(state) as int
}

/// The default order: by state priority, then by numeric job id.
pub open spec fn key_order(a: Job, b: Job) -> Ordering {
    then_order(
        order_of(state_rank(a.state@), state_rank(b.state@)),
        order_of(job_number_int(a.job_id@), job_number_int(b.job_id@)),
    )
}

/// The order of a sort column: `STATE` by state text then numeric id,
/// `TIME` by used-time text, `CPUS` numerically, `QOS` by lowercased QOS then
/// the default order; any other column leaves jobs tied.
pub open spec fn order_by_column(col: Seq<char>, a: Job, b: Job) -> Ordering {
    if col == "STATE"@ {
        then_order(
            text_order(a.state@, b.state@),
            order_of(job_number_int(a.job_id@), job_number_int(b.job_id@)),
        )
    } else if col == "TIME"@ {
        text_order(a.time_used@, b.time_used@)
    } else if col == "CPUS"@ {
        order_of(int_value(a.num_cpus@), int_value(b.num_cpus@))
    } else if col == "QOS"@ {
        then_order(text_order(lowercase(a.qos@), lowercase(b.qos@)), key_order(a, b))
    } else {
        Ordering::Equal
    }
}

/// The CPU count of a decimal text is its number.
proof fn lemma_int_value_decimal(x: nat)
    requires
        x <= i64::MAX,
    ensures
        int_value(decimal_seq(x)) == x,
{
    crate::text::lemma_decimal_value(x);
    let s = decimal_seq(x);
    assert(crate::text::is_digit(s[0]));
}

/// Sorting by `CPUS` compares CPU counts as numbers, not as text: the job
/// that asks for fewer CPUs comes first (`4` before `16`), equal counts
/// tie, and reversing the sort puts the larger count first.
pub proof fn lemma_cpus_sort_is_numeric(col: Seq<char>, a: Job, b: Job, x: nat, y: nat)
    requires
        col == "CPUS"@,
        a.num_cpus@ == decimal_seq(x),
        b.num_cpus@ == decimal_seq(y),
        x <= i64::MAX,
        y <= i64::MAX,
    ensures
        (order_by_column(col, a, b) == Ordering::Less) == (x < y),
        (order_by_column(col, a, b) == Ordering::Equal) == (x == y),
        (order_by_column(col, a, b) == Ordering::Greater) == (x > y),
{
    reveal_strlit("CPUS");
    reveal_strlit("STATE");
    reveal_strlit("TIME");
    assert(col != "STATE"@ && col != "TIME"@) by {
        assert(col.len() != "STATE"@.len());
        assert(col[0] != "TIME"@[0]);
    }
    assert(order_by_column(col, a, b) == order_of(int_value(a.num_cpus@), int_value(b.num_cpus@)));
    lemma_int_value_decimal(x);
    lemma_int_value_decimal(y);
}

/// With `CPUS` as the sort column, the table order is the numeric order of
/// the CPU counts, and its reverse when reversed.
pub proof fn lemma_cpus_table_order(col: String, a: Job, b: Job, x: nat, y: nat)
    requires
        col@ == "CPUS"@,
        a.num_cpus@ == decimal_seq(x),
        b.num_cpus@ == decimal_seq(y),
        x <= i64::MAX,
        y <= i64::MAX,
    ensures
        x < y ==> job_order(Some(col), false, a, b) == Ordering::Less,
        x < y ==> job_order(Some(col), true, a, b) == Ordering::Greater,
        x == y ==> job_order(Some(col), false, a, b) == Ordering::Equal,
{
    lemma_cpus_sort_is_numeric(col@, a, b, x, y);
}

/// The order the jobs table uses: the default order without a sort column,
/// else the column's order, reversed on request.
pub open spec fn job_order(sort_col: Option<String>, reversed: bool, a: Job, b: Job) -> Ordering {
    match sort_col {
        None => key_order(a, b),
        Some(c) => if reversed {
            reverse_order(order_by_column(c@, a, b))
        } else {
            order_by_column(c@, a, b)
        },
    }
}

fn key_order_exec(a: &Job, b: &Job) -> (r: Ordering)
    ensures
        r == key_order(*a, *b),
{
    let ka = job_sort_key(a);
    let kb = job_sort_key(b);
    if ka.0 < kb.0 {
        Ordering::Less
    } else if ka.0 > kb.0 {
        Ordering::Greater
    } else if ka.1 < kb.1 {
        Ordering::Less
    } else if ka.1 > kb.1 {
        Ordering::Greater
    } else {
        Ordering::Equal
    }
}

fn then_exec(first: Ordering, second: Ordering) -> (r: Ordering)
    ensures
        r == then_order(first, second),
{
    match first {
        Ordering::Equal => second,
        _ => first,
    }
}

fn order_by_column_exec(col: &str, a: &Job, b: &Job) -> (r: Ordering)
    ensures
        r == order_by_column(col@, *a, *b),
{
    if str_eq(col, "STATE") {
        then_exec(str_order(a.state.as_str(), b.state.as_str()), job_id_cmp(a, b))
    } else if str_eq(col, "TIME") {
        str_order(a.time_used.as_str(), b.time_used.as_str())
    } else if str_eq(col, "CPUS") {
        safe_int_cmp(a.num_cpus.as_str(), b.num_cpus.as_str())
    } else if str_eq(col, "QOS") {
        let qa = to_lower(a.qos.as_str());
        let qb = to_lower(b.qos.as_str());
        then_exec(str_order(qa.as_str(), qb.as_str()), key_order_exec(a, b))
    } else {
        Ordering::Equal
    }
}

/// Compare two jobs as the jobs table orders them.
pub fn compare_jobs(sort_col: &Option<String>, reversed: bool, a: &Job, b: &Job) -> (r: Ordering)
    ensures
        r == job_order(*sort_col, reversed, *a, *b),
{
    match sort_col {
        None => key_order_exec(a, b),
        Some(c) => {
            let o = order_by_column_exec(c.as_str(), a, b);
            if reversed {
                match o {
                    Ordering::Less => Ordering::Greater,
                    Ordering::Equal => Ordering::Equal,
                    Ordering::Greater => Ordering::Less,
                }
            } else {
                o
            }
        },
    }
}

/// Whether the jobs table puts `a` strictly after `b`.
pub open spec fn sorts_after(sort_col: Option<String>, reversed: bool, a: Job, b: Job) -> bool {
    job_order(sort_col, reversed, a, b) == Ordering::Greater
}

/// Whether the jobs table puts `a` strictly after `b`.
fn job_sorts_after(sort_col: &Option<String>, reversed: bool, a: &Job, b: &Job) -> (r: bool)
    ensures
        r == sorts_after(*sort_col, reversed, *a, *b),
{
    match compare_jobs(sort_col, reversed, a, b) {
        Ordering::Greater => true,
        _ => false,
    }
}

/// `s` with `x` inserted after the last job that does not sort after it,
/// scanning from the end: one step of a stable insertion sort.
pub open spec fn insert_job(s: Seq<Job>, x: Job, sort_col: Option<String>, reversed: bool) -> Seq<
    Job,
>
    decreases s.len(),
{
    if s.len() == 0 {
        seq![x]
    } else if sorts_after(sort_col, reversed, s.last(), x) {
        insert_job(s.drop_last(), x, sort_col, reversed).push(s.last())
    } else {
        s.push(x)
    }
}

/// `s` in the jobs table order, ties kept in their input order (a stable
/// sort).
pub open spec fn sort_jobs(s: Seq<Job>, sort_col: Option<String>, reversed: bool) -> Seq<Job>
    decreases s.len(),
{
    if s.len() == 0 {
        s
    } else {
        insert_job(sort_jobs(s.drop_last(), sort_col, reversed), s.last(), sort_col, reversed)
    }
}

fn insert_job_exec(v: &mut Vec<Job>, x: Job, sort_col: &Option<String>, reversed: bool)
    ensures
        final(v)@ == insert_job(old(v)@, x, *sort_col, reversed),
{
    let ghost s = v@;
    let mut j: usize = v.len();
    assert(s.take(j as int) =~= s);
    assert(s.skip(j as int) =~= Seq::<Job>::empty());
    assert(insert_job(s, x, *sort_col, reversed) =~= insert_job(s.take(j as int), x, *sort_col, reversed) + s.skip(j as int));
    loop
        invariant
            v@ == s,
            j <= s.len(),
            insert_job(s, x, *sort_col, reversed) == insert_job(
                s.take(j as int),
                x,
                *sort_col,
                reversed,
            ) + s.skip(j as int),
        ensures
            v@ == s,
            j <= s.len(),
            insert_job(s, x, *sort_col, reversed) == insert_job(
                s.take(j as int),
                x,
                *sort_col,
                reversed,
            ) + s.skip(j as int),
            j == 0 || !sorts_after(*sort_col, reversed, s[j - 1], x),
        decreases j,
    {
        if j == 0 {
            break;
        }
        if job_sorts_after(sort_col, reversed, &v[j - 1], &x) {
            proof {
                assert(s.take(j as int).drop_last() =~= s.take(j - 1));
                assert(s.take(j as int).last() == s[j - 1]);
                assert(insert_job(s.take(j as int), x, *sort_col, reversed) == insert_job(
                    s.take(j - 1),
                    x,
                    *sort_col,
                    reversed,
                ).push(s[j - 1]));
                assert(s.skip(j - 1) =~= seq![s[j - 1]] + s.skip(j as int));
                assert(insert_job(s.take(j - 1), x, *sort_col, reversed).push(s[j - 1]) + s.skip(
                    j as int,
                ) =~= insert_job(s.take(j - 1), x, *sort_col, reversed) + s.skip(j - 1));
            }
            j = j - 1;
        } else {
            break;
        }
    }
    if j > 0 {
        assert(s.take(j as int).last() == s[j - 1]);
        assert(insert_job(s.take(j as int), x, *sort_col, reversed) == s.take(j as int).push(x));
    } else {
        assert(insert_job(s.take(0), x, *sort_col, reversed) == seq![x]);
    }
    v.insert(j, x);
    assert(v@ =~= insert_job(s, x, *sort_col, reversed));
}

/// Sort jobs stably in the jobs table order.
pub fn sort_jobs_exec(v: &Vec<Job>, sort_col: &Option<String>, reversed: bool) -> (r: Vec<Job>)
    ensures
        r@ == sort_jobs(v@, *sort_col, reversed),
{
    let mut r: Vec<Job> = Vec::new();
    let mut i: usize = 0;
    while i < v.len()
        invariant
            i <= v@.len(),
            r@ == sort_jobs(v@.take(i as int), *sort_col, reversed),
        decreases v@.len() - i,
    {
        assert(v@.take(i + 1).drop_last() =~= v@.take(i as int));
        insert_job_exec(&mut r, copy_job(&v[i]), sort_col, reversed);
        i = i + 1;
    }
    assert(v@.take(v@.len() as int) =~= v@);
    r
}


/// The jobs owned by `user`, in order.
pub open spec fn owned_by(jobs: Seq<Job>, user: Seq<char>) -> Seq<Job>
    decreases jobs.len(),
{
    if jobs.len() == 0 {
        Seq::empty()
    } else if jobs.last().user@ == user {
        owned_by(jobs.drop_last(), user).push(jobs.last())
    } else {
        owned_by(jobs.drop_last(), user)
    }
}

/// The jobs that match the search query `query`, in order.
pub open spec fn matching(jobs: Seq<Job>, query: Seq<char>) -> Seq<Job>
    decreases jobs.len(),
{
    if jobs.len() == 0 {
        Seq::empty()
    } else if job_matches_spec(jobs.last(), query) {
        matching(jobs.drop_last(), query).push(jobs.last())
    } else {
        matching(jobs.drop_last(), query)
    }
}

/// The filter pipeline: the jobs of `user` when `filter_mine`, then those
/// matching the lowercased search query when there is one, then sorted.
pub open spec fn filtered_spec(
    jobs: Seq<Job>,
    filter_mine: bool,
    user: Seq<char>,
    search: Seq<char>,
    sort_col: Option<String>,
    reversed: bool,
) -> Seq<Job> {
    let mine = if filter_mine {
        owned_by(jobs, user)
    } else {
        jobs
    };
    let found = if search.len() == 0 {
        mine
    } else {
        matching(mine, lowercase(search))
    };
    sort_jobs(found, sort_col, reversed)
}

fn keep_owned(jobs: &[Job], user: &str) -> (r: Vec<Job>)
    ensures
        r@ == owned_by(jobs@, user@),
{
    let mut r: Vec<Job> = Vec::new();
    let mut i: usize = 0;
    while i < jobs.len()
        invariant
            i <= jobs@.len(),
            r@ == owned_by(jobs@.take(i as int), user@),
        decreases jobs@.len() - i,
    {
        assert(jobs@.take(i + 1).drop_last() =~= jobs@.take(i as int));
        if str_eq(jobs[i].user.as_str(), user) {
            r.push(copy_job(&jobs[i]));
        }
        i = i + 1;
    }
    assert(jobs@.take(jobs@.len() as int) =~= jobs@);
    r
}

fn keep_matching(jobs: &Vec<Job>, query: &str) -> (r: Vec<Job>)
    ensures
        r@ == matching(jobs@, query@),
{
    let mut r: Vec<Job> = Vec::new();
    let mut i: usize = 0;
    while i < jobs.len()
        invariant
            i <= jobs@.len(),
            r@ == matching(jobs@.take(i as int), query@),
        decreases jobs@.len() - i,
    {
        assert(jobs@.take(i + 1).drop_last() =~= jobs@.take(i as int));
        if job_matches_search(&jobs[i], query) {
            r.push(copy_job(&jobs[i]));
        }
        i = i + 1;
    }
    assert(jobs@.take(jobs@.len() as int) =~= jobs@);
    r
}

fn copy_all(jobs: &[Job]) -> (r: Vec<Job>)
    ensures
        r@ == jobs@,
{
    let mut r: Vec<Job> = Vec::new();
    let mut i: usize = 0;
    while i < jobs.len()
        invariant
            i <= jobs@.len(),
            r@ == jobs@.take(i as int),
        decreases jobs@.len() - i,
    {
        r.push(copy_job(&jobs[i]));
        assert(r@ =~= jobs@.take(i + 1));
        i = i + 1;
    }
    assert(jobs@.take(jobs@.len() as int) =~= jobs@);
    r
}

/// A copy of a list of strings.
fn copy_strings(v: &Vec<String>) -> (r: Vec<String>)
    ensures
        r@ == v@,
{
    let mut r: Vec<String> = Vec::new();
    let mut i: usize = 0;
    while i < v.len()
        invariant
            i <= v@.len(),
            r@ == v@.take(i as int),
        decreases v@.len() - i,
    {
        r.push(v[i].clone());
        assert(r@ =~= v@.take(i + 1));
        i = i + 1;
    }
    assert(v@.take(v@.len() as int) =~= v@);
    r
}

/// The names of the columns that have a width, in column order.
pub open spec fn visible_names(order: Seq<String>, widths: Seq<(Seq<char>, u16)>) -> Seq<String>
    decreases order.len(),
{
    if order.len() == 0 {
        Seq::empty()
    } else if lookup_entry(widths, order.last()@) is Some {
        visible_names(order.drop_last(), widths).push(order.last())
    } else {
        visible_names(order.drop_last(), widths)
    }
}

/// The position of the first name equal to `x`, if any.
pub open spec fn name_position(order: Seq<String>, x: Seq<char>) -> Option<int> {
    position_of(names(order), x)
}

/// Jobs view state.
#[derive(Debug, Clone)]
pub struct JobsView {
    /// Filter: show only jobs owned by the current user.
    pub filter_mine: bool,
    /// Search query (case-insensitive substring match).
    pub search_query: String,
    /// Whether search input is active (the user is typing).
    pub search_input_active: bool,
    /// Sort column name, or none for the default state-priority sort.
    pub sort_col: Option<String>,
    /// Reverse sort order.
    pub sort_reversed: bool,
    /// Column order (saved user preference).
    pub column_order: Vec<String>,
    /// Current column widths, by column name.
    pub column_widths: StrMap<u16>,
    /// Reorder target column index (in visible-column space).
    pub reorder_target_idx: usize,
    /// Table cursor state.
    pub table_state: CyclicTableState,
    /// Visual selection state.
    pub visual_selection: VisualSelection,
    /// Last filtered and sorted jobs (for row lookups).
    pub last_jobs: Vec<Job>,
    /// Last unfiltered jobs.
    pub last_jobs_raw: Vec<Job>,
    /// Settings change to persist, set by view actions and taken by the app.
    pub pending_config_update: Option<ConfigUpdate>,
}

/// The job rows of two views agree: the job lists, cursor and selection.
pub open spec fn same_rows(a: JobsView, b: JobsView) -> bool {
    &&& a.last_jobs@ == b.last_jobs@
    &&& a.last_jobs_raw@ == b.last_jobs_raw@
    &&& a.table_state@ == b.table_state@
    &&& a.visual_selection@ == b.visual_selection@
}

/// The filters of two views agree: mine, search and sort.
pub open spec fn same_filters(a: JobsView, b: JobsView) -> bool {
    &&& a.filter_mine == b.filter_mine
    &&& a.search_query@ == b.search_query@
    &&& a.search_input_active == b.search_input_active
    &&& a.sort_col == b.sort_col
    &&& a.sort_reversed == b.sort_reversed
}

/// The column layouts of two views agree.
pub open spec fn same_columns(a: JobsView, b: JobsView) -> bool {
    &&& a.column_order@ == b.column_order@
    &&& a.column_widths.entries() == b.column_widths.entries()
    &&& a.reorder_target_idx == b.reorder_target_idx
}

/// Two views agree in everything.
pub open spec fn same_view(a: JobsView, b: JobsView) -> bool {
    &&& same_rows(a, b)
    &&& same_filters(a, b)
    &&& same_columns(a, b)
    &&& a.pending() == b.pending()
}

/// The jobs a view shows for raw jobs `jobs` and user `user`.
pub open spec fn shown_for(v: JobsView, jobs: Seq<Job>, user: Seq<char>) -> Seq<Job> {
    filtered_spec(jobs, v.filter_mine, user, v.search_query@, v.sort_col, v.sort_reversed)
}

/// The job under the cursor, if any.
pub open spec fn selected_spec(v: JobsView) -> Option<Job> {
    match v.table_state@.0 {
        Some(i) => if i < v.last_jobs@.len() {
            Some(v.last_jobs@[i as int])
        } else {
            None
        },
        None => None,
    }
}

impl Default for JobsView {
    fn default() -> (v: Self)
        ensures
            v.is_initial(),
    {
        Self::new()
    }
}

impl JobsView {
    /// The settings change waiting to be persisted.
    pub open spec fn pending(&self) -> Option<ConfigUpdate> {
        self.pending_config_update
    }

    /// The state of a new view: no filter, search or sort, no columns, no
    /// jobs, no cursor, no selection, nothing to persist.
    pub open spec fn is_initial(&self) -> bool {
        &&& !self.filter_mine
        &&& self.search_query@ == Seq::<char>::empty()
        &&& !self.search_input_active
        &&& self.sort_col is None
        &&& !self.sort_reversed
        &&& self.column_order@.len() == 0
        &&& self.column_widths.entries().len() == 0
        &&& self.reorder_target_idx == 0
        &&& self.table_state@ == (None::<usize>, 0usize)
        &&& self.visual_selection@ == (false, None::<usize>, None::<usize>)
        &&& self.last_jobs@.len() == 0
        &&& self.last_jobs_raw@.len() == 0
        &&& self.pending() is None
    }

    /// Create a new jobs view with default state.
    pub fn new() -> (v: Self)
        ensures
            v.is_initial(),
    {
        JobsView {
            filter_mine: false,
            search_query: String::new(),
            search_input_active: false,
            sort_col: None,
            sort_reversed: false,
            column_order: Vec::new(),
            column_widths: StrMap::new(),
            reorder_target_idx: 0,
            table_state: CyclicTableState::new(),
            visual_selection: VisualSelection::new(),
            last_jobs: Vec::new(),
            last_jobs_raw: Vec::new(),
            pending_config_update: None,
        }
    }

    /// A new view with the saved sort and column order: the sort column when
    /// one is saved, its direction, and the saved column order.
    pub fn from_config(view_state: &ViewStateConfig, columns: &ColumnsConfig) -> (v: Self)
        ensures
            view_state.jobs_sort_col@.len() == 0 ==> v.sort_col is None,
            view_state.jobs_sort_col@.len() > 0 ==> v.sort_col == Some(view_state.jobs_sort_col),
            v.sort_reversed == view_state.jobs_sort_reversed,
            v.column_order@ == columns.jobs_order@,
            !v.filter_mine,
            v.search_query@ == Seq::<char>::empty(),
            !v.search_input_active,
            v.column_widths.entries().len() == 0,
            v.reorder_target_idx == 0,
            v.table_state@ == (None::<usize>, 0usize),
            v.visual_selection@ == (false, None::<usize>, None::<usize>),
            v.last_jobs@.len() == 0,
            v.last_jobs_raw@.len() == 0,
            v.pending() is None,
    {
        let mut view = Self::new();
        if !view_state.jobs_sort_col.as_str().is_empty() {
            view.sort_col = Some(view_state.jobs_sort_col.clone());
        }
        view.sort_reversed = view_state.jobs_sort_reversed;
        if columns.jobs_order.len() != 0 {
            view.column_order = copy_strings(&columns.jobs_order);
        }
        view
    }

    /// Take the pending settings change, leaving none.
    pub fn take_pending_config_update(&mut self) -> (r: Option<ConfigUpdate>)
        ensures
            r == old(self).pending(),
            final(self).pending() is None,
            same_rows(*old(self), *final(self)),
            same_filters(*old(self), *final(self)),
            same_columns(*old(self), *final(self)),
    {
        self.pending_config_update.take()
    }

    /// Toggle the "mine" filter.
    pub fn toggle_filter_mine(&mut self)
        ensures
            final(self).filter_mine == !old(self).filter_mine,
            final(self).search_query@ == old(self).search_query@,
            final(self).search_input_active == old(self).search_input_active,
            final(self).sort_col == old(self).sort_col,
            final(self).sort_reversed == old(self).sort_reversed,
            same_rows(*old(self), *final(self)),
            same_columns(*old(self), *final(self)),
            final(self).pending() == old(self).pending(),
    {
        self.filter_mine = !self.filter_mine;
    }

    /// Set the search query.
    pub fn set_search_query(&mut self, query: String)
        ensures
            final(self).search_query@ == query@,
            final(self).filter_mine == old(self).filter_mine,
            final(self).search_input_active == old(self).search_input_active,
            final(self).sort_col == old(self).sort_col,
            final(self).sort_reversed == old(self).sort_reversed,
            same_rows(*old(self), *final(self)),
            same_columns(*old(self), *final(self)),
            final(self).pending() == old(self).pending(),
    {
        self.search_query = query;
    }

    /// Clear the search query.
    pub fn clear_search(&mut self)
        ensures
            final(self).search_query@ == Seq::<char>::empty(),
            final(self).filter_mine == old(self).filter_mine,
            final(self).search_input_active == old(self).search_input_active,
            final(self).sort_col == old(self).sort_col,
            final(self).sort_reversed == old(self).sort_reversed,
            same_rows(*old(self), *final(self)),
            same_columns(*old(self), *final(self)),
            final(self).pending() == old(self).pending(),
    {
        self.search_query = String::new();
    }

    /// Apply the filter pipeline: mine, then search, then sort.
    pub fn apply_filters(&self, jobs: &[Job], current_user: &str) -> (r: Vec<Job>)
        ensures
            r@ == shown_for(*self, jobs@, current_user@),
    {
        let mine = if self.filter_mine {
            keep_owned(jobs, current_user)
        } else {
            copy_all(jobs)
        };
        let found = if !self.search_query.as_str().is_empty() {
            let q = to_lower(self.search_query.as_str());
            keep_matching(&mine, q.as_str())
        } else {
            mine
        };
        sort_jobs_exec(&found, &self.sort_col, self.sort_reversed)
    }

    /// Toggle sort by `column`: the same column again flips the direction, a
    /// new one sorts ascending by it. The new sort is queued for saving.
    pub fn toggle_sort(&mut self, column: &str)
        ensures
            sort_toggled(*old(self), *final(self), column@),
    {
        let same = match &self.sort_col {
            Some(c) => str_eq(c.as_str(), column),
            None => false,
        };
        if same {
            self.sort_reversed = !self.sort_reversed;
        } else {
            self.sort_col = Some(to_string(column));
            self.sort_reversed = false;
        }
        self.pending_config_update = Some(
            ConfigUpdate::JobsSort { sort_col: to_string(column), reversed: self.sort_reversed },
        );
    }

    /// Clear sort (revert to the default state-priority sort); the cleared
    /// sort is queued for saving.
    pub fn clear_sort(&mut self)
        ensures
            sort_cleared(*old(self), *final(self)),
    {
        self.sort_col = None;
        self.sort_reversed = false;
        self.pending_config_update = Some(
            ConfigUpdate::JobsSort { sort_col: String::new(), reversed: false },
        );
    }

    /// Cycle the reorder target to the next visible column (wraps).
    pub fn cycle_reorder_target(&mut self)
        requires
            old(self).reorder_target_idx < usize::MAX,
        ensures
            target_cycled(*old(self), *final(self)),
    {
        let visible_count = self.column_widths.len();
        if visible_count > 0 {
            self.reorder_target_idx = (self.reorder_target_idx + 1) % visible_count;
        }
    }

    /// The names of the visible columns (those with a width), in column order.
    pub fn visible_column_names(&self) -> (r: Vec<String>)
        ensures
            r@ == visible_names(self.column_order@, self.column_widths.entries()),
    {
        let mut r: Vec<String> = Vec::new();
        let mut i: usize = 0;
        while i < self.column_order.len()
            invariant
                i <= self.column_order@.len(),
                r@ == visible_names(self.column_order@.take(i as int), self.column_widths.entries()),
            decreases self.column_order@.len() - i,
        {
            assert(self.column_order@.take(i + 1).drop_last() =~= self.column_order@.take(i as int));
            if self.column_widths.contains_key(self.column_order[i].as_str()) {
                r.push(self.column_order[i].clone());
            }
            i = i + 1;
        }
        assert(self.column_order@.take(self.column_order@.len() as int) =~= self.column_order@);
        r
    }

    /// Shift the targeted column left in the column order, and the target
    /// with it; the new order is queued for saving.
    pub fn shift_column_left(&mut self)
        ensures
            shifted_left(*old(self), *final(self)),
    {
        let visible = self.visible_column_names();
        if visible.len() == 0 || self.reorder_target_idx >= visible.len() {
            return;
        }
        let target = visible[self.reorder_target_idx].clone();
        match find_name(&self.column_order, target.as_str()) {
            Some(idx) => {
                if idx > 0 {
                    let before = self.column_order[idx - 1].clone();
                    self.column_order = move_in_order(
                        self.column_order.as_slice(),
                        target.as_str(),
                        Some(before.as_str()),
                    );
                    if self.reorder_target_idx > 0 {
                        self.reorder_target_idx = self.reorder_target_idx - 1;
                    }
                    self.pending_config_update = Some(
                        ConfigUpdate::JobsOrder(copy_strings(&self.column_order)),
                    );
                }
            },
            None => {},
        }
    }

    /// Shift the targeted column right in the column order, and the target
    /// with it (up to the last visible column); the new order is queued for
    /// saving.
    pub fn shift_column_right(&mut self)
        ensures
            shifted_right(*old(self), *final(self)),
    {
        let visible = self.visible_column_names();
        if visible.len() == 0 || self.reorder_target_idx >= visible.len() {
            return;
        }
        let target = visible[self.reorder_target_idx].clone();
        match find_name(&self.column_order, target.as_str()) {
            Some(idx) => {
                if idx < self.column_order.len() - 1 {
                    let new_order = if idx + 2 < self.column_order.len() {
                        let before = self.column_order[idx + 2].clone();
                        move_in_order(
                            self.column_order.as_slice(),
                            target.as_str(),
                            Some(before.as_str()),
                        )
                    } else {
                        move_in_order(self.column_order.as_slice(), target.as_str(), None)
                    };
                    self.column_order = new_order;
                    let next = self.reorder_target_idx + 1;
                    self.reorder_target_idx = if next < visible.len() - 1 {
                        next
                    } else {
                        visible.len() - 1
                    };
                    self.pending_config_update = Some(
                        ConfigUpdate::JobsOrder(copy_strings(&self.column_order)),
                    );
                }
            },
            None => {},
        }
    }

    /// Replace the jobs with `jobs` and re-run the filters; the row count
    /// follows. Returns the cursor state captured before.
    pub fn update(&mut self, jobs: Vec<Job>, current_user: &str) -> (r: CapturedState)
        ensures
            updated(*old(self), *final(self), jobs@, current_user@, r),
    {
        let state = self.capture_state();
        self.last_jobs_raw = jobs;
        let shown = self.apply_filters(self.last_jobs_raw.as_slice(), current_user);
        self.last_jobs = shown;
        self.table_state.set_row_count(self.last_jobs.len());
        state
    }

    /// Put the cursor back on the anchored job when it is still shown (its
    /// first row); otherwise leave the cursor where it is.
    pub fn restore_state(&mut self, state: CapturedState)
        ensures
            restored(*old(self), *final(self), state),
    {
        let ids = ids_of(&self.last_jobs);
        let captured = CapturedTableState::new(state.anchor, 0);
        match captured.restore(&ids) {
            Some(idx) => self.table_state.select(Some(idx)),
            None => {},
        }
    }

    /// The cursor state to restore after an update: the id of the job under
    /// the cursor.
    pub fn capture_state(&self) -> (r: CapturedState)
        ensures
            anchors(r, selected_spec(*self)),
    {
        match self.selected_job() {
            Some(j) => CapturedState { anchor: Some(j.job_id.clone()) },
            None => CapturedState { anchor: None },
        }
    }

    /// The job under the cursor, if any.
    pub fn selected_job(&self) -> (r: Option<&Job>)
        ensures
            match r {
                Some(j) => selected_spec(*self) == Some(*j),
                None => selected_spec(*self) is None,
            },
    {
        match self.table_state.selected() {
            Some(idx) => if idx < self.last_jobs.len() {
                Some(&self.last_jobs[idx])
            } else {
                None
            },
            None => None,
        }
    }

    /// Move the cursor to the next row (wrapping).
    pub fn cursor_next(&mut self)
        ensures
            final(self).table_state@ == next_state(old(self).table_state@),
            final(self).last_jobs@ == old(self).last_jobs@,
            final(self).last_jobs_raw@ == old(self).last_jobs_raw@,
            final(self).visual_selection@ == old(self).visual_selection@,
            same_filters(*old(self), *final(self)),
            same_columns(*old(self), *final(self)),
            final(self).pending() == old(self).pending(),
    {
        self.table_state.next();
    }

    /// Move the cursor to the previous row (wrapping).
    pub fn cursor_prev(&mut self)
        ensures
            final(self).table_state@ == prev_state(old(self).table_state@),
            final(self).last_jobs@ == old(self).last_jobs@,
            final(self).last_jobs_raw@ == old(self).last_jobs_raw@,
            final(self).visual_selection@ == old(self).visual_selection@,
            same_filters(*old(self), *final(self)),
            same_columns(*old(self), *final(self)),
            final(self).pending() == old(self).pending(),
    {
        self.table_state.prev();
    }

    /// The cursor row, or 0 without a cursor.
    pub fn cursor_row(&self) -> (r: usize)
        ensures
            r == match self.table_state@.0 {
                Some(i) => i,
                None => 0,
            },
    {
        match self.table_state.selected() {
            Some(i) => i,
            None => 0,
        }
    }

    /// For each shown job, the first job of `jobs` with its id (shown jobs
    /// with no such job are left out).
    pub fn filtered_jobs<'a>(&self, jobs: &'a [Job]) -> (r: Vec<&'a Job>)
        ensures
            derefs(r@) == rematched(self.last_jobs@, jobs@),
    {
        let ids = ids_of_slice(jobs);
        let mut r: Vec<&'a Job> = Vec::new();
        let mut i: usize = 0;
        while i < self.last_jobs.len()
            invariant
                i <= self.last_jobs@.len(),
                ids.deep_view() == job_ids(jobs@),
                derefs(r@) == rematched(self.last_jobs@.take(i as int), jobs@),
            decreases self.last_jobs@.len() - i,
        {
            assert(self.last_jobs@.take(i + 1).drop_last() =~= self.last_jobs@.take(i as int));
            let captured = CapturedTableState::new(Some(self.last_jobs[i].job_id.clone()), 0);
            match captured.restore(&ids) {
                Some(k) => {
                    proof {
                        lemma_first_key_in_range(ids.deep_view(), self.last_jobs@[i as int].job_id@);
                    }
                    let ghost before = r@;
                    r.push(&jobs[k]);
                    assert(derefs(r@) =~= derefs(before).push(jobs@[k as int]));
                },
                None => {},
            }
            i = i + 1;
        }
        assert(self.last_jobs@.take(self.last_jobs@.len() as int) =~= self.last_jobs@);
        r
    }

    /// The jobs in the visual selection, in row order (rows past the end are
    /// left out).
    pub fn selected_jobs(&self) -> (r: Vec<&Job>)
        ensures
            derefs(r@) == selected_rows(self.visual_selection@, self.last_jobs@),
    {
        let mut r: Vec<&Job> = Vec::new();
        match self.visual_selection.range() {
            Some((lo, hi)) => {
                let n = self.last_jobs.len();
                if lo < n {
                    let end = if hi < n - 1 {
                        hi
                    } else {
                        n - 1
                    };
                    let mut i: usize = lo;
                    while i <= end
                        invariant
                            lo <= i <= end + 1,
                            end < n,
                            n == self.last_jobs@.len(),
                            derefs(r@) == self.last_jobs@.subrange(lo as int, i as int),
                        decreases end + 1 - i,
                    {
                        let ghost before = r@;
                        r.push(&self.last_jobs[i]);
                        assert(derefs(r@) =~= derefs(before).push(self.last_jobs@[i as int]));
                        assert(self.last_jobs@.subrange(lo as int, i + 1) =~= self.last_jobs@.subrange(
                            lo as int,
                            i as int,
                        ).push(self.last_jobs@[i as int]));
                        i = i + 1;
                    }
                }
                assert(derefs(r@) =~= selected_rows(self.visual_selection@, self.last_jobs@));
                r
            },
            None => {
                assert(derefs(r@) =~= Seq::<Job>::empty());
                r
            },
        }
    }

    /// The number of selected rows.
    pub fn selection_count(&self) -> (r: usize)
        ensures
            r == selection_set(self.visual_selection@).len(),
    {
        self.visual_selection.rows().len()
    }

    /// Handle a key press; returns whether the view used it.
    pub fn handle_key(&mut self, key: KeyPress) -> (handled: bool)
        requires
            old(self).reorder_target_idx < usize::MAX,
        ensures
            key_handled(*old(self), *final(self), key, handled),
    {
        let none = !key.shift && !(key.control || key.alt);
        if self.search_input_active {
            match key.key {
                Key::Char(c) => {
                    if !(key.control || key.alt) {
                        self.search_query.push(c);
                        return true;
                    }
                    return false;
                },
                Key::Backspace => {
                    if none {
                        let v = chars_of(self.search_query.as_str());
                        if v.len() > 0 {
                            self.search_query = string_from_range(&v, 0, v.len() - 1);
                            assert(self.search_query@ =~= v@.drop_last());
                        }
                        return true;
                    }
                    return false;
                },
                Key::Enter => {
                    return none;
                },
                Key::Esc => {
                    if none {
                        self.search_input_active = false;
                        self.clear_search();
                        return true;
                    }
                    return false;
                },
                _ => {
                    return false;
                },
            }
        }
        if self.visual_selection.is_active() && none {
            let down = match key.key {
                Key::Down => true,
                Key::Char(c) => c == 'j',
                _ => false,
            };
            let up = match key.key {
                Key::Up => true,
                Key::Char(c) => c == 'k',
                _ => false,
            };
            match key.key {
                Key::Esc => {
                    self.visual_selection.exit();
                    return true;
                },
                Key::Char('y') => {
                    return true;
                },
                _ => {},
            }
            if down || up {
                let cursor_row = match self.table_state.selected() {
                    Some(i) => i,
                    None => 0,
                };
                let delta: i64 = if down {
                    1
                } else {
                    -1
                };
                self.visual_selection.move_cursor(delta, self.last_jobs.len(), cursor_row);
                match self.visual_selection.cursor() {
                    Some(vc) => self.table_state.select(Some(vc)),
                    None => {},
                }
                return true;
            }
        }
        if none {
            match key.key {
                Key::Down => {
                    self.cursor_next();
                    return true;
                },
                Key::Up => {
                    self.cursor_prev();
                    return true;
                },
                Key::Char(c) => {
                    if c == 'j' {
                        self.cursor_next();
                        return true;
                    } else if c == 'k' {
                        self.cursor_prev();
                        return true;
                    } else if c == 'm' {
                        self.toggle_filter_mine();
                        return true;
                    } else if c == '/' {
                        self.search_input_active = true;
                        return true;
                    } else if c == 'v' || c == 'V' {
                        match self.table_state.selected() {
                            Some(row) => self.visual_selection.enter(row),
                            None => {},
                        }
                        return true;
                    } else if c == 's' {
                        self.toggle_sort("STATE");
                        return true;
                    } else if c == '.' {
                        self.cycle_reorder_target();
                        return true;
                    } else if c == '[' {
                        self.shift_column_left();
                        return true;
                    } else if c == ']' {
                        self.shift_column_right();
                        return true;
                    }
                    return false;
                },
                _ => {
                    return false;
                },
            }
        }
        if key.shift && !(key.control || key.alt) {
            match key.key {
                Key::Char(c) => {
                    if c == 'S' {
                        self.clear_sort();
                        return true;
                    }
                },
                _ => {},
            }
        }
        false
    }
}

/// Everything but the cursor agrees.
pub open spec fn same_but_cursor(a: JobsView, b: JobsView) -> bool {
    &&& a.last_jobs@ == b.last_jobs@
    &&& a.last_jobs_raw@ == b.last_jobs_raw@
    &&& a.visual_selection@ == b.visual_selection@
    &&& same_filters(a, b)
    &&& same_columns(a, b)
    &&& a.pending() == b.pending()
}

/// Everything but the visual selection and the cursor agrees.
pub open spec fn same_but_selection(a: JobsView, b: JobsView) -> bool {
    &&& a.last_jobs@ == b.last_jobs@
    &&& a.last_jobs_raw@ == b.last_jobs_raw@
    &&& same_filters(a, b)
    &&& same_columns(a, b)
    &&& a.pending() == b.pending()
}

/// Everything but the search query and the search input flag agrees.
pub open spec fn same_but_search(a: JobsView, b: JobsView) -> bool {
    &&& same_rows(a, b)
    &&& same_columns(a, b)
    &&& a.filter_mine == b.filter_mine
    &&& a.sort_col == b.sort_col
    &&& a.sort_reversed == b.sort_reversed
    &&& a.pending() == b.pending()
}

/// Whether a key is pressed without modifiers.
pub open spec fn plain(k: KeyPress) -> bool {
    !k.shift && !(k.control || k.alt)
}

/// Whether a key moves down (Down or `j`) or up (Up or `k`).
pub open spec fn is_down(k: Key) -> bool {
    k == Key::Down || k == Key::Char('j')
}

/// Whether a key moves up (Up or `k`).
pub open spec fn is_up(k: Key) -> bool {
    k == Key::Up || k == Key::Char('k')
}

/// Whether a key has a meaning in visual mode: Esc, `y`, or a move.
pub open spec fn visual_key(k: KeyPress) -> bool {
    plain(k) && (k.key == Key::Esc || k.key == Key::Char('y') || is_down(k.key) || is_up(k.key))
}

/// A key while the search input is active: characters (with or without
/// Shift) extend the query, Backspace drops its last character, Enter keeps
/// it, Esc clears it and leaves the input; other keys are not handled.
pub open spec fn search_key_handled(a: JobsView, b: JobsView, key: KeyPress, handled: bool) -> bool {
    match key.key {
        Key::Char(c) if !(key.control || key.alt) => {
            &&& handled
            &&& b.search_query@ == a.search_query@.push(c)
            &&& b.search_input_active == a.search_input_active
            &&& same_but_search(a, b)
        },
        Key::Backspace if plain(key) => {
            &&& handled
            &&& b.search_query@ == if a.search_query@.len() == 0 {
                a.search_query@
            } else {
                a.search_query@.drop_last()
            }
            &&& b.search_input_active == a.search_input_active
            &&& same_but_search(a, b)
        },
        Key::Enter if plain(key) => handled && same_view(a, b),
        Key::Esc if plain(key) => {
            &&& handled
            &&& !b.search_input_active
            &&& b.search_query@ == Seq::<char>::empty()
            &&& same_but_search(a, b)
        },
        _ => !handled && same_view(a, b),
    }
}

/// The cursor after the visual cursor moved: on the visual cursor's row.
pub open spec fn follows_visual(
    t: (Option<usize>, usize),
    v: (bool, Option<usize>, Option<usize>),
) -> (Option<usize>, usize) {
    match v.2 {
        Some(c) => (Some(c), t.1),
        None => t,
    }
}

/// A visual-mode key: Esc leaves visual mode, `y` is acknowledged (the app
/// copies), moves extend the selection and the cursor follows.
pub open spec fn visual_key_handled(a: JobsView, b: JobsView, key: KeyPress) -> bool {
    let row = match a.table_state@.0 {
        Some(i) => i,
        None => 0,
    };
    if key.key == Key::Esc {
        &&& b.visual_selection@ == (false, None::<usize>, None::<usize>)
        &&& b.table_state@ == a.table_state@
        &&& same_but_selection(a, b)
    } else if key.key == Key::Char('y') {
        same_view(a, b)
    } else {
        let delta: i64 = if is_down(key.key) {
            1i64
        } else {
            -1i64
        };
        let v = moved_selection(a.visual_selection@, delta, a.last_jobs@.len() as usize, row);
        &&& b.visual_selection@ == v
        &&& b.table_state@ == follows_visual(a.table_state@, v)
        &&& same_but_selection(a, b)
    }
}

/// A key outside search input and visual mode: moves, `m` (mine), `/`
/// (search input), `v`/`V` (visual mode at the cursor), `s` (sort by
/// `state`), Shift+`S` (clear sort), `.` (next reorder target), `[` and `]`
/// (shift the target column); anything else is not handled.
pub open spec fn normal_key_handled(a: JobsView, b: JobsView, key: KeyPress, handled: bool) -> bool {
    let k = key.key;
    if plain(key) && is_down(k) {
        handled && b.table_state@ == next_state(a.table_state@) && same_but_cursor(a, b)
    } else if plain(key) && is_up(k) {
        handled && b.table_state@ == prev_state(a.table_state@) && same_but_cursor(a, b)
    } else if plain(key) && k == Key::Char('m') {
        &&& handled
        &&& b.filter_mine == !a.filter_mine
        &&& b.search_query@ == a.search_query@
        &&& b.search_input_active == a.search_input_active
        &&& b.sort_col == a.sort_col
        &&& b.sort_reversed == a.sort_reversed
        &&& same_rows(a, b)
        &&& same_columns(a, b)
        &&& b.pending() == a.pending()
    } else if plain(key) && k == Key::Char('/') {
        &&& handled
        &&& b.search_input_active
        &&& b.search_query@ == a.search_query@
        &&& same_but_search(a, b)
    } else if plain(key) && (k == Key::Char('v') || k == Key::Char('V')) {
        &&& handled
        &&& b.visual_selection@ == match a.table_state@.0 {
            Some(r) => (true, Some(r), Some(r)),
            None => a.visual_selection@,
        }
        &&& b.table_state@ == a.table_state@
        &&& same_but_selection(a, b)
    } else if plain(key) && k == Key::Char('s') {
        handled && sort_toggled(a, b, "STATE"@)
    } else if key.shift && !(key.control || key.alt) && k == Key::Char('S') {
        handled && sort_cleared(a, b)
    } else if plain(key) && k == Key::Char('.') {
        handled && target_cycled(a, b)
    } else if plain(key) && k == Key::Char('[') {
        handled && shifted_left(a, b)
    } else if plain(key) && k == Key::Char(']') {
        handled && shifted_right(a, b)
    } else {
        !handled && same_view(a, b)
    }
}

/// What `handle_key` does: search input keys first, then visual-mode keys,
/// then the normal keys.
pub open spec fn key_handled(a: JobsView, b: JobsView, key: KeyPress, handled: bool) -> bool {
    if a.search_input_active {
        search_key_handled(a, b, key, handled)
    } else if a.visual_selection@.0 && visual_key(key) {
        handled && visual_key_handled(a, b, key)
    } else {
        normal_key_handled(a, b, key, handled)
    }
}

/// The sort after `toggle_sort(column)`: the direction flips on the same
/// column, a new column sorts ascending; the new sort is pending for saving.
pub open spec fn sort_toggled(a: JobsView, b: JobsView, column: Seq<char>) -> bool {
    let same = a.sort_col matches Some(c) && c@ == column;
    &&& if same {
        b.sort_col == a.sort_col && b.sort_reversed == !a.sort_reversed
    } else {
        b.sort_col matches Some(c) && c@ == column && !b.sort_reversed
    }
    &&& b.pending() matches Some(ConfigUpdate::JobsSort { sort_col, reversed }) && sort_col@ == column
        && reversed == b.sort_reversed
    &&& b.filter_mine == a.filter_mine
    &&& b.search_query@ == a.search_query@
    &&& b.search_input_active == a.search_input_active
    &&& same_rows(a, b)
    &&& same_columns(a, b)
}

/// The sort after `clear_sort`: none, and that is pending for saving.
pub open spec fn sort_cleared(a: JobsView, b: JobsView) -> bool {
    &&& b.sort_col is None
    &&& !b.sort_reversed
    &&& b.pending() matches Some(ConfigUpdate::JobsSort { sort_col, reversed }) && sort_col@.len()
        == 0 && !reversed
    &&& b.filter_mine == a.filter_mine
    &&& b.search_query@ == a.search_query@
    &&& b.search_input_active == a.search_input_active
    &&& same_rows(a, b)
    &&& same_columns(a, b)
}

/// The reorder target after `cycle_reorder_target`: the next of the columns
/// with a width, wrapping; unchanged when there are none.
pub open spec fn target_cycled(a: JobsView, b: JobsView) -> bool {
    let n = a.column_widths.entries().len();
    &&& b.reorder_target_idx == if n > 0 {
        ((a.reorder_target_idx + 1) % (n as int)) as usize
    } else {
        a.reorder_target_idx
    }
    &&& b.column_order@ == a.column_order@
    &&& b.column_widths.entries() == a.column_widths.entries()
    &&& same_rows(a, b)
    &&& same_filters(a, b)
    &&& b.pending() == a.pending()
}

/// Whether a left shift moves anything: the target is a visible column that
/// is not first in the column order.
pub open spec fn left_shift_moves(a: JobsView) -> bool {
    let vis = visible_names(a.column_order@, a.column_widths.entries());
    &&& a.reorder_target_idx < vis.len()
    &&& name_position(a.column_order@, vis[a.reorder_target_idx as int]@) matches Some(i) && i > 0
}

/// Whether a right shift moves anything: the target is a visible column that
/// is not last in the column order.
pub open spec fn right_shift_moves(a: JobsView) -> bool {
    let vis = visible_names(a.column_order@, a.column_widths.entries());
    &&& a.reorder_target_idx < vis.len()
    &&& name_position(a.column_order@, vis[a.reorder_target_idx as int]@) matches Some(i) && i
        < a.column_order@.len() - 1
}

/// The view after `shift_column_left`: the target column moved before its
/// predecessor in the column order and the target index one down (not below
/// zero), the order pending for saving; unchanged when nothing moves.
pub open spec fn shifted_left(a: JobsView, b: JobsView) -> bool {
    let vis = visible_names(a.column_order@, a.column_widths.entries());
    let target = vis[a.reorder_target_idx as int]@;
    let i = name_position(a.column_order@, target)->0;
    &&& same_rows(a, b)
    &&& same_filters(a, b)
    &&& b.column_widths.entries() == a.column_widths.entries()
    &&& if left_shift_moves(a) {
        &&& names(b.column_order@) == move_spec(
            names(a.column_order@),
            target,
            Some(a.column_order@[i - 1]@),
        )
        &&& b.reorder_target_idx == if a.reorder_target_idx > 0 {
            (a.reorder_target_idx - 1) as usize
        } else {
            0
        }
        &&& b.pending() matches Some(ConfigUpdate::JobsOrder(o)) && o@ == b.column_order@
    } else {
        &&& b.column_order@ == a.column_order@
        &&& b.reorder_target_idx == a.reorder_target_idx
        &&& b.pending() == a.pending()
    }
}

/// The view after `shift_column_right`: the target column moved after its
/// successor in the column order and the target index one up (not past the
/// last visible column), the order pending for saving; unchanged when
/// nothing moves.
pub open spec fn shifted_right(a: JobsView, b: JobsView) -> bool {
    let vis = visible_names(a.column_order@, a.column_widths.entries());
    let target = vis[a.reorder_target_idx as int]@;
    let i = name_position(a.column_order@, target)->0;
    &&& same_rows(a, b)
    &&& same_filters(a, b)
    &&& b.column_widths.entries() == a.column_widths.entries()
    &&& if right_shift_moves(a) {
        &&& names(b.column_order@) == move_spec(
            names(a.column_order@),
            target,
            if i + 2 < a.column_order@.len() {
                Some(a.column_order@[i + 2]@)
            } else {
                None
            },
        )
        &&& b.reorder_target_idx == if a.reorder_target_idx + 1 < vis.len() - 1 {
            (a.reorder_target_idx + 1) as usize
        } else {
            (vis.len() - 1) as usize
        }
        &&& b.pending() matches Some(ConfigUpdate::JobsOrder(o)) && o@ == b.column_order@
    } else {
        &&& b.column_order@ == a.column_order@
        &&& b.reorder_target_idx == a.reorder_target_idx
        &&& b.pending() == a.pending()
    }
}

/// Whether a captured state anchors on the id of `job`, or on nothing
/// without a job.
pub open spec fn anchors(c: CapturedState, job: Option<Job>) -> bool {
    match job {
        Some(j) => c.anchor matches Some(a) && a@ == j.job_id@,
        None => c.anchor is None,
    }
}

/// `b` is `a` after `update` with the jobs `jobs` for user `user`, which
/// returned `c`: the cursor state captured before, the new jobs filtered and
/// sorted as `a` says, the cursor row kept with the new row count, and
/// everything else unchanged.
pub open spec fn updated(a: JobsView, b: JobsView, jobs: Seq<Job>, user: Seq<char>, c: CapturedState) -> bool {
    &&& anchors(c, selected_spec(a))
    &&& b.last_jobs_raw@ == jobs
    &&& b.last_jobs@ == shown_for(a, jobs, user)
    &&& b.table_state@ == (a.table_state@.0, b.last_jobs@.len() as usize)
    &&& b.visual_selection@ == a.visual_selection@
    &&& same_filters(a, b)
    &&& same_columns(a, b)
    &&& b.pending() == a.pending()
}

/// `b` is `a` after `restore_state(c)`: the cursor on the first row of the
/// anchored job when it is shown, else where it was; nothing else changes.
pub open spec fn restored(a: JobsView, b: JobsView, c: CapturedState) -> bool {
    &&& b.table_state@ == match c.anchor {
        Some(k) => match first_key_position(job_ids(a.last_jobs@), k@) {
            Some(i) => (Some(i as usize), a.table_state@.1),
            None => a.table_state@,
        },
        None => a.table_state@,
    }
    &&& b.last_jobs@ == a.last_jobs@
    &&& b.last_jobs_raw@ == a.last_jobs_raw@
    &&& b.visual_selection@ == a.visual_selection@
    &&& same_filters(a, b)
    &&& same_columns(a, b)
    &&& b.pending() == a.pending()
}

/// The ids of jobs, in order.
pub open spec fn job_ids(jobs: Seq<Job>) -> Seq<Seq<char>> {
    jobs.map_values(|j: Job| j.job_id@)
}

/// The jobs behind a list of references.
pub open spec fn derefs(v: Seq<&Job>) -> Seq<Job> {
    v.map_values(|j: &Job| *j)
}

/// For each job of `shown`, the first job of `jobs` with its id, if any.
pub open spec fn rematched(shown: Seq<Job>, jobs: Seq<Job>) -> Seq<Job>
    decreases shown.len(),
{
    if shown.len() == 0 {
        Seq::empty()
    } else {
        let prev = rematched(shown.drop_last(), jobs);
        match first_key_position(job_ids(jobs), shown.last().job_id@) {
            Some(k) => prev.push(jobs[k]),
            None => prev,
        }
    }
}

/// The rows of the visual selection as a set.
pub open spec fn selection_set(v: (bool, Option<usize>, Option<usize>)) -> Set<usize> {
    match range_spec(v) {
        Some((lo, hi)) => Set::new(|i: usize| lo <= i <= hi),
        None => Set::<usize>::empty(),
    }
}

/// The jobs on the rows of the visual selection, in row order.
pub open spec fn selected_rows(v: (bool, Option<usize>, Option<usize>), jobs: Seq<Job>) -> Seq<Job> {
    match range_spec(v) {
        Some((lo, hi)) => if lo < jobs.len() {
            jobs.subrange(lo as int, if hi < jobs.len() - 1 { hi + 1 } else { jobs.len() as int })
        } else {
            Seq::empty()
        },
        None => Seq::empty(),
    }
}

/// The ids of jobs.
fn ids_of(jobs: &Vec<Job>) -> (r: Vec<String>)
    ensures
        r.deep_view() == job_ids(jobs@),
{
    ids_of_slice(jobs.as_slice())
}

/// The ids of jobs.
fn ids_of_slice(jobs: &[Job]) -> (r: Vec<String>)
    ensures
        r.deep_view() == job_ids(jobs@),
{
    let mut r: Vec<String> = Vec::new();
    let mut i: usize = 0;
    while i < jobs.len()
        invariant
            i <= jobs@.len(),
            r.deep_view() == job_ids(jobs@).take(i as int),
        decreases jobs@.len() - i,
    {
        let ghost before = r.deep_view();
        r.push(jobs[i].job_id.clone());
        assert(r.deep_view() =~= before.push(jobs@[i as int].job_id@));
        assert(job_ids(jobs@).take(i + 1) =~= job_ids(jobs@).take(i as int).push(jobs@[i as int].job_id@));
        i = i + 1;
    }
    assert(job_ids(jobs@).take(jobs@.len() as int) =~= job_ids(jobs@));
    r
}

/// The position of the first name equal to `x` in `order`.
fn find_name(order: &Vec<String>, x: &str) -> (r: Option<usize>)
    ensures
        match r {
            Some(i) => name_position(order@, x@) == Some(i as int) && i < order@.len(),
            None => name_position(order@, x@) is None,
        },
{
    let mut i: usize = 0;
    while i < order.len()
        invariant
            i <= order@.len(),
            forall|k: int| 0 <= k < i ==> names(order@)[k] != x@,
        decreases order@.len() - i,
    {
        if str_eq(order[i].as_str(), x) {
            proof {
                lemma_position_of(names(order@), x@, i as int);
            }
            return Some(i);
        }
        i = i + 1;
    }
    proof {
        lemma_position_of(names(order@), x@, order@.len() as int);
    }
    None
}

/// A key found by `first_key_position` lies within the keys.
proof fn lemma_first_key_in_range(keys: Seq<Seq<char>>, k: Seq<char>)
    ensures
        first_key_position(keys, k) matches Some(i) ==> 0 <= i < keys.len() && keys[i] == k,
    decreases keys.len(),
{
    if keys.len() > 0 {
        lemma_first_key_in_range(keys.drop_last(), k);
    }
}


/// A duration field in seconds as the jobs table reads it: the parsed value
/// as an `i64`, or -1 when it does not parse (`UNLIMITED` among others).
pub open spec fn seconds_of(field: Seq<char>) -> i64 {
    match duration_value(field) {
        Some(n) => n as i64,
        None => -1i64,
    }
}

/// The remaining wall-clock time of a job and its colour: `UNLIMITED` in
/// dark gray without a parsable limit, an em dash in dark gray without a
/// parsable used time; else the time left (never below zero) in green above
/// half the limit, in yellow from a tenth of it, in red below, and in dark
/// gray for a zero limit.
pub open spec fn time_left_spec(job: Job) -> (Seq<char>, Tint) {
    let limit = seconds_of(job.time_limit@);
    let used = seconds_of(job.time_used@);
    if limit < 0 {
        ("UNLIMITED"@, Tint::DarkGray)
    } else if used < 0 {
        ("—"@, Tint::DarkGray)
    } else {
        let remaining = if limit - used < 0 {
            0
        } else {
            limit - used
        };
        (
            format_duration_spec(remaining),
            if limit == 0 {
                Tint::DarkGray
            } else if remaining * 2 > limit {
                Tint::Green
            } else if remaining * 10 >= limit {
                Tint::Yellow
            } else {
                Tint::Red
            },
        )
    }
}

/// The remaining wall-clock time of a job, for display, with its colour.
pub fn time_left(job: &Job) -> (r: (String, Tint))
    requires
        duration_fits(job.time_limit@),
        duration_fits(job.time_used@),
    ensures
        r.0@ == time_left_spec(*job).0,
        r.1 == time_left_spec(*job).1,
{
    let limit_secs: i64 = match parse_slurm_duration(job.time_limit.as_str()) {
        Some(n) => n as i64,
        None => -1,
    };
    if limit_secs < 0 {
        return (to_string("UNLIMITED"), Tint::DarkGray);
    }
    let used_secs: i64 = match parse_slurm_duration(job.time_used.as_str()) {
        Some(n) => n as i64,
        None => -1,
    };
    if used_secs < 0 {
        return (to_string("—"), Tint::DarkGray);
    }
    let remaining: i64 = if limit_secs - used_secs < 0 {
        0
    } else {
        limit_secs - used_secs
    };
    let display = format_duration(remaining);
    let wide_remaining = remaining as i128;
    let wide_limit = limit_secs as i128;
    let color = if limit_secs == 0 {
        Tint::DarkGray
    } else if wide_remaining * 2 > wide_limit {
        Tint::Green
    } else if wide_remaining * 10 >= wide_limit {
        Tint::Yellow
    } else {
        Tint::Red
    };
    (display, color)
}


/// The columns of `cols` whose names are not hidden, in order.
pub open spec fn unhidden(cols: Seq<ColumnSpec>, hidden: Seq<Seq<char>>) -> Seq<ColumnSpec>
    decreases cols.len(),
{
    if cols.len() == 0 {
        Seq::empty()
    } else if hidden.contains(cols.last().name@) {
        unhidden(cols.drop_last(), hidden)
    } else {
        unhidden(cols.drop_last(), hidden).push(cols.last())
    }
}

/// The content cap of a jobs column under the config: `NAME`, `USER`,
/// `PARTITION`, `NODELIST(REASON)` and `QOS` take their configured maximum
/// (as a `u16`), the others keep `current`.
pub open spec fn cap_for(name: Seq<char>, cfg: JobsConfig, current: u16) -> u16 {
    if name == "NAME"@ {
        cfg.name_max as u16
    } else if name == "USER"@ {
        cfg.user_max as u16
    } else if name == "PARTITION"@ {
        cfg.partition_max as u16
    } else if name == "NODELIST(REASON)"@ {
        cfg.nodelist_reason_max as u16
    } else if name == "QOS"@ {
        cfg.qos_max as u16
    } else {
        current
    }
}

/// A column with its content cap taken from the config.
pub open spec fn capped(c: ColumnSpec, cfg: JobsConfig) -> ColumnSpec {
    ColumnSpec {
        name: c.name,
        min_width: c.min_width,
        content_max: cap_for(c.name@, cfg, c.content_max),
        priority: c.priority,
        min_tier: c.min_tier,
        min_terminal_width: c.min_terminal_width,
    }
}

/// The names of columns, in order.
pub open spec fn column_names(cols: Seq<ColumnSpec>) -> Seq<Seq<char>> {
    cols.map_values(|c: ColumnSpec| c.name@)
}

/// The first column named `n`, if any.
pub open spec fn column_named(cols: Seq<ColumnSpec>, n: Seq<char>) -> Option<ColumnSpec> {
    match first_key_position(column_names(cols), n) {
        Some(i) => Some(cols[i]),
        None => None,
    }
}

/// For each name of `ns`, the first column of `cols` with that name (names
/// without a column are left out).
pub open spec fn pick(ns: Seq<Seq<char>>, cols: Seq<ColumnSpec>) -> Seq<ColumnSpec>
    decreases ns.len(),
{
    if ns.len() == 0 {
        Seq::empty()
    } else {
        match column_named(cols, ns.last()) {
            Some(c) => pick(ns.drop_last(), cols).push(c),
            None => pick(ns.drop_last(), cols),
        }
    }
}

/// The jobs columns to lay out: the table without hidden columns, capped by
/// the config, in the saved order reconciled with theirs when one is saved.
pub open spec fn layout_columns(
    table: Seq<ColumnSpec>,
    hidden: Seq<String>,
    cfg: JobsConfig,
    order: Seq<String>,
) -> Seq<ColumnSpec> {
    let cols = unhidden(table, names(hidden)).map_values(|c: ColumnSpec| capped(c, cfg));
    if order.len() == 0 {
        cols
    } else {
        pick(reconcile_spec(names(order), column_names(cols)), cols)
    }
}

/// The byte width of a job's cell in a column: the field's bytes; for
/// `TIME_LEFT` the time limit's; for `NODELIST(REASON)` the reason's when the
/// node list is empty or `None`, else the node list's; 0 for other columns.
pub open spec fn cell_width(name: Seq<char>, job: Job) -> nat {
    if name == "JOBID"@ {
        encode_utf8(job.job_id@).len()
    } else if name == "STATE"@ {
        encode_utf8(job.state@).len()
    } else if name == "NAME"@ {
        encode_utf8(job.name@).len()
    } else if name == "USER"@ {
        encode_utf8(job.user@).len()
    } else if name == "TIME"@ {
        encode_utf8(job.time_used@).len()
    } else if name == "TIME_LEFT"@ {
        encode_utf8(job.time_limit@).len()
    } else if name == "PARTITION"@ {
        encode_utf8(job.partition@).len()
    } else if name == "NODES"@ {
        encode_utf8(job.num_nodes@).len()
    } else if name == "CPUS"@ {
        encode_utf8(job.num_cpus@).len()
    } else if name == "QOS"@ {
        encode_utf8(job.qos@).len()
    } else if name == "TIME_LIMIT"@ {
        encode_utf8(job.time_limit@).len()
    } else if name == "NODELIST(REASON)"@ {
        if job.nodelist@.len() == 0 || job.nodelist@ == "None"@ {
            encode_utf8(job.reason@).len()
        } else {
            encode_utf8(job.nodelist@).len()
        }
    } else {
        0
    }
}

/// The widest cell of a column over `jobs` (each width as a `u16`), and at
/// least `start`.
pub open spec fn widest(name: Seq<char>, jobs: Seq<Job>, start: u16) -> u16
    decreases jobs.len(),
{
    if jobs.len() == 0 {
        start
    } else {
        let w = widest(name, jobs.drop_last(), start);
        let c = cell_width(name, jobs.last()) as u16;
        if c > w {
            c
        } else {
            w
        }
    }
}

/// The content width of a column: its widest cell or header, capped.
pub open spec fn content_width(c: ColumnSpec, jobs: Seq<Job>) -> u16 {
    let m = widest(c.name@, jobs, encode_utf8(c.name@).len() as u16);
    if m < c.content_max {
        m
    } else {
        c.content_max
    }
}

/// The content widths by name, stored column by column (a later column of
/// the same name replaces the width).
pub open spec fn content_entries(cols: Seq<ColumnSpec>, jobs: Seq<Job>) -> Seq<(Seq<char>, u16)>
    decreases cols.len(),
{
    if cols.len() == 0 {
        Seq::empty()
    } else {
        insert_entry(
            content_entries(cols.drop_last(), jobs),
            cols.last().name@,
            content_width(cols.last(), jobs),
        )
    }
}

/// The final widths: each allocated width bounded by the column's content
/// width (8 for a column without one), stored in allocation order.
pub open spec fn final_widths(alloc: Seq<(Seq<char>, u16)>, content: Seq<(Seq<char>, u16)>) -> Seq<
    (Seq<char>, u16),
>
    decreases alloc.len(),
{
    if alloc.len() == 0 {
        Seq::empty()
    } else {
        let n = alloc.last().0;
        let w = alloc.last().1;
        let cw = match lookup_entry(content, n) {
            Some(x) => x,
            None => 8u16,
        };
        insert_entry(
            final_widths(alloc.drop_last(), content),
            n,
            if w < cw {
                w
            } else {
                cw
            },
        )
    }
}

/// The column widths a rebuild gives: the laid-out columns allocated in
/// `width - 3` cells, each bounded by its content width over `jobs`.
pub open spec fn rebuilt_widths(
    table: Seq<ColumnSpec>,
    width: u16,
    cfg: JobsConfig,
    hidden: Seq<String>,
    order: Seq<String>,
    jobs: Seq<Job>,
) -> Seq<(Seq<char>, u16)> {
    let cols = layout_columns(table, hidden, cfg, order);
    final_widths(allocate_spec(sat_sub_u16(width, 3), cols), content_entries(cols, jobs))
}

/// Whether `table` holds the jobs view columns.
pub open spec fn is_jobs_table(table: Seq<ColumnSpec>) -> bool {
    table.map_values(|c: ColumnSpec| column_view(c)) == jobs_column_table()
}

/// Every column is at most 14 cells wide at minimum.
pub open spec fn narrow(cols: Seq<ColumnSpec>) -> bool {
    forall|i: int| 0 <= i < cols.len() ==> #[trigger] cols[i].min_width <= 14
}

proof fn lemma_unhidden(cols: Seq<ColumnSpec>, hidden: Seq<Seq<char>>)
    requires
        narrow(cols),
    ensures
        narrow(unhidden(cols, hidden)),
        unhidden(cols, hidden).len() <= cols.len(),
    decreases cols.len(),
{
    if cols.len() > 0 {
        assert(narrow(cols.drop_last())) by {
            assert forall|i: int| 0 <= i < cols.drop_last().len() implies #[trigger] cols.drop_last()[i].min_width <= 14 by {
                assert(cols.drop_last()[i] == cols[i]);
            }
        }
        lemma_unhidden(cols.drop_last(), hidden);
        assert(cols.last() == cols[cols.len() - 1]);
    }
}

proof fn lemma_pick(ns: Seq<Seq<char>>, cols: Seq<ColumnSpec>)
    requires
        narrow(cols),
    ensures
        narrow(pick(ns, cols)),
        pick(ns, cols).len() <= ns.len(),
    decreases ns.len(),
{
    if ns.len() > 0 {
        lemma_pick(ns.drop_last(), cols);
        lemma_first_key_in_range(column_names(cols), ns.last());
        match first_key_position(column_names(cols), ns.last()) {
            Some(i) => {
                assert(cols[i].min_width <= 14);
            },
            None => {},
        }
    }
}

/// The laid-out columns fit the allocator's sums.
proof fn lemma_layout_fits(table: Seq<ColumnSpec>, hidden: Seq<String>, cfg: JobsConfig, order: Seq<String>, budget: u16)
    requires
        is_jobs_table(table),
    ensures
        allocation_fits(budget, layout_columns(table, hidden, cfg, order)),
{
    assert(table.len() == 12) by {
        assert(table.map_values(|c: ColumnSpec| column_view(c)).len() == 12);
    }
    assert(narrow(table)) by {
        assert forall|i: int| 0 <= i < table.len() implies #[trigger] table[i].min_width <= 14 by {
            assert(table.map_values(|c: ColumnSpec| column_view(c))[i] == column_view(table[i]));
            assert(column_view(table[i]) == jobs_column_table()[i]);
        }
    }
    lemma_unhidden(table, names(hidden));
    let u = unhidden(table, names(hidden));
    let cols = u.map_values(|c: ColumnSpec| capped(c, cfg));
    assert(narrow(cols)) by {
        assert forall|i: int| 0 <= i < cols.len() implies #[trigger] cols[i].min_width <= 14 by {
            assert(cols[i] == capped(u[i], cfg));
            assert(u[i].min_width <= 14);
        }
    }
    let laid = layout_columns(table, hidden, cfg, order);
    if order.len() != 0 {
        lemma_pick(reconcile_spec(names(order), column_names(cols)), cols);
        lemma_reconcile_len(names(order), column_names(cols));
    }
    assert(laid.len() <= 24);
    lemma_allocation_fits_bounded(budget, laid, 14);
}

/// A field copy of a column.
fn copy_column(c: &ColumnSpec) -> (r: ColumnSpec)
    ensures
        r == *c,
{
    ColumnSpec {
        name: c.name.clone(),
        min_width: c.min_width,
        content_max: c.content_max,
        priority: c.priority,
        min_tier: c.min_tier,
        min_terminal_width: c.min_terminal_width,
    }
}

fn unhidden_exec(cols: &Vec<ColumnSpec>, hidden: &Vec<String>) -> (r: Vec<ColumnSpec>)
    ensures
        r@ == unhidden(cols@, names(hidden@)),
{
    let mut r: Vec<ColumnSpec> = Vec::new();
    let mut i: usize = 0;
    while i < cols.len()
        invariant
            i <= cols@.len(),
            r@ == unhidden(cols@.take(i as int), names(hidden@)),
        decreases cols@.len() - i,
    {
        assert(cols@.take(i + 1).drop_last() =~= cols@.take(i as int));
        if !holds(hidden.as_slice(), cols[i].name.as_str()) {
            r.push(copy_column(&cols[i]));
        }
        i = i + 1;
    }
    assert(cols@.take(cols@.len() as int) =~= cols@);
    r
}

fn cap_exec(c: &ColumnSpec, cfg: &JobsConfig) -> (r: ColumnSpec)
    ensures
        r == capped(*c, *cfg),
{
    let n = c.name.as_str();
    let cap: u16 = if str_eq(n, "NAME") {
        cfg.name_max as u16
    } else if str_eq(n, "USER") {
        cfg.user_max as u16
    } else if str_eq(n, "PARTITION") {
        cfg.partition_max as u16
    } else if str_eq(n, "NODELIST(REASON)") {
        cfg.nodelist_reason_max as u16
    } else if str_eq(n, "QOS") {
        cfg.qos_max as u16
    } else {
        c.content_max
    };
    ColumnSpec {
        name: c.name.clone(),
        min_width: c.min_width,
        content_max: cap,
        priority: c.priority,
        min_tier: c.min_tier,
        min_terminal_width: c.min_terminal_width,
    }
}

fn capped_exec(cols: &Vec<ColumnSpec>, cfg: &JobsConfig) -> (r: Vec<ColumnSpec>)
    ensures
        r@ == cols@.map_values(|c: ColumnSpec| capped(c, *cfg)),
{
    let mut r: Vec<ColumnSpec> = Vec::new();
    let mut i: usize = 0;
    while i < cols.len()
        invariant
            i <= cols@.len(),
            r@ == cols@.take(i as int).map_values(|c: ColumnSpec| capped(c, *cfg)),
        decreases cols@.len() - i,
    {
        r.push(cap_exec(&cols[i], cfg));
        assert(cols@.take(i + 1).map_values(|c: ColumnSpec| capped(c, *cfg)) =~= cols@.take(
            i as int,
        ).map_values(|c: ColumnSpec| capped(c, *cfg)).push(capped(cols@[i as int], *cfg)));
        i = i + 1;
    }
    assert(cols@.take(cols@.len() as int) =~= cols@);
    r
}

fn column_names_exec(cols: &Vec<ColumnSpec>) -> (r: Vec<String>)
    ensures
        names(r@) == column_names(cols@),
        r.deep_view() == column_names(cols@),
{
    let mut r: Vec<String> = Vec::new();
    let mut i: usize = 0;
    while i < cols.len()
        invariant
            i <= cols@.len(),
            names(r@) == column_names(cols@).take(i as int),
        decreases cols@.len() - i,
    {
        let ghost before = names(r@);
        r.push(cols[i].name.clone());
        assert(names(r@) =~= before.push(cols@[i as int].name@));
        assert(column_names(cols@).take(i + 1) =~= column_names(cols@).take(i as int).push(
            cols@[i as int].name@,
        ));
        i = i + 1;
    }
    assert(column_names(cols@).take(cols@.len() as int) =~= column_names(cols@));
    assert(r.deep_view() =~= names(r@));
    r
}

fn pick_exec(ns: &Vec<String>, cols: &Vec<ColumnSpec>) -> (r: Vec<ColumnSpec>)
    ensures
        r@ == pick(names(ns@), cols@),
{
    let keys = column_names_exec(cols);
    let mut r: Vec<ColumnSpec> = Vec::new();
    let mut i: usize = 0;
    while i < ns.len()
        invariant
            i <= ns@.len(),
            keys.deep_view() == column_names(cols@),
            r@ == pick(names(ns@).take(i as int), cols@),
        decreases ns@.len() - i,
    {
        assert(names(ns@).take(i + 1).drop_last() =~= names(ns@).take(i as int));
        assert(names(ns@).take(i + 1).last() == ns@[i as int]@);
        let captured = CapturedTableState::new(Some(ns[i].clone()), 0);
        match captured.restore(&keys) {
            Some(k) => {
                proof {
                    lemma_first_key_in_range(column_names(cols@), ns@[i as int]@);
                }
                r.push(copy_column(&cols[k]));
            },
            None => {},
        }
        i = i + 1;
    }
    assert(names(ns@).take(ns@.len() as int) =~= names(ns@));
    r
}

fn cell_width_exec(name: &str, job: &Job) -> (r: usize)
    ensures
        r == cell_width(name@, *job),
{
    if str_eq(name, "JOBID") {
        job.job_id.as_str().as_bytes().len()
    } else if str_eq(name, "STATE") {
        job.state.as_str().as_bytes().len()
    } else if str_eq(name, "NAME") {
        job.name.as_str().as_bytes().len()
    } else if str_eq(name, "USER") {
        job.user.as_str().as_bytes().len()
    } else if str_eq(name, "TIME") {
        job.time_used.as_str().as_bytes().len()
    } else if str_eq(name, "TIME_LEFT") {
        estimate_time_left_width(job)
    } else if str_eq(name, "PARTITION") {
        job.partition.as_str().as_bytes().len()
    } else if str_eq(name, "NODES") {
        job.num_nodes.as_str().as_bytes().len()
    } else if str_eq(name, "CPUS") {
        job.num_cpus.as_str().as_bytes().len()
    } else if str_eq(name, "QOS") {
        job.qos.as_str().as_bytes().len()
    } else if str_eq(name, "TIME_LIMIT") {
        job.time_limit.as_str().as_bytes().len()
    } else if str_eq(name, "NODELIST(REASON)") {
        if job.nodelist.as_str().is_empty() || str_eq(job.nodelist.as_str(), "None") {
            job.reason.as_str().as_bytes().len()
        } else {
            job.nodelist.as_str().as_bytes().len()
        }
    } else {
        0
    }
}

fn widest_exec(name: &str, jobs: &Vec<Job>, start: u16) -> (r: u16)
    ensures
        r == widest(name@, jobs@, start),
{
    let mut w = start;
    let mut i: usize = 0;
    while i < jobs.len()
        invariant
            i <= jobs@.len(),
            w == widest(name@, jobs@.take(i as int), start),
        decreases jobs@.len() - i,
    {
        assert(jobs@.take(i + 1).drop_last() =~= jobs@.take(i as int));
        let c = cell_width_exec(name, &jobs[i]) as u16;
        if c > w {
            w = c;
        }
        i = i + 1;
    }
    assert(jobs@.take(jobs@.len() as int) =~= jobs@);
    w
}

fn content_map(cols: &Vec<ColumnSpec>, jobs: &Vec<Job>) -> (r: StrMap<u16>)
    ensures
        r.entries() == content_entries(cols@, jobs@),
{
    let mut m: StrMap<u16> = StrMap::new();
    let mut i: usize = 0;
    while i < cols.len()
        invariant
            i <= cols@.len(),
            m.entries() == content_entries(cols@.take(i as int), jobs@),
        decreases cols@.len() - i,
    {
        assert(cols@.take(i + 1).drop_last() =~= cols@.take(i as int));
        let c = &cols[i];
        let header = c.name.as_str().as_bytes().len() as u16;
        let widest_cell = widest_exec(c.name.as_str(), jobs, header);
        let bounded = if widest_cell < c.content_max {
            widest_cell
        } else {
            c.content_max
        };
        m.insert(c.name.clone(), bounded);
        i = i + 1;
    }
    assert(cols@.take(cols@.len() as int) =~= cols@);
    m
}

fn final_map(alloc: &Vec<(String, u16)>, content: &StrMap<u16>) -> (r: StrMap<u16>)
    ensures
        r.entries() == final_widths(
            alloc@.map_values(|p: (String, u16)| (p.0@, p.1)),
            content.entries(),
        ),
{
    let ghost av = alloc@.map_values(|p: (String, u16)| (p.0@, p.1));
    let mut m: StrMap<u16> = StrMap::new();
    let mut i: usize = 0;
    while i < alloc.len()
        invariant
            i <= alloc@.len(),
            av == alloc@.map_values(|p: (String, u16)| (p.0@, p.1)),
            m.entries() == final_widths(av.take(i as int), content.entries()),
        decreases alloc@.len() - i,
    {
        assert(av.take(i + 1).drop_last() =~= av.take(i as int));
        assert(av.take(i + 1).last() == (alloc@[i as int].0@, alloc@[i as int].1));
        let name = &alloc[i].0;
        let w = alloc[i].1;
        let cw: u16 = match content.get(name.as_str()) {
            Some(x) => *x,
            None => 8,
        };
        m.insert(name.clone(), if w < cw {
            w
        } else {
            cw
        });
        i = i + 1;
    }
    assert(av.take(alloc@.len() as int) =~= av);
    m
}

impl JobsView {
    /// Rebuild the column widths for a terminal `terminal_width` wide: the
    /// jobs columns without the hidden ones, capped by the config, in the
    /// saved order; allocated in `width - 3` cells; each width bounded by the
    /// widest of its header and cells.
    pub fn rebuild_columns(&mut self, terminal_width: u16, jobs_cfg: &JobsConfig, columns_cfg: &ColumnsConfig)
        ensures
            exists|table: Seq<ColumnSpec>|
                #![trigger is_jobs_table(table)]
                is_jobs_table(table) && final(self).column_widths.entries() == rebuilt_widths(
                    table,
                    terminal_width,
                    *jobs_cfg,
                    columns_cfg.jobs_hidden@,
                    old(self).column_order@,
                    old(self).last_jobs@,
                ),
            same_rows(*old(self), *final(self)),
            same_filters(*old(self), *final(self)),
            final(self).column_order@ == old(self).column_order@,
            final(self).reorder_target_idx == old(self).reorder_target_idx,
            final(self).pending() == old(self).pending(),
    {
        let table = jobs_columns();
        let visible = unhidden_exec(&table, &columns_cfg.jobs_hidden);
        let capped_cols = capped_exec(&visible, jobs_cfg);
        let cols = if self.column_order.len() != 0 {
            let default_names = column_names_exec(&capped_cols);
            let ordered = reconcile_order(self.column_order.as_slice(), default_names.as_slice());
            pick_exec(&ordered, &capped_cols)
        } else {
            capped_cols
        };
        let content = content_map(&cols, &self.last_jobs);
        let tier = tier_for(terminal_width);
        let budget = terminal_width.saturating_sub(CHROME_OVERHEAD);
        proof {
            lemma_layout_fits(table@, columns_cfg.jobs_hidden@, *jobs_cfg, self.column_order@, budget);
            assert(cols@ == layout_columns(table@, columns_cfg.jobs_hidden@, *jobs_cfg, self.column_order@));
        }
        let allocated = allocate_columns(budget, cols.as_slice(), tier);
        self.column_widths = final_map(&allocated, &content);
        assert(is_jobs_table(table@));
    }
}


proof fn lemma_insert_job_multiset(s: Seq<Job>, x: Job, sort_col: Option<String>, reversed: bool)
    ensures
        insert_job(s, x, sort_col, reversed).to_multiset() == s.to_multiset().insert(x),
    decreases s.len(),
{
    broadcast use vstd::seq_lib::group_to_multiset_ensures;

    if s.len() == 0 {
        assert(s =~= Seq::<Job>::empty());
        assert(seq![x] =~= s.push(x));
    } else {
        let p = s.drop_last();
        let last = s.last();
        assert(s =~= p.push(last));
        if sorts_after(sort_col, reversed, last, x) {
            lemma_insert_job_multiset(p, x, sort_col, reversed);
            let q = insert_job(p, x, sort_col, reversed);
            assert(insert_job(s, x, sort_col, reversed) == q.push(last));
            assert(q.push(last).to_multiset() =~= q.to_multiset().insert(last));
            assert(p.push(last).to_multiset() =~= p.to_multiset().insert(last));
            assert(q.push(last).to_multiset() =~= s.to_multiset().insert(x));
        } else {
            assert(insert_job(s, x, sort_col, reversed) == s.push(x));
        }
    }
}

/// Sorting keeps every job: the sorted list holds each job exactly as often
/// as the input does.
pub proof fn lemma_sort_jobs_permutes(s: Seq<Job>, sort_col: Option<String>, reversed: bool)
    ensures
        sort_jobs(s, sort_col, reversed).to_multiset() == s.to_multiset(),
    decreases s.len(),
{
    broadcast use vstd::seq_lib::to_multiset_build;

    if s.len() == 0 {
    } else {
        lemma_sort_jobs_permutes(s.drop_last(), sort_col, reversed);
        lemma_insert_job_multiset(sort_jobs(s.drop_last(), sort_col, reversed), s.last(), sort_col, reversed);
        assert(s =~= s.drop_last().push(s.last()));
    }
}

/// Whether jobs are in the default order: no job sorts after a later one.
pub open spec fn in_default_order(s: Seq<Job>) -> bool {
    forall|i: int, j: int| 0 <= i < j < s.len() ==> !sorts_after(None, false, #[trigger] s[i], #[trigger] s[j])
}

proof fn lemma_insert_default_sorted(s: Seq<Job>, x: Job)
    requires
        in_default_order(s),
    ensures
        in_default_order(insert_job(s, x, None, false)),
    decreases s.len(),
{
    broadcast use vstd::seq_lib::group_to_multiset_ensures;

    if s.len() > 0 {
        let last = s.last();
        if sorts_after(None, false, last, x) {
            let p = s.drop_last();
            assert(in_default_order(p)) by {
                assert forall|i: int, j: int| 0 <= i < j < p.len() implies !sorts_after(None, false, #[trigger] p[i], #[trigger] p[j]) by {
                    assert(p[i] == s[i] && p[j] == s[j]);
                }
            }
            lemma_insert_default_sorted(p, x);
            lemma_insert_job_multiset(p, x, None, false);
            let q = insert_job(p, x, None, false);
            assert forall|i: int| 0 <= i < q.len() implies !sorts_after(None, false, #[trigger] q[i], last) by {
                assert(q.contains(q[i]));
                assert(q.to_multiset().count(q[i]) > 0);
                if q[i] != x {
                    assert(p.to_multiset().count(q[i]) > 0);
                    assert(p.contains(q[i]));
                    let k = choose|k: int| 0 <= k < p.len() && p[k] == q[i];
                    assert(s[k] == q[i] && s[s.len() - 1] == last);
                }
            }
            let r = q.push(last);
            assert forall|i: int, j: int| 0 <= i < j < r.len() implies !sorts_after(None, false, #[trigger] r[i], #[trigger] r[j]) by {
                if j < q.len() {
                    assert(r[i] == q[i] && r[j] == q[j]);
                } else {
                    assert(r[i] == q[i] && r[j] == last);
                }
            }
        } else {
            let r = s.push(x);
            assert forall|i: int, j: int| 0 <= i < j < r.len() implies !sorts_after(None, false, #[trigger] r[i], #[trigger] r[j]) by {
                if j < s.len() {
                    assert(r[i] == s[i] && r[j] == s[j]);
                } else if i < s.len() - 1 {
                    assert(r[i] == s[i] && s[s.len() - 1] == last);
                    assert(!sorts_after(None, false, s[i], s[s.len() - 1]));
                }
            }
        }
    } else {
        assert(insert_job(s, x, None, false) =~= seq![x]);
    }
}

/// With no sort column the jobs come out in the default order: by state
/// priority (completing, running, pending, others), then by numeric job id.
pub proof fn lemma_default_sort_ordered(s: Seq<Job>)
    ensures
        in_default_order(sort_jobs(s, None, false)),
    decreases s.len(),
{
    if s.len() > 0 {
        lemma_default_sort_ordered(s.drop_last());
        lemma_insert_default_sorted(sort_jobs(s.drop_last(), None, false), s.last());
    }
}


/// Without repeated names, leaving out the name at `i` removes position `i`.
proof fn lemma_without_at(s: Seq<Seq<char>>, i: int)
    requires
        s.no_duplicates(),
        0 <= i < s.len(),
    ensures
        without(s, s[i]) == s.remove(i),
    decreases s.len(),
{
    let p = s.drop_last();
    assert(p.no_duplicates()) by {
        assert forall|a: int, b: int| 0 <= a < b < p.len() implies p[a] != p[b] by {
            assert(s[a] != s[b]);
        }
    }
    if i == s.len() - 1 {
        assert(!p.contains(s[i])) by {
            if p.contains(s[i]) {
                let k = choose|k: int| 0 <= k < p.len() && p[k] == s[i];
                assert(s[k] == s[i]);
            }
        }
        lemma_without_absent(p, s[i]);
        assert(s.remove(i) =~= p);
    } else {
        assert(s.last() != s[i]) by {
            assert(s[s.len() - 1] != s[i]);
        }
        lemma_without_at(p, i);
        assert(p[i] == s[i]);
        assert(s.remove(i) =~= p.remove(i).push(s.last()));
    }
}

/// Leaving out a name that does not occur changes nothing.
proof fn lemma_without_absent(s: Seq<Seq<char>>, x: Seq<char>)
    requires
        !s.contains(x),
    ensures
        without(s, x) == s,
    decreases s.len(),
{
    if s.len() > 0 {
        assert(!s.drop_last().contains(x)) by {
            if s.drop_last().contains(x) {
                let k = choose|k: int| 0 <= k < s.drop_last().len() && s.drop_last()[k] == x;
                assert(s[k] == x);
            }
        }
        lemma_without_absent(s.drop_last(), x);
        assert(s.last() != x) by {
            assert(s[s.len() - 1] == s.last());
        }
        assert(s.drop_last().push(s.last()) =~= s);
    }
}

/// Without repeated names, a name is found where it stands.
proof fn lemma_position_at(s: Seq<Seq<char>>, j: int)
    requires
        s.no_duplicates(),
        0 <= j < s.len(),
    ensures
        position_of(s, s[j]) == Some(j),
{
    assert forall|k: int| 0 <= k < j implies s[k] != s[j] by {}
    lemma_position_of(s, s[j], j);
}

/// `s` with positions `i` and `i + 1` exchanged.
pub open spec fn swapped(s: Seq<Seq<char>>, i: int) -> Seq<Seq<char>> {
    s.update(i, s[i + 1]).update(i + 1, s[i])
}

/// Without repeated names, moving the name at `i` before the name two
/// places on (or to the end, when there is none) exchanges it with its
/// successor.
proof fn lemma_move_right_swaps(s: Seq<Seq<char>>, i: int)
    requires
        s.no_duplicates(),
        0 <= i,
        i + 1 < s.len(),
    ensures
        move_spec(s, s[i], if i + 2 < s.len() { Some(s[i + 2]) } else { None }) == swapped(s, i),
{
    lemma_without_at(s, i);
    let rest = s.remove(i);
    assert(s.contains(s[i]));
    if i + 2 < s.len() {
        assert(rest.no_duplicates()) by {
            assert forall|a: int, b: int| 0 <= a < b < rest.len() implies rest[a] != rest[b] by {
                let sa = if a < i { a } else { a + 1 };
                let sb = if b < i { b } else { b + 1 };
                assert(rest[a] == s[sa] && rest[b] == s[sb]);
            }
        }
        assert(rest[i + 1] == s[i + 2]);
        lemma_position_at(rest, i + 1);
        assert(rest.insert(i + 1, s[i]) =~= swapped(s, i));
    } else {
        assert(rest.push(s[i]) =~= swapped(s, i));
    }
}

/// Without repeated names, moving the name at `i + 1` before the name at
/// `i` exchanges them.
proof fn lemma_move_left_swaps(s: Seq<Seq<char>>, i: int)
    requires
        s.no_duplicates(),
        0 <= i,
        i + 1 < s.len(),
    ensures
        move_spec(s, s[i + 1], Some(s[i])) == swapped(s, i),
{
    lemma_without_at(s, i + 1);
    let rest = s.remove(i + 1);
    assert(s.contains(s[i + 1]));
    assert(rest.no_duplicates()) by {
        assert forall|a: int, b: int| 0 <= a < b < rest.len() implies rest[a] != rest[b] by {
            let sa = if a <= i { a } else { a + 1 };
            let sb = if b <= i { b } else { b + 1 };
            assert(rest[a] == s[sa] && rest[b] == s[sb]);
        }
    }
    assert(rest[i] == s[i]);
    lemma_position_at(rest, i);
    assert(rest.insert(i, s[i + 1]) =~= swapped(s, i));
}

/// When every column has a width, all columns are visible.
proof fn lemma_all_visible(order: Seq<String>, widths: Seq<(Seq<char>, u16)>)
    requires
        forall|k: int| 0 <= k < order.len() ==> lookup_entry(widths, #[trigger] order[k]@) is Some,
    ensures
        visible_names(order, widths) == order,
    decreases order.len(),
{
    if order.len() > 0 {
        lemma_all_visible(order.drop_last(), widths);
        assert(order.drop_last().push(order.last()) =~= order);
    }
}

/// Shifting a column right and then left puts the column order and the
/// reorder target back, when every column is visible, no name repeats and
/// the target is not the last column.
pub proof fn lemma_shift_right_then_left(a: JobsView, b: JobsView, c: JobsView)
    requires
        a.column_order@.len() <= usize::MAX,
        names(a.column_order@).no_duplicates(),
        forall|k: int|
            0 <= k < a.column_order@.len() ==> lookup_entry(
                a.column_widths.entries(),
                #[trigger] a.column_order@[k]@,
            ) is Some,
        a.reorder_target_idx + 1 < a.column_order@.len(),
        shifted_right(a, b),
        shifted_left(b, c),
    ensures
        names(c.column_order@) == names(a.column_order@),
        c.reorder_target_idx == a.reorder_target_idx,
{
    let o = names(a.column_order@);
    let i = a.reorder_target_idx as int;
    let w = a.column_widths.entries();
    lemma_all_visible(a.column_order@, w);
    assert(o[i] == a.column_order@[i]@);
    lemma_position_at(o, i);
    assert(right_shift_moves(a));
    if i + 2 < o.len() {
        assert(a.column_order@[i + 2]@ == o[i + 2]);
    }
    lemma_move_right_swaps(o, i);
    let ob = names(b.column_order@);
    assert(ob == swapped(o, i));
    lemma_move_in_order_permutes(o, o[i], if i + 2 < o.len() { Some(o[i + 2]) } else { None });
    assert(ob.no_duplicates());
    assert forall|k: int| 0 <= k < b.column_order@.len() implies lookup_entry(
        b.column_widths.entries(),
        #[trigger] b.column_order@[k]@,
    ) is Some by {
        assert(ob[k] == b.column_order@[k]@);
        let src = if k == i { i + 1 } else if k == i + 1 { i } else { k };
        assert(ob[k] == o[src]);
        assert(o[src] == a.column_order@[src]@);
    }
    lemma_all_visible(b.column_order@, w);
    assert(visible_names(a.column_order@, w).len() == o.len());
    assert(b.column_widths.entries() == w);
    assert(b.reorder_target_idx == i + 1);
    assert(b.column_order@[i + 1]@ == ob[i + 1]);
    assert(ob[i + 1] == o[i]);
    lemma_position_at(ob, i + 1);
    assert(left_shift_moves(b));
    assert(b.column_order@[i]@ == ob[i]);
    lemma_move_left_swaps(ob, i);
    assert(swapped(ob, i) =~= o);
}

/// A refresh keeps the cursor on its job: after `update` and then
/// `restore_state` with the state that `update` returned, the cursor is on a
/// row of the job it was on before, whenever that job is still shown.
pub proof fn lemma_refresh_keeps_selected_job(
    a: JobsView,
    b: JobsView,
    c: CapturedState,
    d: JobsView,
    jobs: Seq<Job>,
    user: Seq<char>,
)
    requires
        updated(a, b, jobs, user, c),
        restored(b, d, c),
        selected_spec(a) is Some,
        job_ids(b.last_jobs@).contains(selected_spec(a)->0.job_id@),
        b.last_jobs@.len() <= usize::MAX,
    ensures
        selected_spec(d) matches Some(k) && k.job_id@ == selected_spec(a)->0.job_id@,
{
    let id = selected_spec(a)->0.job_id@;
    let ids = job_ids(b.last_jobs@);
    lemma_first_key_found(ids, id);
    let i = first_key_position(ids, id)->0;
    assert(ids[i] == b.last_jobs@[i].job_id@);
    assert(i as usize as int == i);
    assert(d.table_state@.0 == Some(i as usize));
}

} // verus!
