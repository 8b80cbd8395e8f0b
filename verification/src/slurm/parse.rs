//! Pure parsers for Slurm CLI output. No I/O lives here.

use crate::slurm::model::{ClusterSummary, Job, Node};
use crate::strmap::{insert_entry, lookup_entry, StrMap};
use crate::text::{
    chars_of, is_blank, lemma_split_nonempty, parse_i32, parse_signed_spec, parse_u32, parse_u32_spec,
    parse_u64, parse_u64_spec, split_char, split_once_char, split_once_seq, split_seq,
    split_whitespace, starts_with, starts_with_seq, str_eq, strip_prefix, to_string, to_upper,
    trim, trim_bounds, trim_seq, uppercase, words_seq, string_from_range,
};
use vstd::prelude::*;
use vstd::wrapping::u32_specs::wrapping_add;

verus! {

/// Shared `squeue` format string. The field count is fixed at 12; any change
/// here must be matched in `parse_squeue_row`.
pub const SQUEUE_FMT: &'static str = "%i|%j|%u|%T|%P|%D|%C|%M|%l|%R|%N|%q";

/// Shared `sinfo` format string for the Partitions view.
pub const SINFO_PARTITION_FMT: &'static str = "%P|%a|%l|%D|%T|%N";

/// Shared `sinfo -N` format string for per-node rows, matched by `parse_node_row`.
pub const SINFO_NODE_FMT: &'static str = "%N|%T|%P|%c|%C|%m|%e|%O|%G";

// ── squeue / sinfo rows ─────────────────────────────────────────────────────

/// The `qos` field of a job: `N/A` and `(null)` become empty, anything else is kept.
pub open spec fn normalize_qos(raw: Seq<char>) -> Seq<char> {
    if raw == "N/A"@ || raw == "(null)"@ {
        Seq::empty()
    } else {
        raw
    }
}

/// Whether `j` holds the first twelve pipe-separated fields `parts` of a squeue row.
pub open spec fn job_from_fields(j: Job, parts: Seq<Seq<char>>) -> bool {
    &&& j.job_id@ == parts[0]
    &&& j.name@ == parts[1]
    &&& j.user@ == parts[2]
    &&& j.state@ == parts[3]
    &&& j.partition@ == parts[4]
    &&& j.nodes@ == parts[5]
    &&& j.num_nodes@ == parts[5]
    &&& j.num_cpus@ == parts[6]
    &&& j.time_used@ == parts[7]
    &&& j.time_limit@ == parts[8]
    &&& j.reason@ == parts[9]
    &&& j.nodelist@ == parts[10]
    &&& j.qos@ == normalize_qos(parts[11])
}

/// Parse one squeue row produced with `SQUEUE_FMT` into a `Job`.
///
/// Returns `None` for malformed rows (fewer than 12 pipe-separated fields)
/// so callers can keep going on partial output.
pub fn parse_squeue_row(line: &str) -> (r: Option<Job>)
    ensures
        r is None <==> split_seq(line@, '|').len() < 12,
        r matches Some(j) ==> job_from_fields(j, split_seq(line@, '|')),
{
    let parts = split_char(line, '|');
    if parts.len() < 12 {
        return None;
    }
    let qos_raw = &parts[11];
    let qos = if str_eq(qos_raw.as_str(), "N/A") || str_eq(qos_raw.as_str(), "(null)") {
        String::new()
    } else {
        qos_raw.clone()
    };
    Some(
        Job {
            job_id: parts[0].clone(),
            name: parts[1].clone(),
            user: parts[2].clone(),
            state: parts[3].clone(),
            partition: parts[4].clone(),
            nodes: parts[5].clone(),
            num_nodes: parts[5].clone(),
            num_cpus: parts[6].clone(),
            time_used: parts[7].clone(),
            time_limit: parts[8].clone(),
            reason: parts[9].clone(),
            nodelist: parts[10].clone(),
            qos,
        },
    )
}

/// Whether `c` holds the first six pipe-separated fields `parts` of an sinfo partition row.
pub open spec fn summary_from_fields(c: ClusterSummary, parts: Seq<Seq<char>>) -> bool {
    &&& c.partition@ == parts[0]
    &&& c.avail@ == parts[1]
    &&& c.timelimit@ == parts[2]
    &&& c.nodes@ == parts[3]
    &&& c.state@ == parts[4]
    &&& c.nodelist@ == parts[5]
}

/// Parse one sinfo row for partition data into a `ClusterSummary`.
///
/// Returns `None` for malformed rows (fewer than 6 pipe-separated fields).
pub fn parse_partition_row(line: &str) -> (r: Option<ClusterSummary>)
    ensures
        r is None <==> split_seq(line@, '|').len() < 6,
        r matches Some(c) ==> summary_from_fields(c, split_seq(line@, '|')),
{
    let parts = split_char(line, '|');
    if parts.len() < 6 {
        return None;
    }
    Some(
        ClusterSummary {
            partition: parts[0].clone(),
            avail: parts[1].clone(),
            timelimit: parts[2].clone(),
            nodes: parts[3].clone(),
            state: parts[4].clone(),
            nodelist: parts[5].clone(),
        },
    )
}

// ── GPU counts ──────────────────────────────────────────────────────────────

/// For each non-overlapping match of the regular expression `pattern` in
/// `text`, left to right, the text of its first capture group.
pub uninterp spec fn all_captures(pattern: Seq<char>, text: Seq<char>) -> Seq<Seq<char>>;

/// One GPU group of a GRES string, with or without a GPU type:
/// `\bgpu:(?:[^:,()\s]+:)?(\d+)`.
pub open spec fn gres_gpu_pattern() -> Seq<char> {
    "\\bgpu:(?:[^:,()\\s]+:)?(\\d+)"@
}

/// The counts of the GPU groups of a GRES string, left to right.
pub open spec fn gpu_count_captures(gres: Seq<char>) -> Seq<Seq<char>> {
    all_captures(gres_gpu_pattern(), gres)
}

/// The text of the first capture group of the leftmost match of the regular
/// expression `pattern` in `text`, if there is a match.
pub uninterp spec fn first_capture(pattern: Seq<char>, text: Seq<char>) -> Option<Seq<char>>;

/// The GPUs allocated in a node's `AllocTRES` field: `gres/gpu=(\d+)`.
pub open spec fn alloc_gpu_pattern() -> Seq<char> {
    "gres/gpu=(\\d+)"@
}

/// The GPUs requested in a job's `TRES` field, with or without a GPU type:
/// `gres/gpu(?::[^=]+)?=(\d+)`.
pub open spec fn requested_gpu_pattern() -> Seq<char> {
    "gres/gpu(?::[^=]+)?=(\\d+)"@
}

/// Compiles `pattern` with `regex::Regex::new` and runs
/// `Regex::captures_iter` over `text`, returning group 1 of every match; the
/// contract names that list. The pattern it is given compiles, and its
/// group 1 takes part in every match.
#[verifier::external_body]
fn gpu_count_fields(pattern: &str, text: &str) -> (r: Vec<String>)
    requires
        pattern@ == gres_gpu_pattern(),
    ensures
        r.deep_view() == all_captures(pattern@, text@),
{
    let re = regex::Regex::new(pattern).unwrap();
    re.captures_iter(text).map(|cap| cap[1].to_string()).collect()
}

/// Compiles `pattern` with `regex::Regex::new` and runs `Regex::captures`
/// over `text`, returning group 1 of the leftmost match; the contract names
/// that value. Both patterns it is given compile, and their group 1 takes
/// part in every match.
#[verifier::external_body]
pub(crate) fn gpu_capture(pattern: &str, text: &str) -> (r: Option<String>)
    requires
        pattern@ == alloc_gpu_pattern() || pattern@ == requested_gpu_pattern(),
    ensures
        match r {
            Some(s) => Some(s@),
            None => None,
        } == first_capture(pattern@, text@),
{
    let re = regex::Regex::new(pattern).unwrap();
    re.captures(text).map(|cap| cap[1].to_string())
}

/// The wrapping sum of the fields that parse as `u32`; fields that do not
/// parse are skipped.
pub open spec fn sum_u32_fields(fields: Seq<Seq<char>>) -> u32
    decreases fields.len(),
{
    if fields.len() == 0 {
        0
    } else {
        let prev = sum_u32_fields(fields.drop_last());
        match parse_u32_spec(fields.last()) {
            Some(n) => wrapping_add(prev, n),
            None => prev,
        }
    }
}

/// The total GPU count of a GRES string: the sum of the counts of its
/// `gpu:` groups.
pub open spec fn gpu_count_spec(gres: Seq<char>) -> u32 {
    sum_u32_fields(gpu_count_captures(gres))
}

/// The wrapping sum of the fields that parse as `u32`, skipping the others.
pub fn sum_gpu_fields(fields: &Vec<String>) -> (r: u32)
    ensures
        r == sum_u32_fields(fields.deep_view()),
{
    let mut total: u32 = 0;
    let mut i: usize = 0;
    while i < fields.len()
        invariant
            i <= fields@.len(),
            total == sum_u32_fields(fields.deep_view().take(i as int)),
        decreases fields@.len() - i,
    {
        assert(fields.deep_view().take(i + 1).drop_last() =~= fields.deep_view().take(i as int));
        assert(fields.deep_view().take(i + 1).last() == fields[i as int]@);
        match parse_u32(fields[i].as_str()) {
            Some(n) => {
                total = total.wrapping_add(n);
            },
            None => {},
        }
        i = i + 1;
    }
    assert(fields.deep_view().take(fields@.len() as int) =~= fields.deep_view());
    total
}

/// Extract the total GPU count from a GRES string.
///
/// Sums across multiple `gpu:` groups, e.g. `gpu:a100:4,gpu:b100:2` gives 6.
/// Single-group strings (`gpu:4`, `gpu:a100:4`, `gpu:a100:4(IDX:...)`) give
/// their count. Empty, non-GPU and `(null)` inputs give 0.
pub fn parse_gpu_count(gres_str: &str) -> (r: u32)
    ensures
        r == gpu_count_spec(gres_str@),
{
    let fields = gpu_count_fields("\\bgpu:(?:[^:,()\\s]+:)?(\\d+)", gres_str);
    sum_gpu_fields(&fields)
}

/// The text of `s` after its first `prefix.len()` characters.
pub open spec fn after(s: Seq<char>, prefix: Seq<char>) -> Seq<char> {
    s.subrange(prefix.len() as int, s.len() as int)
}

/// One token of `scontrol show nodes` output applied to the state
/// (current node name, node → allocated GPUs).
pub open spec fn gpus_alloc_step(
    st: (Seq<char>, Seq<(Seq<char>, u32)>),
    tok: Seq<char>,
) -> (Seq<char>, Seq<(Seq<char>, u32)>) {
    let node = st.0;
    let es = st.1;
    if starts_with_seq(tok, "NodeName="@) {
        (after(tok, "NodeName="@), es)
    } else if starts_with_seq(tok, "AllocTRES="@) && node.len() > 0 {
        (node, alloc_capture_step(es, node, first_capture(alloc_gpu_pattern(), after(tok, "AllocTRES="@))))
    } else if starts_with_seq(tok, "GresUsed="@) && node.len() > 0 {
        if lookup_entry(es, node) is None && gpu_count_spec(after(tok, "GresUsed="@)) > 0 {
            (node, insert_entry(es, node, gpu_count_spec(after(tok, "GresUsed="@))))
        } else {
            st
        }
    } else {
        st
    }
}

/// The node → GPUs entries after a node's `AllocTRES` capture: a count that
/// parses is stored under the node; otherwise nothing changes.
pub open spec fn alloc_capture_step(
    es: Seq<(Seq<char>, u32)>,
    node: Seq<char>,
    capture: Option<Seq<char>>,
) -> Seq<(Seq<char>, u32)> {
    match capture {
        Some(c) => match parse_u32_spec(c) {
            Some(n) => insert_entry(es, node, n),
            None => es,
        },
        None => es,
    }
}

/// Records the GPU count captured from a node's `AllocTRES` field.
pub fn record_alloc_capture(result: &mut StrMap<u32>, node: &str, capture: Option<String>)
    ensures
        final(result).entries() == alloc_capture_step(
            old(result).entries(),
            node@,
            match capture {
                Some(c) => Some(c@),
                None => None,
            },
        ),
{
    match capture {
        Some(count_str) => {
            match parse_u32(count_str.as_str()) {
                Some(count) => {
                    result.insert(to_string(node), count);
                },
                None => {},
            }
        },
        None => {},
    }
}

/// The state after reading all of `toks`.
pub open spec fn gpus_alloc_fold(toks: Seq<Seq<char>>) -> (Seq<char>, Seq<(Seq<char>, u32)>)
    decreases toks.len(),
{
    if toks.len() == 0 {
        (Seq::empty(), Seq::empty())
    } else {
        gpus_alloc_step(gpus_alloc_fold(toks.drop_last()), toks.last())
    }
}

/// Parse allocated GPUs from `scontrol show nodes` output.
///
/// Returns a map of node_name → gpus_allocated.
/// Reads AllocTRES (present in Slurm 24.x) and falls back to GresUsed
/// (older Slurm versions).
pub fn parse_gpus_alloc(scontrol_output: &str) -> (r: StrMap<u32>)
    ensures
        r.entries() == gpus_alloc_fold(words_seq(scontrol_output@)).1,
{
    let toks = split_whitespace(scontrol_output);
    let mut result: StrMap<u32> = StrMap::new();
    let mut node_name = String::new();
    let mut i: usize = 0;
    while i < toks.len()
        invariant
            i <= toks@.len(),
            toks.deep_view() == words_seq(scontrol_output@),
            (node_name@, result.entries()) == gpus_alloc_fold(toks.deep_view().take(i as int)),
        decreases toks@.len() - i,
    {
        let ghost pre = toks.deep_view().take(i as int);
        assert(toks.deep_view().take(i + 1).drop_last() =~= pre);
        let tok = &toks[i];
        assert(toks.deep_view().take(i + 1).last() == tok@);
        let node_empty = node_name.as_str().is_empty();
        match strip_prefix(tok.as_str(), "NodeName=") {
            Some(name) => {
                assert(name@ =~= after(tok@, "NodeName="@));
                node_name = name;
            },
            None => {
                if starts_with(tok.as_str(), "AllocTRES=") && !node_empty {
                    let value_part = match strip_prefix(tok.as_str(), "AllocTRES=") {
                        Some(v) => v,
                        None => String::new(),
                    };
                    assert(value_part@ =~= after(tok@, "AllocTRES="@));
                    let capture = gpu_capture("gres/gpu=(\\d+)", value_part.as_str());
                    record_alloc_capture(&mut result, node_name.as_str(), capture);
                } else if starts_with(tok.as_str(), "GresUsed=") && !node_empty {
                    if !result.contains_key(node_name.as_str()) {
                        let value_part = match strip_prefix(tok.as_str(), "GresUsed=") {
                            Some(v) => v,
                            None => String::new(),
                        };
                        assert(value_part@ =~= after(tok@, "GresUsed="@));
                        let count = parse_gpu_count(value_part.as_str());
                        if count > 0 {
                            result.insert(node_name.clone(), count);
                        }
                    }
                }
            },
        }
        i = i + 1;
    }
    assert(toks.deep_view().take(toks@.len() as int) =~= toks.deep_view());
    result
}

// ── Durations and key/value output ─────────────────────────────────────────

/// The total seconds of a `[D-]HH:MM:SS` / `MM:SS` / `SS` duration, as an
/// unbounded integer, or `None` when the text is malformed.  Empty and `"0"`
/// (after trimming) are zero.
pub open spec fn duration_value(s: Seq<char>) -> Option<int> {
    let t = trim_seq(s);
    if t.len() == 0 || t == seq!['0'] {
        Some(0)
    } else {
        let (day_ok, days, time_part) = match split_once_seq(t, '-') {
            Some((d, rest)) => match parse_u64_spec(d) {
                Some(n) => (true, n as int, rest),
                None => (false, 0int, t),
            },
            None => (true, 0int, t),
        };
        let parts = split_seq(time_part, ':');
        if !day_ok {
            None
        } else if parts.len() == 3 {
            match (parse_u64_spec(parts[0]), parse_u64_spec(parts[1]), parse_u64_spec(parts[2])) {
                (Some(h), Some(m), Some(sec)) => Some(days * 86400 + h * 3600 + m * 60 + sec),
                _ => None,
            }
        } else if parts.len() == 2 {
            match (parse_u64_spec(parts[0]), parse_u64_spec(parts[1])) {
                (Some(m), Some(sec)) => Some(days * 86400 + m * 60 + sec),
                _ => None,
            }
        } else if parts.len() == 1 {
            match parse_u64_spec(parts[0]) {
                Some(sec) => Some(days * 86400 + sec),
                None => None,
            }
        } else {
            None
        }
    }
}

/// Whether the duration in `s`, when well formed, fits in a `u64`.
pub open spec fn duration_fits(s: Seq<char>) -> bool {
    duration_value(s) matches Some(n) ==> n <= u64::MAX
}

/// Whether `parse_slurm_duration` can be called on `s`: its total, when
/// well formed, fits in a `u64`.
pub fn slurm_duration_fits(s: &str) -> (r: bool)
    ensures
        r == duration_fits(s@),
{
    let t = trim(s);
    let tv = chars_of(t.as_str());
    if tv.len() == 0 || (tv.len() == 1 && tv[0] == '0') {
        assert(tv@.len() == 1 ==> tv@ =~= seq!['0']);
        return true;
    }
    assert(!(tv@ =~= seq!['0']) || tv@.len() == 1);
    let (day_ok, days, time_part): (bool, u64, String) = match split_once_char(t.as_str(), '-') {
        Some((d, rest)) => match parse_u64(d.as_str()) {
            Some(n) => (true, n, rest),
            None => (false, 0, t.clone()),
        },
        None => (true, 0, t.clone()),
    };
    if !day_ok {
        return true;
    }
    let parts = split_char(time_part.as_str(), ':');
    if parts.len() == 3 {
        match (parse_u64(parts[0].as_str()), parse_u64(parts[1].as_str()), parse_u64(parts[2].as_str())) {
            (Some(h), Some(m), Some(sec)) => {
                (days as u128) * 86400 + (h as u128) * 3600 + (m as u128) * 60 + (sec as u128)
                    <= 0xffff_ffff_ffff_ffff
            },
            _ => true,
        }
    } else if parts.len() == 2 {
        match (parse_u64(parts[0].as_str()), parse_u64(parts[1].as_str())) {
            (Some(m), Some(sec)) => (days as u128) * 86400 + (m as u128) * 60 + (sec as u128)
                <= 0xffff_ffff_ffff_ffff,
            _ => true,
        }
    } else if parts.len() == 1 {
        match parse_u64(parts[0].as_str()) {
            Some(sec) => (days as u128) * 86400 + (sec as u128) <= 0xffff_ffff_ffff_ffff,
            None => true,
        }
    } else {
        true
    }
}

/// Parse Slurm HH:MM:SS (or D-HH:MM:SS) duration string to total seconds.
///
/// Returns `Some(0)` for empty or "0" input, `None` for malformed input.
pub fn parse_slurm_duration(s: &str) -> (r: Option<u64>)
    requires
        duration_fits(s@),
    ensures
        match r {
            Some(n) => Some(n as int),
            None => None,
        } == duration_value(s@),
{
    let t = trim(s);
    let tv = chars_of(t.as_str());
    if tv.len() == 0 || (tv.len() == 1 && tv[0] == '0') {
        assert(tv@.len() == 1 ==> tv@ =~= seq!['0']);
        return Some(0);
    }
    assert(!(tv@ =~= seq!['0']) || tv@.len() == 1);
    let (day_ok, days, time_part): (bool, u64, String) = match split_once_char(t.as_str(), '-') {
        Some((d, rest)) => match parse_u64(d.as_str()) {
            Some(n) => (true, n, rest),
            None => (false, 0, t.clone()),
        },
        None => (true, 0, t.clone()),
    };
    if !day_ok {
        return None;
    }
    let parts = split_char(time_part.as_str(), ':');
    if parts.len() == 3 {
        match (parse_u64(parts[0].as_str()), parse_u64(parts[1].as_str()), parse_u64(parts[2].as_str())) {
            (Some(h), Some(m), Some(sec)) => {
                assert(days * 86400 + h * 3600 + m * 60 + sec <= u64::MAX);
                Some(days * 86400 + h * 3600 + m * 60 + sec)
            },
            _ => None,
        }
    } else if parts.len() == 2 {
        match (parse_u64(parts[0].as_str()), parse_u64(parts[1].as_str())) {
            (Some(m), Some(sec)) => {
                assert(days * 86400 + m * 60 + sec <= u64::MAX);
                Some(days * 86400 + m * 60 + sec)
            },
            _ => None,
        }
    } else if parts.len() == 1 {
        match parse_u64(parts[0].as_str()) {
            Some(sec) => {
                assert(days * 86400 + sec <= u64::MAX);
                Some(days * 86400 + sec)
            },
            None => None,
        }
    } else {
        None
    }
}

/// The `key=value` pairs of `toks`, each token split at its first `=`,
/// later keys overwriting earlier values in place.
pub open spec fn kv_fold(toks: Seq<Seq<char>>) -> Seq<(Seq<char>, Seq<char>)>
    decreases toks.len(),
{
    if toks.len() == 0 {
        Seq::empty()
    } else {
        let prev = kv_fold(toks.drop_last());
        match split_once_seq(toks.last(), '=') {
            Some((k, v)) => insert_entry(prev, k, v),
            None => prev,
        }
    }
}

/// Parse key=value pairs from scontrol output.
///
/// Tokens without '=' are silently skipped.
pub fn parse_scontrol_kv(output: &str) -> (r: StrMap<String>)
    ensures
        kv_entries_match(r.entries(), kv_fold(words_seq(output@))),
{
    let toks = split_whitespace(output);
    let mut result: StrMap<String> = StrMap::new();
    let mut i: usize = 0;
    while i < toks.len()
        invariant
            i <= toks@.len(),
            toks.deep_view() == words_seq(output@),
            kv_entries_match(result.entries(), kv_fold(toks.deep_view().take(i as int))),
        decreases toks@.len() - i,
    {
        assert(toks.deep_view().take(i + 1).drop_last() =~= toks.deep_view().take(i as int));
        assert(toks.deep_view().take(i + 1).last() == toks@[i as int]@);
        match split_once_char(toks[i].as_str(), '=') {
            Some((k, v)) => {
                let ghost before = result.entries();
                let ghost kv_before = kv_fold(toks.deep_view().take(i as int));
                result.insert(k, v);
                proof {
                    lemma_kv_insert(before, kv_before, k@, v);
                }
            },
            None => {},
        }
        i = i + 1;
    }
    assert(toks.deep_view().take(toks@.len() as int) =~= toks.deep_view());
    result
}

/// Whether the entries with `String` values hold exactly the character entries `kv`.
pub open spec fn kv_entries_match(es: Seq<(Seq<char>, String)>, kv: Seq<(Seq<char>, Seq<char>)>) -> bool {
    es.len() == kv.len() && forall|i: int|
        0 <= i < es.len() ==> (#[trigger] es[i]).0 == kv[i].0 && es[i].1@ == kv[i].1
}

proof fn lemma_kv_insert(
    es: Seq<(Seq<char>, String)>,
    kv: Seq<(Seq<char>, Seq<char>)>,
    k: Seq<char>,
    v: String,
)
    requires
        kv_entries_match(es, kv),
    ensures
        kv_entries_match(insert_entry(es, k, v), insert_entry(kv, k, v@)),
    decreases es.len(),
{
    if es.len() > 0 {
        assert(es[0].0 == kv[0].0);
        if es[0].0 != k {
            assert(kv_entries_match(es.drop_first(), kv.drop_first())) by {
                assert forall|i: int| 0 <= i < es.drop_first().len() implies (#[trigger] es.drop_first()[i]).0
                    == kv.drop_first()[i].0 && es.drop_first()[i].1@ == kv.drop_first()[i].1 by {
                    assert(es.drop_first()[i] == es[i + 1]);
                }
            }
            lemma_kv_insert(es.drop_first(), kv.drop_first(), k, v);
            let a = insert_entry(es, k, v);
            let b = insert_entry(kv, k, v@);
            assert forall|i: int| 0 <= i < a.len() implies (#[trigger] a[i]).0 == b[i].0 && a[i].1@
                == b[i].1 by {
                if i > 0 {
                    assert(a[i] == insert_entry(es.drop_first(), k, v)[i - 1]);
                    assert(b[i] == insert_entry(kv.drop_first(), k, v@)[i - 1]);
                }
            }
        }
    }
}

// ── Null sentinels and display ──────────────────────────────────────────────

/// Slurm null sentinels treated as "not provided": `""`, `(null)`, `N/A`, `None`, `none`.
pub open spec fn is_null_sentinel(t: Seq<char>) -> bool {
    t == ""@ || t == "(null)"@ || t == "N/A"@ || t == "None"@ || t == "none"@
}

fn null_sentinel(t: &str) -> (r: bool)
    ensures
        r == is_null_sentinel(t@),
{
    str_eq(t, "") || str_eq(t, "(null)") || str_eq(t, "N/A") || str_eq(t, "None") || str_eq(
        t,
        "none",
    )
}

/// Whether a value carries real Slurm content (not a null sentinel).
pub open spec fn present_spec(value: Option<Seq<char>>) -> bool {
    match value {
        None => false,
        Some(v) => !is_null_sentinel(trim_seq(v)),
    }
}

/// Check if a value carries real Slurm content (not a null sentinel).
pub fn is_present(value: Option<&str>) -> (r: bool)
    ensures
        r == present_spec(
            match value {
                Some(v) => Some(v@),
                None => None,
            },
        ),
{
    match value {
        None => false,
        Some(v) => {
            let t = trim(v);
            !null_sentinel(t.as_str())
        },
    }
}

/// How a value is shown: trimmed, or `(unavailable)` when it is a null sentinel.
pub open spec fn display_spec(value: Option<Seq<char>>) -> Seq<char> {
    match value {
        Some(v) => if !is_null_sentinel(trim_seq(v)) {
            trim_seq(v)
        } else {
            "(unavailable)"@
        },
        None => "(unavailable)"@,
    }
}

/// Format a value for display, mapping nulls to "(unavailable)".
pub fn display(value: Option<&str>) -> (r: String)
    ensures
        r@ == display_spec(
            match value {
                Some(v) => Some(v@),
                None => None,
            },
        ),
{
    match value {
        Some(v) => {
            let t = trim(v);
            if !null_sentinel(t.as_str()) {
                t
            } else {
                to_string("(unavailable)")
            }
        },
        None => to_string("(unavailable)"),
    }
}

// ── Node state tokens ───────────────────────────────────────────────────────

/// Slurm node-state decoration suffixes: `*-+~#@!%$`.
pub open spec fn is_state_suffix(c: char) -> bool {
    c == '*' || c == '-' || c == '+' || c == '~' || c == '#' || c == '@' || c == '!' || c == '%'
        || c == '$'
}

/// `s` without its trailing decoration suffixes.
pub open spec fn strip_state_suffixes(s: Seq<char>) -> Seq<char>
    decreases s.len(),
{
    if s.len() > 0 && is_state_suffix(s.last()) {
        strip_state_suffixes(s.drop_last())
    } else {
        s
    }
}

/// `s` trimmed, without decoration suffixes, then uppercased.
pub open spec fn node_state_token_spec(s: Seq<char>) -> Seq<char> {
    uppercase(strip_state_suffixes(trim_seq(s)))
}

/// `s` trimmed and without trailing decoration suffixes.
pub fn strip_state_token(s: &str) -> (r: String)
    ensures
        r@ == strip_state_suffixes(trim_seq(s@)),
{
    let v = chars_of(s);
    let (lo, hi) = trim_bounds(&v);
    let mut j = hi;
    while j > lo && is_state_char(v[j - 1])
        invariant
            lo <= j <= hi <= v@.len(),
            strip_state_suffixes(v@.subrange(lo as int, hi as int)) == strip_state_suffixes(
                v@.subrange(lo as int, j as int),
            ),
        decreases j,
    {
        assert(v@.subrange(lo as int, j as int).drop_last() =~= v@.subrange(lo as int, j - 1));
        j = j - 1;
    }
    string_from_range(&v, lo, j)
}

fn is_state_char(c: char) -> (r: bool)
    ensures
        r == is_state_suffix(c),
{
    c == '*' || c == '-' || c == '+' || c == '~' || c == '#' || c == '@' || c == '!' || c == '%'
        || c == '$'
}

/// Strip Slurm decoration suffixes and uppercase the bare token.
///
/// Decoration suffixes: `*-+~#@!%$`
pub fn normalize_node_state_token(state: &str) -> (r: String)
    ensures
        r@ == node_state_token_spec(state@),
{
    let stripped = strip_state_token(state);
    to_upper(stripped.as_str())
}

/// Parse a numeric Slurm field; return `None` on any failure.
pub fn safe_int(value: Option<&str>) -> (r: Option<i32>)
    ensures
        r matches Some(n) ==> value matches Some(v) && parse_signed_spec(
            trim_seq(v@),
            i32::MIN as int,
            i32::MAX as int,
        ) == Some(n as int),
        r is None ==> (value is None || (value matches Some(v) && (trim_seq(v@).len() == 0
            || trim_seq(v@) == "?"@ || parse_signed_spec(
            trim_seq(v@),
            i32::MIN as int,
            i32::MAX as int,
        ) is None))),
{
    match value {
        None => None,
        Some(v) => {
            let t = trim(v);
            if is_blank(t.as_str()) || str_eq(t.as_str(), "?") {
                None
            } else {
                parse_i32(t.as_str())
            }
        },
    }
}

// ── sinfo node rows ─────────────────────────────────────────────────────────

/// Whether `n` is the node described by the nine pipe-separated fields
/// `parts` of an `SINFO_NODE_FMT` row (name, state, partition, CPUs,
/// allocated/idle/other/total CPUs, memory, free memory, load, GRES), with the
/// allocated GPUs looked up in `alloc`.
pub open spec fn node_from_fields(n: Node, parts: Seq<Seq<char>>, alloc: Seq<(Seq<char>, u32)>) -> bool {
    &&& n.name@ == parts[0]
    &&& n.state@ == parts[1]
    &&& n.partition@ == parts[2]
    &&& n.cpus_total@ == parts[3]
    &&& n.cpus_alloc@ == split_seq(parts[4], '/')[0]
    &&& n.memory_total@ == parts[5]
    &&& n.memory_free@ == parts[6]
    &&& n.load@ == parts[7]
    &&& n.gpu_total == gpu_count_spec(parts[8])
    &&& n.gpu_alloc == match lookup_entry(alloc, parts[0]) {
        Some(g) => g,
        None => 0u32,
    }
}

/// Parse one `SINFO_NODE_FMT` row into a `Node`, taking allocated GPU counts
/// from `gpus_alloc`.  Returns `None` for rows with fewer than nine fields.
pub fn parse_node_row(line: &str, gpus_alloc: &StrMap<u32>) -> (r: Option<Node>)
    ensures
        r is None <==> split_seq(line@, '|').len() < 9,
        r matches Some(n) ==> node_from_fields(n, split_seq(line@, '|'), gpus_alloc.entries()),
{
    let parts = split_char(line, '|');
    if parts.len() < 9 {
        return None;
    }
    let cpu_states = split_char(parts[4].as_str(), '/');
    proof {
        lemma_split_nonempty(parts[4]@, '/');
    }
    let gpu_alloc = match gpus_alloc.get(parts[0].as_str()) {
        Some(g) => *g,
        None => 0,
    };
    Some(
        Node {
            name: parts[0].clone(),
            state: parts[1].clone(),
            partition: parts[2].clone(),
            cpus_total: parts[3].clone(),
            cpus_alloc: cpu_states[0].clone(),
            memory_total: parts[5].clone(),
            memory_free: parts[6].clone(),
            load: parts[7].clone(),
            gpu_total: parse_gpu_count(parts[8].as_str()),
            gpu_alloc,
        },
    )
}

} // verus!
