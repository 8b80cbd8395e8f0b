//! Node detail screen.

use crate::slurm::model::Node;
use crate::strmap::{lemma_lookup_at, lookup_entry, StrMap};
use crate::text::{join, join_seq, push_str, str_eq, to_string};
use crate::views::detail::scroll::Outcome;
use crate::views::keys::{Key, KeyPress};
use vstd::prelude::*;

verus! {

/// The keys shown first, in this order, when present.
pub open spec fn highlight_keys() -> Seq<Seq<char>> {
    seq![
        "NodeName"@,
        "State"@,
        "CPUTot"@,
        "CPUAlloc"@,
        "RealMemory"@,
        "FreeMem"@,
        "OS"@,
        "Arch"@,
        "CfgTRES"@,
        "AllocTRES"@,
        "Reason"@,
    ]
}

/// `  key: value`.
pub open spec fn detail_line(k: Seq<char>, v: Seq<char>) -> Seq<char> {
    "  "@ + k + ": "@ + v
}

/// The lines of the highlighted keys that `data` holds, in highlight order.
pub open spec fn highlight_lines(keys: Seq<Seq<char>>, data: Seq<(Seq<char>, String)>) -> Seq<Seq<char>>
    decreases keys.len(),
{
    if keys.len() == 0 {
        Seq::empty()
    } else {
        let prev = highlight_lines(keys.drop_last(), data);
        match lookup_entry(data, keys.last()) {
            Some(v) => prev.push(detail_line(keys.last(), v@)),
            None => prev,
        }
    }
}

/// The lines of the other entries of `data`, in its order.
pub open spec fn other_lines(data: Seq<(Seq<char>, String)>) -> Seq<Seq<char>>
    decreases data.len(),
{
    if data.len() == 0 {
        Seq::empty()
    } else {
        let prev = other_lines(data.drop_last());
        if highlight_keys().contains(data.last().0) {
            prev
        } else {
            prev.push(detail_line(data.last().0, data.last().1@))
        }
    }
}

/// The lines of a node detail: a title, the highlighted keys, then the rest.
pub open spec fn detail_lines_spec(data: Seq<(Seq<char>, String)>) -> Seq<Seq<char>> {
    seq!["Node Detail\n"@] + highlight_lines(highlight_keys(), data) + other_lines(data)
}

/// An entry that is not highlighted has its line among the other lines.
proof fn lemma_other_line_shown(data: Seq<(Seq<char>, String)>, j: int)
    requires
        0 <= j < data.len(),
        !highlight_keys().contains(data[j].0),
    ensures
        other_lines(data).contains(detail_line(data[j].0, data[j].1@)),
    decreases data.len(),
{
    let prev = other_lines(data.drop_last());
    if j == data.len() - 1 {
        assert(other_lines(data) == prev.push(detail_line(data[j].0, data[j].1@)));
        assert(other_lines(data)[prev.len() as int] == detail_line(data[j].0, data[j].1@));
    } else {
        assert(data.drop_last()[j] == data[j]);
        lemma_other_line_shown(data.drop_last(), j);
        let w = choose|w: int| 0 <= w < prev.len() && prev[w] == detail_line(data[j].0, data[j].1@);
        assert(other_lines(data)[w] == prev[w]);
    }
}

/// A highlighted key that `data` holds has its line among the highlighted
/// lines.
proof fn lemma_highlight_line_shown(keys: Seq<Seq<char>>, data: Seq<(Seq<char>, String)>, i: int)
    requires
        0 <= i < keys.len(),
        lookup_entry(data, keys[i]) is Some,
    ensures
        highlight_lines(keys, data).contains(detail_line(keys[i], lookup_entry(data, keys[i]).unwrap()@)),
    decreases keys.len(),
{
    let prev = highlight_lines(keys.drop_last(), data);
    let line = detail_line(keys[i], lookup_entry(data, keys[i]).unwrap()@);
    if i == keys.len() - 1 {
        assert(highlight_lines(keys, data) == prev.push(line));
        assert(highlight_lines(keys, data)[prev.len() as int] == line);
    } else {
        assert(keys.drop_last()[i] == keys[i]);
        lemma_highlight_line_shown(keys.drop_last(), data, i);
        let w = choose|w: int| 0 <= w < prev.len() && prev[w] == line;
        assert(highlight_lines(keys, data)[w] == prev[w]);
    }
}

/// Every entry of the node data is shown: an entry `k = v` appears as the
/// line `  k: v`, among the highlighted lines when `k` is one of the
/// highlighted keys and among the others otherwise.
pub proof fn lemma_node_detail_shows_every_entry(m: StrMap<String>, j: int)
    requires
        m.wf(),
        0 <= j < m.entries().len(),
    ensures
        detail_lines_spec(m.entries()).contains("  "@ + m.entries()[j].0 + ": "@ + m.entries()[j].1@),
{
    let es = m.entries();
    let k = es[j].0;
    let line = "  "@ + k + ": "@ + es[j].1@;
    let hl = highlight_lines(highlight_keys(), es);
    let ol = other_lines(es);
    let all = detail_lines_spec(es);
    assert(all == seq!["Node Detail\n"@] + hl + ol);
    if highlight_keys().contains(k) {
        let i = choose|i: int| 0 <= i < highlight_keys().len() && highlight_keys()[i] == k;
        lemma_lookup_at(es, k, j);
        lemma_highlight_line_shown(highlight_keys(), es, i);
        let w = choose|w: int| 0 <= w < hl.len() && hl[w] == line;
        assert(all[1 + w] == line);
    } else {
        lemma_other_line_shown(es, j);
        let w = choose|w: int| 0 <= w < ol.len() && ol[w] == line;
        assert(all[1 + hl.len() + w] == line);
    }
}

/// The highlight keys, executable.
fn highlight_key_list() -> (r: Vec<&'static str>)
    ensures
        r@.map_values(|s: &str| s@) == highlight_keys(),
{
    let mut r: Vec<&'static str> = Vec::new();
    r.push("NodeName");
    r.push("State");
    r.push("CPUTot");
    r.push("CPUAlloc");
    r.push("RealMemory");
    r.push("FreeMem");
    r.push("OS");
    r.push("Arch");
    r.push("CfgTRES");
    r.push("AllocTRES");
    r.push("Reason");
    assert(r@.map_values(|s: &str| s@) =~= highlight_keys());
    r
}

fn line_of(k: &str, v: &str) -> (r: String)
    ensures
        r@ == detail_line(k@, v@),
{
    let mut r = to_string("  ");
    push_str(&mut r, k);
    push_str(&mut r, ": ");
    push_str(&mut r, v);
    r
}

/// The lines of a node detail: a title, the highlighted keys that `data`
/// holds, then the other entries in their order.
pub fn build_detail_lines(_node: &Node, data: &StrMap<String>) -> (r: Vec<String>)
    ensures
        r.deep_view() == detail_lines_spec(data.entries()),
{
    let mut lines: Vec<String> = Vec::new();
    lines.push(to_string("Node Detail\n"));
    let ghost head = lines.deep_view();
    assert(head =~= seq!["Node Detail\n"@]);
    let keys = highlight_key_list();
    let ghost kv = keys@.map_values(|s: &str| s@);
    let mut i: usize = 0;
    while i < keys.len()
        invariant
            i <= keys@.len(),
            kv == keys@.map_values(|s: &str| s@),
            kv == highlight_keys(),
            lines.deep_view() == head + highlight_lines(kv.take(i as int), data.entries()),
        decreases keys@.len() - i,
    {
        assert(kv.take(i + 1).drop_last() =~= kv.take(i as int));
        assert(kv.take(i + 1).last() == keys@[i as int]@);
        let ghost before = lines.deep_view();
        match data.get(keys[i]) {
            Some(value) => {
                lines.push(line_of(keys[i], value.as_str()));
                assert(lines.deep_view() =~= before.push(detail_line(keys@[i as int]@, value@)));
            },
            None => {},
        }
        i = i + 1;
    }
    assert(kv.take(keys@.len() as int) =~= kv);
    let ghost mid = lines.deep_view();
    let mut j: usize = 0;
    while j < data.len()
        invariant
            j <= data.entries().len(),
            kv == keys@.map_values(|s: &str| s@),
            kv == highlight_keys(),
            mid == head + highlight_lines(highlight_keys(), data.entries()),
            lines.deep_view() == mid + other_lines(data.entries().take(j as int)),
        decreases data.entries().len() - j,
    {
        assert(data.entries().take(j + 1).drop_last() =~= data.entries().take(j as int));
        let k = data.key_at(j);
        let v = data.value_at(j);
        assert(data.entries().take(j + 1).last() == data.entries()[j as int]);
        let mut highlighted = false;
        let mut m: usize = 0;
        while m < keys.len()
            invariant
                m <= keys@.len(),
                kv == keys@.map_values(|s: &str| s@),
                highlighted == kv.take(m as int).contains(k@),
            decreases keys@.len() - m,
        {
            assert(kv.take(m + 1) =~= kv.take(m as int).push(keys@[m as int]@));
            proof {
                let t = kv.take(m as int);
                let x = keys@[m as int]@;
                if t.push(x).contains(k@) && !t.contains(k@) {
                    let idx = choose|i: int| 0 <= i < t.push(x).len() && t.push(x)[i] == k@;
                    if idx < t.len() {
                        assert(t[idx] == k@);
                    }
                }
                if t.contains(k@) {
                    let idx = choose|i: int| 0 <= i < t.len() && t[i] == k@;
                    assert(t.push(x)[idx] == k@);
                }
                if x == k@ {
                    assert(t.push(x)[t.len() as int] == k@);
                }
            }
            if str_eq(keys[m], k.as_str()) {
                highlighted = true;
            }
            m = m + 1;
        }
        assert(kv.take(keys@.len() as int) =~= kv);
        let ghost before = lines.deep_view();
        if !highlighted {
            lines.push(line_of(k.as_str(), v.as_str()));
            assert(lines.deep_view() =~= before.push(detail_line(k@, v@)));
        }
        j = j + 1;
    }
    assert(data.entries().take(data.entries().len() as int) =~= data.entries());
    lines
}

/// Node detail viewer.
pub struct NodeDetailScreen {
    node: Node,
    data: StrMap<String>,
    scroll_offset: usize,
    lines: Vec<String>,
}

impl NodeDetailScreen {
    /// The lines shown.
    pub closed spec fn shown_lines(&self) -> Seq<Seq<char>> {
        self.lines.deep_view()
    }

    /// The first line shown.
    pub closed spec fn offset(&self) -> usize {
        self.scroll_offset
    }

    /// The node's name.
    pub closed spec fn node_name(&self) -> Seq<char> {
        self.node.name@
    }

    /// Create a new node detail screen at the top.
    pub fn new(node: Node, data: StrMap<String>) -> (s: Self)
        ensures
            s.shown_lines() == detail_lines_spec(data.entries()),
            s.offset() == 0,
            s.node_name() == node.name@,
    {
        let lines = build_detail_lines(&node, &data);
        NodeDetailScreen { node, data, scroll_offset: 0, lines }
    }

    /// The number of lines.
    pub fn line_count(&self) -> (r: usize)
        ensures
            r == self.shown_lines().len(),
    {
        self.lines.len()
    }

    /// The line at `i`.
    pub fn line(&self, i: usize) -> (r: &str)
        requires
            i < self.shown_lines().len(),
        ensures
            r@ == self.shown_lines()[i as int],
    {
        self.lines[i].as_str()
    }

    /// The first line shown.
    pub fn scroll_offset(&self) -> (r: usize)
        ensures
            r == self.offset(),
    {
        self.scroll_offset
    }

    /// Handle a key: `Esc`/`q` close; arrows and `j`/`k` scroll one line,
    /// page keys ten, never past the last line.
    pub fn handle_key(&mut self, key: KeyPress) -> (r: Outcome)
        ensures
            final(self).shown_lines() == old(self).shown_lines(),
            final(self).node_name() == old(self).node_name(),
            r == (if key.key == Key::Esc || key.key == Key::Char('q') {
                Outcome::Close
            } else {
                Outcome::Nothing
            }),
            final(self).offset() == node_key_offset(
                old(self).offset() as int,
                old(self).shown_lines().len() as int,
                key.key,
            ),
    {
        let max_scroll = self.lines.len().saturating_sub(1);
        match key.key {
            Key::Esc | Key::Char('q') => Outcome::Close,
            Key::Up | Key::Char('k') => {
                self.scroll_offset = self.scroll_offset.saturating_sub(1);
                Outcome::Nothing
            },
            Key::Down | Key::Char('j') => {
                if self.scroll_offset < max_scroll {
                    self.scroll_offset = self.scroll_offset + 1;
                }
                Outcome::Nothing
            },
            Key::PageUp => {
                self.scroll_offset = self.scroll_offset.saturating_sub(10);
                Outcome::Nothing
            },
            Key::PageDown => {
                let next = self.scroll_offset.saturating_add(10);
                self.scroll_offset = if next < max_scroll {
                    next
                } else {
                    max_scroll
                };
                Outcome::Nothing
            },
            _ => Outcome::Nothing,
        }
    }

    /// The text for clipboard copy: the lines joined by newlines.
    pub fn plain_text(&self) -> (r: String)
        ensures
            r@ == join_seq(self.shown_lines(), "\n"@),
    {
        join(&self.lines, "\n")
    }

    /// The label for clipboard copy: `Node <name> Detail`.
    pub fn label(&self) -> (r: String)
        ensures
            r@ == "Node "@ + self.node_name() + " Detail"@,
    {
        let mut r = to_string("Node ");
        push_str(&mut r, self.node.name.as_str());
        push_str(&mut r, " Detail");
        r
    }
}

/// The first line shown after `key`, from `offset` among `len` lines.
pub open spec fn node_key_offset(offset: int, len: int, key: Key) -> int {
    let max = if len > 0 {
        len - 1
    } else {
        0
    };
    if key == Key::Up || key == Key::Char('k') {
        if offset > 1 {
            offset - 1
        } else {
            0
        }
    } else if key == Key::Down || key == Key::Char('j') {
        if offset < max {
            offset + 1
        } else {
            offset
        }
    } else if key == Key::PageUp {
        if offset > 10 {
            offset - 10
        } else {
            0
        }
    } else if key == Key::PageDown {
        let next = if offset + 10 > usize::MAX {
            usize::MAX as int
        } else {
            offset + 10
        };
        if next < max {
            next
        } else {
            max
        }
    } else {
        offset
    }
}

} // verus!
