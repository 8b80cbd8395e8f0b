//! Character-level string helpers with contracts over `Seq<char>`.
//!
//! Slurm output is plain text; every parser in this crate works on the
//! character sequence of its input.  The helpers here give each of the
//! standard string operations the crate relies on (trimming, splitting,
//! substring search, integer parsing and printing) a precise meaning.

use vstd::prelude::*;

verus! {

/// Appending one character to a `String` extends its character sequence by that character.
pub assume_specification[ String::push ](s: &mut String, ch: char)
    ensures
        final(s)@ == old(s)@.push(ch),
;

// ── Whitespace ──────────────────────────────────────────────────────────────

/// The Unicode `White_Space` property, which `str::trim` and
/// `str::split_whitespace` use.
pub open spec fn is_ws(c: char) -> bool {
    let u = c as u32;
    ||| 0x09 <= u <= 0x0d
    ||| u == 0x20
    ||| u == 0x85
    ||| u == 0xa0
    ||| u == 0x1680
    ||| 0x2000 <= u <= 0x200a
    ||| u == 0x2028
    ||| u == 0x2029
    ||| u == 0x202f
    ||| u == 0x205f
    ||| u == 0x3000
}

/// Whether `c` is Unicode whitespace.
pub fn is_whitespace(c: char) -> (r: bool)
    ensures
        r == is_ws(c),
{
    let u = c as u32;
    (0x09 <= u && u <= 0x0d) || u == 0x20 || u == 0x85 || u == 0xa0 || u == 0x1680 || (0x2000
        <= u && u <= 0x200a) || u == 0x2028 || u == 0x2029 || u == 0x202f || u == 0x205f || u
        == 0x3000
}

// ── Conversions ─────────────────────────────────────────────────────────────

/// The characters of `s`, in order.
pub fn chars_of(s: &str) -> (v: Vec<char>)
    ensures
        v@ == s@,
{
    let mut v: Vec<char> = Vec::new();
    for c in it: s.chars()
        invariant
            v@ == it.seq().take(it.index()),
    {
        v.push(c);
    }
    v
}

/// A new string holding `v[lo..hi]`.
pub fn string_from_range(v: &Vec<char>, lo: usize, hi: usize) -> (s: String)
    requires
        lo <= hi <= v@.len(),
    ensures
        s@ == v@.subrange(lo as int, hi as int),
{
    let mut s = String::new();
    let mut i = lo;
    while i < hi
        invariant
            lo <= i <= hi <= v@.len(),
            s@ == v@.subrange(lo as int, i as int),
        decreases hi - i,
    {
        s.push(v[i]);
        i = i + 1;
        assert(s@ =~= v@.subrange(lo as int, i as int));
    }
    s
}

/// A new string holding all of `v`.
pub fn string_from_chars(v: &Vec<char>) -> (s: String)
    ensures
        s@ == v@,
{
    let s = string_from_range(v, 0, v.len());
    assert(v@.subrange(0, v@.len() as int) =~= v@);
    s
}

/// A new string with the characters of `s`.
pub fn to_string(s: &str) -> (r: String)
    ensures
        r@ == s@,
{
    let v = chars_of(s);
    string_from_chars(&v)
}

/// Appends the characters of `t` to `s`.
pub fn push_str(s: &mut String, t: &str)
    ensures
        final(s)@ == old(s)@ + t@,
{
    let ghost start = s@;
    for c in it: t.chars()
        invariant
            s@ == start + it.seq().take(it.index()),
    {
        s.push(c);
        assert(s@ =~= start + it.seq().take(it.index() + 1));
    }
    assert(s@ =~= start + t@);
}

/// `a` followed by `b`.
pub fn concat(a: &str, b: &str) -> (r: String)
    ensures
        r@ == a@ + b@,
{
    let mut r = to_string(a);
    push_str(&mut r, b);
    r
}

/// Whether two strings hold the same characters.
pub fn str_eq(a: &str, b: &str) -> (r: bool)
    ensures
        r == (a@ == b@),
{
    let va = chars_of(a);
    let vb = chars_of(b);
    if va.len() != vb.len() {
        return false;
    }
    let mut i: usize = 0;
    while i < va.len()
        invariant
            va@ == a@,
            vb@ == b@,
            va@.len() == vb@.len(),
            i <= va@.len(),
            forall|k: int| 0 <= k < i ==> va@[k] == vb@[k],
        decreases va@.len() - i,
    {
        if va[i] != vb[i] {
            return false;
        }
        i = i + 1;
    }
    assert(va@ =~= vb@);
    true
}

// ── Trimming ────────────────────────────────────────────────────────────────

/// `s` without its leading whitespace.
pub open spec fn trim_start_seq(s: Seq<char>) -> Seq<char>
    decreases s.len(),
{
    if s.len() > 0 && is_ws(s[0]) {
        trim_start_seq(s.drop_first())
    } else {
        s
    }
}

/// `s` without its trailing whitespace.
pub open spec fn trim_end_seq(s: Seq<char>) -> Seq<char>
    decreases s.len(),
{
    if s.len() > 0 && is_ws(s.last()) {
        trim_end_seq(s.drop_last())
    } else {
        s
    }
}

/// `s` without leading and trailing whitespace, as `str::trim` returns it.
pub open spec fn trim_seq(s: Seq<char>) -> Seq<char> {
    trim_end_seq(trim_start_seq(s))
}

/// Index of the first non-whitespace character of `v[lo..]`, or `v.len()`.
fn skip_ws(v: &Vec<char>, lo: usize) -> (i: usize)
    requires
        lo <= v@.len(),
    ensures
        lo <= i <= v@.len(),
        trim_start_seq(v@.subrange(lo as int, v@.len() as int)) == trim_start_seq(
            v@.subrange(i as int, v@.len() as int),
        ),
        i < v@.len() ==> !is_ws(v@[i as int]),
        forall|k: int| lo <= k < i ==> is_ws(v@[k]),
{
    let mut i = lo;
    while i < v.len() && is_whitespace(v[i])
        invariant
            lo <= i <= v@.len(),
            trim_start_seq(v@.subrange(lo as int, v@.len() as int)) == trim_start_seq(
                v@.subrange(i as int, v@.len() as int),
            ),
            forall|k: int| lo <= k < i ==> is_ws(v@[k]),
        decreases v@.len() - i,
    {
        assert(v@.subrange(i as int, v@.len() as int).drop_first() =~= v@.subrange(
            i + 1,
            v@.len() as int,
        ));
        i = i + 1;
    }
    i
}

/// `hi` lowered past the trailing whitespace of `v[lo..hi]`.
fn back_ws(v: &Vec<char>, lo: usize, hi: usize) -> (j: usize)
    requires
        lo <= hi <= v@.len(),
    ensures
        lo <= j <= hi,
        trim_end_seq(v@.subrange(lo as int, hi as int)) == v@.subrange(lo as int, j as int),
{
    let mut j = hi;
    while j > lo && is_whitespace(v[j - 1])
        invariant
            lo <= j <= hi <= v@.len(),
            trim_end_seq(v@.subrange(lo as int, hi as int)) == trim_end_seq(
                v@.subrange(lo as int, j as int),
            ),
        decreases j,
    {
        assert(v@.subrange(lo as int, j as int).drop_last() =~= v@.subrange(
            lo as int,
            j - 1,
        ));
        j = j - 1;
    }
    j
}

/// The bounds of `trim_seq(v)` inside `v`.
pub fn trim_bounds(v: &Vec<char>) -> (r: (usize, usize))
    ensures
        r.0 <= r.1 <= v@.len(),
        v@.subrange(r.0 as int, r.1 as int) == trim_seq(v@),
{
    let i = skip_ws(v, 0);
    assert(v@.subrange(0, v@.len() as int) =~= v@);
    proof {
        lemma_trim_start_nonws(v@.subrange(i as int, v@.len() as int));
    }
    let j = back_ws(v, i, v.len());
    (i, j)
}

proof fn lemma_trim_start_nonws(s: Seq<char>)
    requires
        s.len() > 0 ==> !is_ws(s[0]),
    ensures
        trim_start_seq(s) == s,
{
}

/// A text that neither starts nor ends with whitespace is its own trim.
pub proof fn lemma_trim_nonws(s: Seq<char>)
    requires
        s.len() > 0,
        !is_ws(s[0]),
        !is_ws(s.last()),
    ensures
        trim_seq(s) == s,
{
    lemma_trim_start_nonws(s);
}

/// `s` without leading and trailing whitespace.
pub fn trim(s: &str) -> (r: String)
    ensures
        r@ == trim_seq(s@),
{
    let v = chars_of(s);
    let (i, j) = trim_bounds(&v);
    string_from_range(&v, i, j)
}

/// Whether `s` is empty after trimming.
pub fn is_blank(s: &str) -> (r: bool)
    ensures
        r == (trim_seq(s@).len() == 0),
{
    let v = chars_of(s);
    let (i, j) = trim_bounds(&v);
    i == j
}

// ── Splitting ───────────────────────────────────────────────────────────────

/// The pieces of `s` between occurrences of `sep`, as `str::split` yields them:
/// `k` separators give `k + 1` pieces, empty ones included.
pub open spec fn split_seq(s: Seq<char>, sep: char) -> Seq<Seq<char>>
    decreases s.len(),
{
    if s.len() == 0 {
        seq![Seq::<char>::empty()]
    } else {
        let prev = split_seq(s.drop_last(), sep);
        if s.last() == sep {
            prev.push(Seq::<char>::empty())
        } else {
            prev.update(prev.len() - 1, prev.last().push(s.last()))
        }
    }
}

pub proof fn lemma_split_nonempty(s: Seq<char>, sep: char)
    ensures
        split_seq(s, sep).len() >= 1,
    decreases s.len(),
{
    if s.len() > 0 {
        lemma_split_nonempty(s.drop_last(), sep);
    }
}

/// The pieces of `s` between occurrences of `sep`.
pub fn split_char(s: &str, sep: char) -> (r: Vec<String>)
    ensures
        r.deep_view() == split_seq(s@, sep),
{
    let v = chars_of(s);
    let mut done: Vec<String> = Vec::new();
    let mut cur = String::new();
    let mut i: usize = 0;
    while i < v.len()
        invariant
            v@ == s@,
            i <= v@.len(),
            done.deep_view().push(cur@) == split_seq(v@.subrange(0, i as int), sep),
        decreases v@.len() - i,
    {
        let ghost prefix = v@.subrange(0, i as int);
        assert(v@.subrange(0, i + 1).drop_last() =~= prefix);
        proof { lemma_split_nonempty(prefix, sep); }
        if v[i] == sep {
            let piece = cur;
            cur = String::new();
            done.push(piece);
            assert(done.deep_view().push(cur@) =~= split_seq(prefix, sep).push(
                Seq::<char>::empty(),
            ));
        } else {
            let ghost old_done = done.deep_view();
            cur.push(v[i]);
            assert(done.deep_view().push(cur@) =~= split_seq(prefix, sep).update(
                split_seq(prefix, sep).len() - 1,
                split_seq(prefix, sep).last().push(v@[i as int]),
            ));
        }
        i = i + 1;
    }
    assert(v@.subrange(0, v@.len() as int) =~= v@);
    done.push(cur);
    done
}

/// Index of the first `c` in `s`, or `-1` when `c` does not occur.
pub open spec fn first_index(s: Seq<char>, c: char) -> int
    decreases s.len(),
{
    if s.len() == 0 {
        -1
    } else if s[0] == c {
        0
    } else {
        let r = first_index(s.drop_first(), c);
        if r < 0 {
            -1
        } else {
            r + 1
        }
    }
}

/// `s` split at the first `sep`, as `str::split_once` returns it.
pub open spec fn split_once_seq(s: Seq<char>, sep: char) -> Option<(Seq<char>, Seq<char>)> {
    let i = first_index(s, sep);
    if i < 0 {
        None
    } else {
        Some((s.subrange(0, i), s.subrange(i + 1, s.len() as int)))
    }
}

/// The first index is found where `c` first occurs.
pub proof fn lemma_first_index(s: Seq<char>, c: char, i: int)
    requires
        0 <= i <= s.len(),
        i < s.len() ==> s[i] == c,
        forall|k: int| 0 <= k < i ==> s[k] != c,
    ensures
        first_index(s, c) == if i < s.len() {
            i
        } else {
            -1
        },
    decreases s.len(),
{
    if s.len() > 0 && i > 0 {
        lemma_first_index(s.drop_first(), c, i - 1);
    }
}

/// How `str::split_once` splits `s` at the first `sep`.
pub open spec fn split_once_spec(s: Seq<char>, sep: char, r: Option<(Seq<char>, Seq<char>)>) -> bool {
    match r {
        None => !s.contains(sep),
        Some((a, b)) => s == a + seq![sep] + b && !a.contains(sep),
    }
}

/// Index of the first `c` in `v[lo..]`, or `v.len()` when there is none.
pub fn find_char_from(v: &Vec<char>, lo: usize, c: char) -> (i: usize)
    requires
        lo <= v@.len(),
    ensures
        lo <= i <= v@.len(),
        i < v@.len() ==> v@[i as int] == c,
        forall|k: int| lo <= k < i ==> v@[k] != c,
{
    let mut i = lo;
    while i < v.len() && v[i] != c
        invariant
            lo <= i <= v@.len(),
            forall|k: int| lo <= k < i ==> v@[k] != c,
        decreases v@.len() - i,
    {
        i = i + 1;
    }
    i
}

/// `s` split at the first `sep`, or `None` when `sep` does not occur.
pub fn split_once_char(s: &str, sep: char) -> (r: Option<(String, String)>)
    ensures
        match r {
            Some((a, b)) => Some((a@, b@)),
            None => None,
        } == split_once_seq(s@, sep),
        split_once_spec(
            s@,
            sep,
            match r {
                Some((a, b)) => Some((a@, b@)),
                None => None,
            },
        ),
{
    let v = chars_of(s);
    let i = find_char_from(&v, 0, sep);
    proof {
        lemma_first_index(v@, sep, i as int);
    }
    if i == v.len() {
        assert forall|k: int| 0 <= k < v@.len() implies v@[k] != sep by {}
        None
    } else {
        let a = string_from_range(&v, 0, i);
        let b = string_from_range(&v, i + 1, v.len());
        assert(v@ =~= a@ + seq![sep] + b@);
        assert(!a@.contains(sep)) by {
            if a@.contains(sep) {
                let k = choose|k: int| 0 <= k < a@.len() && a@[k] == sep;
                assert(v@[k] == sep);
            }
        }
        Some((a, b))
    }
}

/// The maximal runs of non-whitespace characters of `s`, in order, as
/// `str::split_whitespace` yields them.
pub open spec fn words_seq(s: Seq<char>) -> Seq<Seq<char>>
    decreases s.len(),
{
    if s.len() == 0 {
        Seq::empty()
    } else {
        let prev = words_seq(s.drop_last());
        if is_ws(s.last()) {
            prev
        } else if s.len() >= 2 && !is_ws(s[s.len() - 2]) && prev.len() > 0 {
            prev.update(prev.len() - 1, prev.last().push(s.last()))
        } else {
            prev.push(seq![s.last()])
        }
    }
}

/// Every word of `s` is non-empty and free of whitespace.
pub proof fn lemma_words_shape(s: Seq<char>)
    ensures
        forall|k: int| 0 <= k < words_seq(s).len() ==> #[trigger] words_seq(s)[k].len() > 0,
        forall|k: int, m: int|
            0 <= k < words_seq(s).len() && 0 <= m < words_seq(s)[k].len() ==> !is_ws(
                #[trigger] words_seq(s)[k][m],
            ),
        s.len() > 0 && !is_ws(s.last()) ==> words_seq(s).len() > 0 && words_seq(s).last().last()
            == s.last(),
    decreases s.len(),
{
    if s.len() > 0 {
        let p = s.drop_last();
        lemma_words_shape(p);
        let prev = words_seq(p);
        let c = s.last();
        if is_ws(c) {
        } else if s.len() >= 2 && !is_ws(s[s.len() - 2]) && prev.len() > 0 {
            let w = prev.update(prev.len() - 1, prev.last().push(c));
            assert(words_seq(s) == w);
            assert forall|k: int| 0 <= k < w.len() implies #[trigger] w[k].len() > 0 by {
                if k < prev.len() - 1 {
                    assert(w[k] == prev[k]);
                }
            }
            assert forall|k: int, m: int|
                0 <= k < w.len() && 0 <= m < w[k].len() implies !is_ws(#[trigger] w[k][m]) by {
                if k < prev.len() - 1 {
                    assert(w[k] == prev[k]);
                } else if m < prev.last().len() {
                    assert(w[k][m] == prev[k][m]);
                }
            }
        } else {
            let w = prev.push(seq![c]);
            assert(words_seq(s) == w);
            assert forall|k: int| 0 <= k < w.len() implies #[trigger] w[k].len() > 0 by {
                if k < prev.len() {
                    assert(w[k] == prev[k]);
                }
            }
            assert forall|k: int, m: int|
                0 <= k < w.len() && 0 <= m < w[k].len() implies !is_ws(#[trigger] w[k][m]) by {
                if k < prev.len() {
                    assert(w[k] == prev[k]);
                }
            }
        }
    }
}

/// The whitespace-separated words of `s`.
pub fn split_whitespace(s: &str) -> (r: Vec<String>)
    ensures
        r.deep_view() == words_seq(s@),
{
    let v = chars_of(s);
    let mut done: Vec<String> = Vec::new();
    let mut cur = String::new();
    let mut in_word = false;
    let mut i: usize = 0;
    while i < v.len()
        invariant
            v@ == s@,
            i <= v@.len(),
            in_word == (cur@.len() > 0),
            !in_word ==> done.deep_view() == words_seq(v@.subrange(0, i as int)),
            in_word ==> done.deep_view().push(cur@) == words_seq(v@.subrange(0, i as int)),
            in_word <==> (i > 0 && !is_ws(v@[i - 1])),
        decreases v@.len() - i,
    {
        let ghost prefix = v@.subrange(0, i as int);
        let ghost next = v@.subrange(0, i + 1);
        assert(next.drop_last() =~= prefix);
        proof {
            lemma_words_shape(prefix);
        }
        if is_whitespace(v[i]) {
            if in_word {
                let piece = cur;
                cur = String::new();
                done.push(piece);
                in_word = false;
            }
        } else {
            let ghost prev = words_seq(prefix);
            let ghost old_cur = cur@;
            assert(next.last() == v@[i as int]);
            if !in_word {
                assert(i == 0 || is_ws(v@[i - 1]));
                if i >= 1 {
                    assert(next[next.len() - 2] == v@[i - 1]);
                }
                assert(words_seq(next) == prev.push(seq![v@[i as int]]));
            } else {
                assert(next[next.len() - 2] == v@[i - 1]);
                assert(prefix.last() == v@[i - 1]);
                assert(prev.len() > 0);
                assert(prev == done.deep_view().push(old_cur));
                assert(words_seq(next) == prev.update(prev.len() - 1, prev.last().push(v@[i as int])));
            }
            cur.push(v[i]);
            if !in_word {
                assert(cur@ =~= seq![v@[i as int]]);
                assert(done.deep_view().push(cur@) =~= words_seq(next));
            } else {
                assert(prev.last() == old_cur);
                assert(done.deep_view().push(cur@) =~= words_seq(next));
            }
            in_word = true;
        }
        i = i + 1;
    }
    assert(v@.subrange(0, v@.len() as int) =~= v@);
    if in_word {
        done.push(cur);
    }
    done
}

/// The lines of `s` as `str::lines` yields them: pieces between `'\n'`, each
/// with one trailing `'\r'` removed when a `'\n'` follows it, and no final
/// empty piece after a closing `'\n'`.
pub open spec fn lines_seq(s: Seq<char>) -> Seq<Seq<char>> {
    let pieces = split_seq(s, '\n');
    let n = if s.len() > 0 && s.last() == '\n' {
        pieces.len() - 1
    } else if s.len() == 0 {
        0
    } else {
        pieces.len() as int
    };
    Seq::new(
        n as nat,
        |k: int|
            if k < pieces.len() - 1 && pieces[k].len() > 0 && pieces[k].last() == '\r' {
                pieces[k].drop_last()
            } else {
                pieces[k]
            },
    )
}

/// The lines of `s`.
pub fn lines(s: &str) -> (r: Vec<String>)
    ensures
        r.deep_view() == lines_seq(s@),
{
    let pieces = split_char(s, '\n');
    let v = chars_of(s);
    proof {
        lemma_split_nonempty(s@, '\n');
    }
    let n: usize = if v.len() > 0 && v[v.len() - 1] == '\n' {
        pieces.len() - 1
    } else if v.len() == 0 {
        0
    } else {
        pieces.len()
    };
    let ghost target = lines_seq(s@);
    let mut out: Vec<String> = Vec::new();
    let mut k: usize = 0;
    while k < n
        invariant
            n <= pieces@.len(),
            pieces.deep_view() == split_seq(s@, '\n'),
            v@ == s@,
            target == lines_seq(s@),
            target.len() == n,
            k <= n,
            out.deep_view() == target.take(k as int),
        decreases n - k,
    {
        let p = &pieces[k];
        let pv = chars_of(p.as_str());
        assert(pv@ == pieces.deep_view()[k as int]);
        let line = if k + 1 < pieces.len() && pv.len() > 0 && pv[pv.len() - 1] == '\r' {
            string_from_range(&pv, 0, pv.len() - 1)
        } else {
            string_from_chars(&pv)
        };
        assert(line@ =~= target[k as int]);
        let ghost old_out = out.deep_view();
        out.push(line);
        assert(out.deep_view() =~= old_out.push(target[k as int]));
        assert(out.deep_view() =~= target.take(k + 1));
        k = k + 1;
    }
    assert(target.take(n as int) =~= target);
    out
}

// ── Searching ───────────────────────────────────────────────────────────────

/// Whether `needle` occurs in `hay` at position `i`.
pub open spec fn occurs_at(hay: Seq<char>, needle: Seq<char>, i: int) -> bool {
    0 <= i && i + needle.len() <= hay.len() && hay.subrange(i, i + needle.len()) == needle
}

/// Whether `needle` occurs anywhere in `hay`.
pub open spec fn contains_seq(hay: Seq<char>, needle: Seq<char>) -> bool {
    exists|i: int| occurs_at(hay, needle, i)
}

/// Whether `hay` begins with `prefix`.
pub open spec fn starts_with_seq(hay: Seq<char>, prefix: Seq<char>) -> bool {
    occurs_at(hay, prefix, 0)
}

/// Whether `n` occurs in `h` at position `i`.
pub fn matches_at(h: &Vec<char>, n: &Vec<char>, i: usize) -> (r: bool)
    ensures
        r == occurs_at(h@, n@, i as int),
{
    if i > h.len() || n.len() > h.len() - i {
        return false;
    }
    let mut k: usize = 0;
    while k < n.len()
        invariant
            i + n@.len() <= h@.len(),
            h@.len() == h.len(),
            k <= n@.len(),
            forall|m: int| 0 <= m < k ==> h@[i + m] == n@[m],
        decreases n@.len() - k,
    {
        if h[i + k] != n[k] {
            assert(h@.subrange(i as int, i + n@.len())[k as int] != n@[k as int]);
            return false;
        }
        k = k + 1;
    }
    assert(h@.subrange(i as int, i + n@.len()) =~= n@);
    true
}

/// Whether `needle` occurs in `hay`.
pub fn contains_chars(hay: &Vec<char>, needle: &Vec<char>) -> (r: bool)
    ensures
        r == contains_seq(hay@, needle@),
{
    if needle.len() > hay.len() {
        return false;
    }
    let last = hay.len() - needle.len();
    let mut i: usize = 0;
    while i < last
        invariant
            needle@.len() <= hay@.len(),
            last == hay@.len() - needle@.len(),
            i <= last,
            forall|k: int| 0 <= k < i ==> !occurs_at(hay@, needle@, k),
        decreases last - i,
    {
        if matches_at(hay, needle, i) {
            return true;
        }
        i = i + 1;
    }
    matches_at(hay, needle, last)
}

/// Whether `needle` occurs in `hay`.
pub fn contains(hay: &str, needle: &str) -> (r: bool)
    ensures
        r == contains_seq(hay@, needle@),
{
    let h = chars_of(hay);
    let n = chars_of(needle);
    contains_chars(&h, &n)
}

/// Whether `hay` begins with `prefix`.
pub fn starts_with(hay: &str, prefix: &str) -> (r: bool)
    ensures
        r == starts_with_seq(hay@, prefix@),
{
    let h = chars_of(hay);
    let p = chars_of(prefix);
    matches_at(&h, &p, 0)
}

/// `hay` without `prefix`, or `None` when `hay` does not begin with it.
pub fn strip_prefix(hay: &str, prefix: &str) -> (r: Option<String>)
    ensures
        r is Some <==> starts_with_seq(hay@, prefix@),
        r matches Some(rest) ==> hay@ == prefix@ + rest@,
{
    let h = chars_of(hay);
    let p = chars_of(prefix);
    if matches_at(&h, &p, 0) {
        let rest = string_from_range(&h, p.len(), h.len());
        assert(h@ =~= p@ + rest@);
        Some(rest)
    } else {
        None
    }
}

/// `hay` without the single character `suffix` at its end, or `None`.
pub fn strip_suffix_char(hay: &str, suffix: char) -> (r: Option<String>)
    ensures
        r is Some <==> (hay@.len() > 0 && hay@.last() == suffix),
        r matches Some(rest) ==> hay@ == rest@.push(suffix),
{
    let h = chars_of(hay);
    if h.len() > 0 && h[h.len() - 1] == suffix {
        let rest = string_from_range(&h, 0, h.len() - 1);
        assert(h@ =~= rest@.push(suffix));
        Some(rest)
    } else {
        None
    }
}

// ── Case mapping ────────────────────────────────────────────────────────────

/// What `str::to_uppercase` returns for a string with the characters `s`.
pub uninterp spec fn uppercase(s: Seq<char>) -> Seq<char>;

/// What `str::to_lowercase` returns for a string with the characters `s`.
pub uninterp spec fn lowercase(s: Seq<char>) -> Seq<char>;

/// Every character of `s` is ASCII.
pub open spec fn all_ascii(s: Seq<char>) -> bool {
    forall|i: int| 0 <= i < s.len() ==> (#[trigger] s[i] as int) < 128
}

/// `c` with an ASCII uppercase letter made lowercase.
pub open spec fn ascii_lower_char(c: char) -> char {
    if 'A' <= c && c <= 'Z' {
        ((c as int) + 32) as char
    } else {
        c
    }
}

/// `c` with an ASCII lowercase letter made uppercase.
pub open spec fn ascii_upper_char(c: char) -> char {
    if 'a' <= c && c <= 'z' {
        ((c as int) - 32) as char
    } else {
        c
    }
}

/// `s` with its ASCII letters made lowercase.
pub open spec fn ascii_lower(s: Seq<char>) -> Seq<char> {
    s.map_values(|c: char| ascii_lower_char(c))
}

/// `s` with its ASCII letters made uppercase.
pub open spec fn ascii_upper(s: Seq<char>) -> Seq<char> {
    s.map_values(|c: char| ascii_upper_char(c))
}

/// Calls `str::to_uppercase`, which maps each character by the Unicode
/// uppercase mapping. The contract names the result; of an ASCII string it
/// also says that only its ASCII letters change, to their uppercase.
#[verifier::external_body]
pub(crate) fn to_upper(s: &str) -> (r: String)
    ensures
        r@ == uppercase(s@),
        all_ascii(s@) ==> r@ == ascii_upper(s@),
{
    s.to_uppercase()
}

/// Calls `str::to_lowercase`, which maps each character by the Unicode
/// lowercase mapping. The contract names the result; of an ASCII string it
/// also says that only its ASCII letters change, to their lowercase. And the
/// result does not depend on the letter case of the ASCII letters: an ASCII
/// letter of either case lowercases to the same ASCII letter, and the one
/// mapping that looks at its neighbours (a final capital sigma) asks only
/// whether they are cased letters, which an ASCII letter is in either case.
#[verifier::external_body]
pub(crate) fn to_lower(s: &str) -> (r: String)
    ensures
        r@ == lowercase(s@),
        all_ascii(s@) ==> r@ == ascii_lower(s@),
        r@ == lowercase(ascii_upper(s@)),
        r@ == lowercase(ascii_lower(s@)),
{
    s.to_lowercase()
}

// ── Integers ────────────────────────────────────────────────────────────────

/// Whether `c` is an ASCII decimal digit.
pub open spec fn is_digit(c: char) -> bool {
    '0' <= c && c <= '9'
}

/// Whether `s` is one or more ASCII digits.
pub open spec fn all_digits(s: Seq<char>) -> bool {
    s.len() > 0 && forall|k: int| 0 <= k < s.len() ==> is_digit(#[trigger] s[k])
}

/// The value of a run of decimal digits.
pub open spec fn digits_value(s: Seq<char>) -> nat
    decreases s.len(),
{
    if s.len() == 0 {
        0
    } else {
        digits_value(s.drop_last()) * 10 + ((s.last() as u32) - ('0' as u32)) as nat
    }
}

/// What `str::parse::<u64>` returns: an optional `+`, then one or more ASCII
/// digits whose value fits in a `u64`.
pub open spec fn parse_u64_spec(s: Seq<char>) -> Option<u64> {
    let body = if s.len() > 0 && s[0] == '+' {
        s.drop_first()
    } else {
        s
    };
    if all_digits(body) && digits_value(body) <= u64::MAX {
        Some(digits_value(body) as u64)
    } else {
        None
    }
}

/// What `str::parse::<u32>` returns: an optional `+`, then one or more ASCII
/// digits whose value fits in a `u32`.
pub open spec fn parse_u32_spec(s: Seq<char>) -> Option<u32> {
    let body = if s.len() > 0 && s[0] == '+' {
        s.drop_first()
    } else {
        s
    };
    if all_digits(body) && digits_value(body) <= u32::MAX {
        Some(digits_value(body) as u32)
    } else {
        None
    }
}

/// What `str::parse` returns for a signed integer in `[lo, hi]`: an optional
/// `+` or `-`, then one or more ASCII digits whose signed value is in range.
pub open spec fn parse_signed_spec(s: Seq<char>, lo: int, hi: int) -> Option<int> {
    let neg = s.len() > 0 && s[0] == '-';
    let body = if s.len() > 0 && (s[0] == '+' || s[0] == '-') {
        s.drop_first()
    } else {
        s
    };
    let value: int = if neg {
        -(digits_value(body) as int)
    } else {
        digits_value(body) as int
    };
    if all_digits(body) && lo <= value <= hi {
        Some(value)
    } else {
        None
    }
}

/// The value of `v[lo..hi]` when it is one or more digits whose value fits
/// under `cap`, or `None`.
fn digits_upto(v: &Vec<char>, lo: usize, cap: u64) -> (r: Option<u64>)
    requires
        lo <= v@.len(),
        cap >= 9,
    ensures
        r is Some <==> (all_digits(v@.subrange(lo as int, v@.len() as int)) && digits_value(
            v@.subrange(lo as int, v@.len() as int),
        ) <= cap),
        r matches Some(n) ==> n == digits_value(v@.subrange(lo as int, v@.len() as int)),
{
    let ghost whole = v@.subrange(lo as int, v@.len() as int);
    if lo == v.len() {
        return None;
    }
    let mut acc: u64 = 0;
    let mut i = lo;
    while i < v.len()
        invariant
            whole == v@.subrange(lo as int, v@.len() as int),
            lo < v@.len(),
            lo <= i <= v@.len(),
            cap >= 9,
            forall|k: int| lo <= k < i ==> is_digit(#[trigger] v@[k]),
            acc == digits_value(v@.subrange(lo as int, i as int)),
            acc <= cap,
        decreases v@.len() - i,
    {
        let c = v[i];
        let ghost prefix = v@.subrange(lo as int, i as int);
        let ghost next = v@.subrange(lo as int, i + 1);
        assert(next.drop_last() =~= prefix);
        assert(next.last() == c);
        if !('0' <= c && c <= '9') {
            assert(whole[i - lo] == c);
            assert(!is_digit(whole[i - lo]));
            return None;
        }
        let d = (c as u32 - '0' as u32) as u64;
        assert(digits_value(next) == acc * 10 + d);
        if acc > (cap - d) / 10 {
            assert(acc * 10 + d > cap) by (nonlinear_arith)
                requires
                    acc > (cap - d) / 10,
                    d <= 9,
                    cap >= 9,
            ;
            proof {
                if all_digits(whole) {
                    lemma_digits_prefix_bound(whole, i - lo + 1);
                    assert(whole.subrange(0, i - lo + 1) =~= next);
                }
            }
            return None;
        }
        assert(acc * 10 + d <= cap) by (nonlinear_arith)
            requires
                acc <= (cap - d) / 10,
                d <= 9,
                cap >= 9,
        ;
        acc = acc * 10 + d;
        i = i + 1;
    }
    assert(whole =~= v@.subrange(lo as int, i as int));
    assert forall|k: int| 0 <= k < whole.len() implies is_digit(#[trigger] whole[k]) by {
        assert(whole[k] == v@[lo + k]);
    }
    Some(acc)
}

/// A prefix of a digit run is worth no more than the whole run.
proof fn lemma_digits_prefix_bound(s: Seq<char>, n: int)
    requires
        0 <= n <= s.len(),
        forall|k: int| 0 <= k < s.len() ==> is_digit(#[trigger] s[k]),
    ensures
        digits_value(s.subrange(0, n)) <= digits_value(s),
    decreases s.len(),
{
    if n < s.len() {
        assert(s.drop_last().subrange(0, n) =~= s.subrange(0, n));
        lemma_digits_prefix_bound(s.drop_last(), n);
    } else {
        assert(s.subrange(0, n) =~= s);
    }
}

/// Parses `s` as `str::parse::<u64>` does.
pub fn parse_u64(s: &str) -> (r: Option<u64>)
    ensures
        r == parse_u64_spec(s@),
{
    let v = chars_of(s);
    let lo: usize = if v.len() > 0 && v[0] == '+' {
        1
    } else {
        0
    };
    assert(v@.drop_first() =~= v@.subrange(1, v@.len() as int));
    assert(v@ =~= v@.subrange(0, v@.len() as int));
    digits_upto(&v, lo, u64::MAX)
}

/// Parses `s` as `str::parse::<u32>` does.
pub fn parse_u32(s: &str) -> (r: Option<u32>)
    ensures
        r == parse_u32_spec(s@),
{
    let v = chars_of(s);
    let lo: usize = if v.len() > 0 && v[0] == '+' {
        1
    } else {
        0
    };
    assert(v@.drop_first() =~= v@.subrange(1, v@.len() as int));
    assert(v@ =~= v@.subrange(0, v@.len() as int));
    match digits_upto(&v, lo, 0xffff_ffff) {
        Some(n) => Some(n as u32),
        None => None,
    }
}

/// Parses `s` as `str::parse::<i64>` does.
pub fn parse_i64(s: &str) -> (r: Option<i64>)
    ensures
        r matches Some(n) ==> parse_signed_spec(s@, i64::MIN as int, i64::MAX as int) == Some(
            n as int,
        ),
        r is None ==> parse_signed_spec(s@, i64::MIN as int, i64::MAX as int) is None,
{
    let v = chars_of(s);
    let neg = v.len() > 0 && v[0] == '-';
    let lo: usize = if v.len() > 0 && (v[0] == '+' || v[0] == '-') {
        1
    } else {
        0
    };
    assert(v@.drop_first() =~= v@.subrange(1, v@.len() as int));
    assert(v@ =~= v@.subrange(0, v@.len() as int));
    let cap: u64 = if neg {
        0x8000_0000_0000_0000
    } else {
        0x7fff_ffff_ffff_ffff
    };
    match digits_upto(&v, lo, cap) {
        None => None,
        Some(n) => {
            if neg {
                if n == 0x8000_0000_0000_0000 {
                    Some(i64::MIN)
                } else {
                    Some(-(n as i64))
                }
            } else {
                Some(n as i64)
            }
        },
    }
}

/// Parses `s` as `str::parse::<i32>` does.
pub fn parse_i32(s: &str) -> (r: Option<i32>)
    ensures
        r matches Some(n) ==> parse_signed_spec(s@, i32::MIN as int, i32::MAX as int) == Some(
            n as int,
        ),
        r is None ==> parse_signed_spec(s@, i32::MIN as int, i32::MAX as int) is None,
{
    let v = chars_of(s);
    let neg = v.len() > 0 && v[0] == '-';
    let lo: usize = if v.len() > 0 && (v[0] == '+' || v[0] == '-') {
        1
    } else {
        0
    };
    assert(v@.drop_first() =~= v@.subrange(1, v@.len() as int));
    assert(v@ =~= v@.subrange(0, v@.len() as int));
    let cap: u64 = if neg {
        0x8000_0000
    } else {
        0x7fff_ffff
    };
    match digits_upto(&v, lo, cap) {
        None => None,
        Some(n) => {
            if neg {
                Some(-(n as i64) as i32)
            } else {
                Some(n as i32)
            }
        },
    }
}

/// The decimal digits of `n`, most significant first, without leading zeros.
pub open spec fn decimal_seq(n: nat) -> Seq<char>
    decreases n,
{
    if n < 10 {
        seq![(('0' as u32) + n) as char]
    } else {
        decimal_seq(n / 10).push((('0' as u32) + n % 10) as char)
    }
}

/// The decimal digit for `d`.
fn digit_char(d: u64) -> (c: char)
    requires
        d < 10,
    ensures
        c == (('0' as u32) + d) as char,
{
    match d {
        0 => '0',
        1 => '1',
        2 => '2',
        3 => '3',
        4 => '4',
        5 => '5',
        6 => '6',
        7 => '7',
        8 => '8',
        _ => '9',
    }
}

/// Appends the decimal digits of `n` to `s`.
pub fn push_decimal(s: &mut String, n: u64)
    ensures
        final(s)@ == old(s)@ + decimal_seq(n as nat),
    decreases n,
{
    if n < 10 {
        s.push(digit_char(n));
        assert(decimal_seq(n as nat) =~= seq![(('0' as u32) + n) as char]);
    } else {
        let ghost start = s@;
        push_decimal(s, n / 10);
        s.push(digit_char(n % 10));
        assert(s@ =~= start + decimal_seq(n as nat));
    }
}

/// The decimal form of `n`, as `u64::to_string` writes it.
pub fn u64_to_string(n: u64) -> (s: String)
    ensures
        s@ == decimal_seq(n as nat),
{
    let mut s = String::new();
    push_decimal(&mut s, n);
    assert(s@ =~= decimal_seq(n as nat));
    s
}

/// The decimal form of `n` with a leading `-` when negative, as `i64::to_string` writes it.
pub open spec fn signed_decimal_seq(n: int) -> Seq<char> {
    if n < 0 {
        seq!['-'] + decimal_seq((-n) as nat)
    } else {
        decimal_seq(n as nat)
    }
}

/// Appends the decimal form of `n` to `s`.
pub fn push_signed(s: &mut String, n: i64)
    ensures
        final(s)@ == old(s)@ + signed_decimal_seq(n as int),
{
    let ghost start = s@;
    if n < 0 {
        s.push('-');
        let m: u64 = if n == i64::MIN {
            0x8000_0000_0000_0000
        } else {
            (-n) as u64
        };
        push_decimal(s, m);
        assert(s@ =~= start + signed_decimal_seq(n as int));
    } else {
        push_decimal(s, n as u64);
    }
}

/// The decimal form of `n` padded with leading zeros to at least two digits,
/// as `format!("{:02}", n)` writes it.
pub open spec fn two_digit_seq(n: nat) -> Seq<char> {
    if n < 10 {
        seq!['0'] + decimal_seq(n)
    } else {
        decimal_seq(n)
    }
}

/// Appends `n` padded to two digits.
pub fn push_two_digits(s: &mut String, n: u64)
    ensures
        final(s)@ == old(s)@ + two_digit_seq(n as nat),
{
    let ghost start = s@;
    if n < 10 {
        s.push('0');
    }
    push_decimal(s, n);
    assert(s@ =~= start + two_digit_seq(n as nat));
}

// ── Joining ─────────────────────────────────────────────────────────────────

/// The pieces joined with `sep` between each two neighbours.
pub open spec fn join_seq(pieces: Seq<Seq<char>>, sep: Seq<char>) -> Seq<char>
    decreases pieces.len(),
{
    if pieces.len() == 0 {
        Seq::empty()
    } else if pieces.len() == 1 {
        pieces[0]
    } else {
        join_seq(pieces.drop_last(), sep) + sep + pieces.last()
    }
}

/// `pieces` joined with `sep`.
pub fn join(pieces: &Vec<String>, sep: &str) -> (r: String)
    ensures
        r@ == join_seq(pieces.deep_view(), sep@),
{
    let mut r = String::new();
    let mut i: usize = 0;
    while i < pieces.len()
        invariant
            i <= pieces@.len(),
            r@ == join_seq(pieces.deep_view().take(i as int), sep@),
        decreases pieces@.len() - i,
    {
        assert(pieces.deep_view().take(i + 1).drop_last() =~= pieces.deep_view().take(
            i as int,
        ));
        if i > 0 {
            push_str(&mut r, sep);
        }
        push_str(&mut r, pieces[i].as_str());
        assert(pieces.deep_view().take(i + 1).last() == pieces[i as int]@);
        if i == 0 {
            assert(r@ =~= join_seq(pieces.deep_view().take(i + 1), sep@));
        }
        i = i + 1;
    }
    assert(pieces.deep_view().take(pieces@.len() as int) =~= pieces.deep_view());
    r
}

// ── Printing and parsing back ──────────────────────────────────────────────

/// The decimal digits of `n` are digits whose value is `n`.
pub proof fn lemma_decimal_value(n: nat)
    ensures
        all_digits(decimal_seq(n)),
        digits_value(decimal_seq(n)) == n,
        decimal_seq(n).len() > 0,
    decreases n,
{
    let d = decimal_seq(n);
    if n < 10 {
        let c = (('0' as u32) + n) as char;
        assert(d == seq![c]);
        assert(d.drop_last() =~= Seq::<char>::empty());
        assert(digits_value(Seq::<char>::empty()) == 0);
        assert((c as u32) == ('0' as u32) + n);
        assert(digits_value(d) == digits_value(d.drop_last()) * 10 + ((d.last() as u32) - ('0' as u32)) as nat);
    } else {
        lemma_decimal_value(n / 10);
        let c = (('0' as u32) + n % 10) as char;
        assert(d == decimal_seq(n / 10).push(c));
        assert(d.drop_last() =~= decimal_seq(n / 10));
        assert((c as u32) == ('0' as u32) + n % 10);
        assert(n == (n / 10) * 10 + n % 10);
        assert(digits_value(d) == digits_value(d.drop_last()) * 10 + ((d.last() as u32) - ('0' as u32)) as nat);
        assert forall|k: int| 0 <= k < d.len() implies is_digit(#[trigger] d[k]) by {
            if k < d.len() - 1 {
                assert(d[k] == decimal_seq(n / 10)[k]);
            }
        }
    }
}

/// A two-digit field is digits whose value is `n`.
pub proof fn lemma_two_digit_value(n: nat)
    ensures
        all_digits(two_digit_seq(n)),
        digits_value(two_digit_seq(n)) == n,
{
    lemma_decimal_value(n);
    if n < 10 {
        let t = two_digit_seq(n);
        let c = (('0' as u32) + n) as char;
        assert(decimal_seq(n) == seq![c]);
        assert(t =~= seq!['0', c]);
        assert(t.drop_last() =~= seq!['0']);
        assert(seq!['0'].drop_last() =~= Seq::<char>::empty());
        assert(digits_value(Seq::<char>::empty()) == 0);
        assert(digits_value(seq!['0']) == 0);
        assert((c as u32) == ('0' as u32) + n);
        assert(digits_value(t) == digits_value(t.drop_last()) * 10 + ((t.last() as u32) - ('0' as u32)) as nat);
    }
}

/// Digits that fit parse back to their value.
pub proof fn lemma_parse_digits(s: Seq<char>)
    requires
        all_digits(s),
        digits_value(s) <= u64::MAX,
    ensures
        parse_u64_spec(s) == Some(digits_value(s) as u64),
{
    assert(is_digit(s[0]));
}

/// Splitting a text joined by the separator splits both parts.
pub proof fn lemma_split_join(p: Seq<char>, q: Seq<char>, sep: char)
    ensures
        split_seq(p + seq![sep] + q, sep) == split_seq(p, sep) + split_seq(q, sep),
    decreases q.len(),
{
    let s = p + seq![sep] + q;
    if q.len() == 0 {
        assert(s =~= p.push(sep));
        assert(s.drop_last() =~= p);
        assert(split_seq(q, sep) == seq![Seq::<char>::empty()]);
        assert(split_seq(p, sep).push(Seq::<char>::empty()) =~= split_seq(p, sep) + seq![Seq::<char>::empty()]);
    } else {
        let q2 = q.drop_last();
        lemma_split_join(p, q2, sep);
        assert(s.drop_last() =~= p + seq![sep] + q2);
        assert(s.last() == q.last());
        assert(q.drop_last() == q2);
        let a = split_seq(p, sep);
        let b = split_seq(q2, sep);
        lemma_split_nonempty(q2, sep);
        if q.last() == sep {
            assert((a + b).push(Seq::<char>::empty()) =~= a + b.push(Seq::<char>::empty()));
        } else {
            assert((a + b).update((a + b).len() - 1, (a + b).last().push(q.last())) =~= a + b.update(
                b.len() - 1,
                b.last().push(q.last()),
            ));
        }
    }
}

/// A text without the separator is one piece.
pub proof fn lemma_split_single(s: Seq<char>, sep: char)
    requires
        forall|k: int| 0 <= k < s.len() ==> s[k] != sep,
    ensures
        split_seq(s, sep) == seq![s],
    decreases s.len(),
{
    if s.len() > 0 {
        lemma_split_single(s.drop_last(), sep);
        assert(s.drop_last().push(s.last()) =~= s);
        assert(seq![s.drop_last()].update(0, s.drop_last().push(s.last())) =~= seq![s]);
    } else {
        assert(s =~= Seq::<char>::empty());
    }
}

} // verus!
