//! The section extractor: four fixed textual patterns pull raw value strings
//! out of a document.
//!
//! Each pattern is a `requests:` or `limits:` keyword followed by a `cpu:`
//! and a `memory:` field in one of two fixed orders, the tokens separated by
//! arbitrary (possibly empty) runs of whitespace.  The first field's value is
//! always quoted; in the CPU-then-memory order the memory value is the rest
//! of its line (quotes and all), in the memory-then-CPU order both values are
//! quoted.  A quoted value extends greedily to the latest closing quote on
//! its line that still lets the rest of the pattern match.  All
//! non-overlapping occurrences are collected left to right; text that fits no
//! pattern contributes nothing.

use vstd::prelude::*;
use crate::text::chars_of;
use crate::text::is_ws;
use crate::text::is_ws_char;
use vstd::string::StrSliceExecFns;

verus! {

/// The `requests:` section keyword.
pub open spec fn lit_requests() -> Seq<char> {
    seq!['r', 'e', 'q', 'u', 'e', 's', 't', 's', ':']
}

/// The `limits:` section keyword.
pub open spec fn lit_limits() -> Seq<char> {
    seq!['l', 'i', 'm', 'i', 't', 's', ':']
}

/// The `cpu:` field keyword.
pub open spec fn lit_cpu() -> Seq<char> {
    seq!['c', 'p', 'u', ':']
}

/// The `memory:` field keyword.
pub open spec fn lit_memory() -> Seq<char> {
    seq!['m', 'e', 'm', 'o', 'r', 'y', ':']
}

/// The index of the first non-whitespace character at or after `i`.
pub open spec fn ws_end(t: Seq<char>, i: int) -> int
    decreases t.len() - i when 0 <= i <= t.len()
{
    if i >= t.len() {
        t.len() as int
    } else if is_ws(t[i]) {
        ws_end(t, i + 1)
    } else {
        i
    }
}

/// The index of the first newline at or after `i`, or the text's length.
/// A value capture never runs past this index.
pub open spec fn line_end(t: Seq<char>, i: int) -> int
    decreases t.len() - i when 0 <= i <= t.len()
{
    if i >= t.len() {
        t.len() as int
    } else if t[i] == '\n' {
        i
    } else {
        line_end(t, i + 1)
    }
}

/// The literal `lit` occurs in `t` at position `i`.
pub open spec fn matches_lit(t: Seq<char>, i: int, lit: Seq<char>) -> bool {
    &&& 0 <= i
    &&& i + lit.len() <= t.len()
    &&& forall|j: int| 0 <= j < lit.len() ==> t[i + j] == #[trigger] lit[j]
}

/// The position of the last double quote in `t[lo..hi]`, if any.
pub open spec fn last_quote(t: Seq<char>, lo: int, hi: int) -> Option<int>
    decreases hi - lo when lo <= hi
{
    if hi <= lo {
        None
    } else if t[hi - 1] == '"' {
        Some(hi - 1)
    } else {
        last_quote(t, lo, hi - 1)
    }
}

/// What must follow the first value's closing quote, from position `k`:
/// whitespace, the second field keyword `f2`, and — when the second value is
/// quoted (`q2`) — whitespace, an opening quote, and a closing quote later on
/// the same line.
pub open spec fn tail_ok(t: Seq<char>, k: int, f2: Seq<char>, q2: bool) -> bool
    recommends 0 <= k <= t.len()
{
    let p = ws_end(t, k);
    &&& matches_lit(t, p, f2)
    &&& (q2 ==> {
        let p2 = ws_end(t, p + f2.len());
        &&& p2 < t.len()
        &&& t[p2] == '"'
        &&& last_quote(t, p2 + 1, line_end(t, p2 + 1)).is_some()
    })
}

/// The closing quote of the first value: the latest double quote in
/// `t[lo..hi]` after which the rest of the pattern still matches.
pub open spec fn close_quote(t: Seq<char>, lo: int, hi: int, f2: Seq<char>, q2: bool) -> Option<
    int,
>
    decreases hi - lo when lo <= hi <= t.len()
{
    if hi <= lo {
        None
    } else if t[hi - 1] == '"' && tail_ok(t, hi, f2, q2) {
        Some(hi - 1)
    } else {
        close_quote(t, lo, hi - 1, f2, q2)
    }
}

/// One occurrence of a pattern: the bounds of its two captured values and
/// the position where the occurrence ends.
pub ghost struct SpecMatch {
    /// First capture, from `c1_lo` up to (excluding) `c1_hi`.
    pub c1_lo: int,
    pub c1_hi: int,
    /// Second capture, from `c2_lo` up to (excluding) `c2_hi`.
    pub c2_lo: int,
    pub c2_hi: int,
    /// The first position past the whole occurrence.
    pub end: int,
}

/// Matches one pattern at position `i` of `t`: the section keyword `sec`,
/// whitespace, the field keyword `f1`, whitespace, a quoted first value,
/// whitespace, the field keyword `f2`, whitespace, and a second value that is
/// quoted when `q2` holds and otherwise runs to the end of its line.
pub open spec fn match_at(
    t: Seq<char>,
    i: int,
    sec: Seq<char>,
    f1: Seq<char>,
    f2: Seq<char>,
    q2: bool,
) -> Option<SpecMatch>
    recommends 0 <= i <= t.len()
{
    if !matches_lit(t, i, sec) {
        None
    } else {
        let p1 = ws_end(t, i + sec.len());
        if !matches_lit(t, p1, f1) {
            None
        } else {
            let p2 = ws_end(t, p1 + f1.len());
            if !(p2 < t.len() && t[p2] == '"') {
                None
            } else {
                let q = p2 + 1;
                match close_quote(t, q, line_end(t, q), f2, q2) {
                    None => None,
                    Some(j) => {
                        let p3 = ws_end(t, j + 1);
                        let p4 = ws_end(t, p3 + f2.len());
                        if q2 {
                            match last_quote(t, p4 + 1, line_end(t, p4 + 1)) {
                                None => None,
                                Some(j2) => Some(
                                    SpecMatch {
                                        c1_lo: q,
                                        c1_hi: j,
                                        c2_lo: p4 + 1,
                                        c2_hi: j2,
                                        end: j2 + 1,
                                    },
                                ),
                            }
                        } else {
                            Some(
                                SpecMatch {
                                    c1_lo: q,
                                    c1_hi: j,
                                    c2_lo: p4,
                                    c2_hi: line_end(t, p4),
                                    end: line_end(t, p4),
                                },
                            )
                        }
                    },
                }
            }
        }
    }
}

/// The leftmost occurrence of the pattern starting at or after `i`.
pub open spec fn find_from(
    t: Seq<char>,
    i: int,
    sec: Seq<char>,
    f1: Seq<char>,
    f2: Seq<char>,
    q2: bool,
) -> Option<SpecMatch>
    decreases t.len() - i when 0 <= i <= t.len()
{
    if match_at(t, i, sec, f1, f2, q2).is_some() {
        match_at(t, i, sec, f1, f2, q2)
    } else if i < t.len() {
        find_from(t, i + 1, sec, f1, f2, q2)
    } else {
        None
    }
}

/// Bounds of `ws_end`.
pub proof fn lemma_ws_end(t: Seq<char>, i: int)
    requires
        0 <= i <= t.len(),
    ensures
        i <= ws_end(t, i) <= t.len(),
    decreases t.len() - i,
{
    if i < t.len() && is_ws(t[i]) {
        lemma_ws_end(t, i + 1);
    }
}

/// Bounds of `line_end`.
pub proof fn lemma_line_end(t: Seq<char>, i: int)
    requires
        0 <= i <= t.len(),
    ensures
        i <= line_end(t, i) <= t.len(),
    decreases t.len() - i,
{
    if i < t.len() && t[i] != '\n' {
        lemma_line_end(t, i + 1);
    }
}

/// What a positive `last_quote` answer means.
pub proof fn lemma_last_quote(t: Seq<char>, lo: int, hi: int)
    requires
        0 <= lo <= hi <= t.len(),
    ensures
        last_quote(t, lo, hi) matches Some(j) ==> lo <= j < hi && t[j] == '"',
    decreases hi - lo,
{
    if hi > lo && t[hi - 1] != '"' {
        lemma_last_quote(t, lo, hi - 1);
    }
}

/// What a positive `close_quote` answer means.
pub proof fn lemma_close_quote(t: Seq<char>, lo: int, hi: int, f2: Seq<char>, q2: bool)
    requires
        0 <= lo <= hi <= t.len(),
    ensures
        close_quote(t, lo, hi, f2, q2) matches Some(j) ==> lo <= j < hi && t[j] == '"' && tail_ok(
            t,
            j + 1,
            f2,
            q2,
        ),
    decreases hi - lo,
{
    if hi > lo && !(t[hi - 1] == '"' && tail_ok(t, hi, f2, q2)) {
        lemma_close_quote(t, lo, hi - 1, f2, q2);
    }
}

/// Bounds of an occurrence found at position `i`: the captures lie inside
/// the text and the occurrence ends strictly after `i`.
pub proof fn lemma_match_at_bounds(
    t: Seq<char>,
    i: int,
    sec: Seq<char>,
    f1: Seq<char>,
    f2: Seq<char>,
    q2: bool,
)
    requires
        0 <= i <= t.len(),
    ensures
        match_at(t, i, sec, f1, f2, q2) matches Some(m) ==> {
            &&& i < m.end <= t.len()
            &&& 0 <= m.c1_lo <= m.c1_hi <= t.len()
            &&& 0 <= m.c2_lo <= m.c2_hi <= t.len()
        },
{
    if match_at(t, i, sec, f1, f2, q2).is_some() {
        let p1 = ws_end(t, i + sec.len());
        lemma_ws_end(t, i + sec.len());
        let p2 = ws_end(t, p1 + f1.len());
        lemma_ws_end(t, p1 + f1.len());
        let q = p2 + 1;
        lemma_line_end(t, q);
        let le = line_end(t, q);
        lemma_close_quote(t, q, le, f2, q2);
        let j = close_quote(t, q, le, f2, q2)->Some_0;
        let p3 = ws_end(t, j + 1);
        lemma_ws_end(t, j + 1);
        let p4 = ws_end(t, p3 + f2.len());
        lemma_ws_end(t, p3 + f2.len());
        if q2 {
            lemma_line_end(t, p4 + 1);
            lemma_last_quote(t, p4 + 1, line_end(t, p4 + 1));
        } else {
            lemma_line_end(t, p4);
        }
    }
}

/// Bounds of the leftmost occurrence found at or after `i`.
pub proof fn lemma_find_from_bounds(
    t: Seq<char>,
    i: int,
    sec: Seq<char>,
    f1: Seq<char>,
    f2: Seq<char>,
    q2: bool,
)
    requires
        0 <= i <= t.len(),
    ensures
        find_from(t, i, sec, f1, f2, q2) matches Some(m) ==> {
            &&& i < m.end <= t.len()
            &&& 0 <= m.c1_lo <= m.c1_hi <= t.len()
            &&& 0 <= m.c2_lo <= m.c2_hi <= t.len()
        },
    decreases t.len() - i,
{
    if match_at(t, i, sec, f1, f2, q2).is_some() {
        lemma_match_at_bounds(t, i, sec, f1, f2, q2);
    } else if i < t.len() {
        lemma_find_from_bounds(t, i + 1, sec, f1, f2, q2);
    }
}

/// All the pattern's non-overlapping occurrences at or after `i`, left to
/// right, each next search resuming where the previous occurrence ended.
pub open spec fn matches_from(
    t: Seq<char>,
    i: int,
    sec: Seq<char>,
    f1: Seq<char>,
    f2: Seq<char>,
    q2: bool,
) -> Seq<SpecMatch>
    decreases t.len() - i when 0 <= i <= t.len() via matches_from_dec
{
    match find_from(t, i, sec, f1, f2, q2) {
        None => Seq::empty(),
        Some(m) => seq![m] + matches_from(t, m.end, sec, f1, f2, q2),
    }
}

#[via_fn]
proof fn matches_from_dec(t: Seq<char>, i: int, sec: Seq<char>, f1: Seq<char>, f2: Seq<char>, q2: bool) {
    lemma_find_from_bounds(t, i, sec, f1, f2, q2);
}

/// The first captured value of occurrence `m`.
pub open spec fn cap1_of(t: Seq<char>, m: SpecMatch) -> Seq<char> {
    t.subrange(m.c1_lo, m.c1_hi)
}

/// The second captured value of occurrence `m`.
pub open spec fn cap2_of(t: Seq<char>, m: SpecMatch) -> Seq<char> {
    t.subrange(m.c2_lo, m.c2_hi)
}

/// The first captures of the occurrences `ms`, in order.
pub open spec fn caps1_list(t: Seq<char>, ms: Seq<SpecMatch>) -> Seq<Seq<char>> {
    ms.map_values(|m: SpecMatch| cap1_of(t, m))
}

/// The second captures of the occurrences `ms`, in order.
pub open spec fn caps2_list(t: Seq<char>, ms: Seq<SpecMatch>) -> Seq<Seq<char>> {
    ms.map_values(|m: SpecMatch| cap2_of(t, m))
}

/// The views of a sequence of strings.
pub open spec fn str_views(v: Seq<String>) -> Seq<Seq<char>> {
    v.map_values(|x: String| x@)
}

/// The first captures of all the pattern's occurrences in `t`, in order.
pub open spec fn caps1_of(
    t: Seq<char>,
    sec: Seq<char>,
    f1: Seq<char>,
    f2: Seq<char>,
    q2: bool,
) -> Seq<Seq<char>> {
    caps1_list(t, matches_from(t, 0, sec, f1, f2, q2))
}

/// The second captures of all the pattern's occurrences in `t`, in order.
pub open spec fn caps2_of(
    t: Seq<char>,
    sec: Seq<char>,
    f1: Seq<char>,
    f2: Seq<char>,
    q2: bool,
) -> Seq<Seq<char>> {
    caps2_list(t, matches_from(t, 0, sec, f1, f2, q2))
}

/// The raw request-CPU values of a document: the first captures of the
/// CPU-then-memory requests pattern, then the second captures of the
/// memory-then-CPU requests pattern.
pub open spec fn spec_cpu_requests(t: Seq<char>) -> Seq<Seq<char>> {
    caps1_of(t, lit_requests(), lit_cpu(), lit_memory(), false) + caps2_of(
        t,
        lit_requests(),
        lit_memory(),
        lit_cpu(),
        true,
    )
}

/// The raw request-memory values of a document.
pub open spec fn spec_mem_requests(t: Seq<char>) -> Seq<Seq<char>> {
    caps2_of(t, lit_requests(), lit_cpu(), lit_memory(), false) + caps1_of(
        t,
        lit_requests(),
        lit_memory(),
        lit_cpu(),
        true,
    )
}

/// The raw limit-CPU values of a document.
pub open spec fn spec_cpu_limits(t: Seq<char>) -> Seq<Seq<char>> {
    caps1_of(t, lit_limits(), lit_cpu(), lit_memory(), false) + caps2_of(
        t,
        lit_limits(),
        lit_memory(),
        lit_cpu(),
        true,
    )
}

/// The raw limit-memory values of a document.
pub open spec fn spec_mem_limits(t: Seq<char>) -> Seq<Seq<char>> {
    caps2_of(t, lit_limits(), lit_cpu(), lit_memory(), false) + caps1_of(
        t,
        lit_limits(),
        lit_memory(),
        lit_cpu(),
        true,
    )
}

/// Appending a string whose view is the first capture of `m` keeps the
/// correspondence between collected strings and collected occurrences.
proof fn lemma_caps1_push(t: Seq<char>, vs: Seq<String>, x: String, ms: Seq<SpecMatch>, m: SpecMatch)
    requires
        str_views(vs) == caps1_list(t, ms),
        x@ == cap1_of(t, m),
    ensures
        str_views(vs.push(x)) == caps1_list(t, ms + seq![m]),
{
    assert(str_views(vs).len() == vs.len());
    assert(caps1_list(t, ms).len() == ms.len());
    assert(vs.len() == ms.len());
    assert forall|k: int| 0 <= k < vs.len() + 1 implies str_views(vs.push(x))[k] == caps1_list(
        t,
        ms + seq![m],
    )[k] by {
        if k < vs.len() {
            assert(str_views(vs)[k] == caps1_list(t, ms)[k]);
        }
    };
    assert(str_views(vs.push(x)) =~= caps1_list(t, ms + seq![m]));
}

/// The same, for the second capture.
proof fn lemma_caps2_push(t: Seq<char>, vs: Seq<String>, x: String, ms: Seq<SpecMatch>, m: SpecMatch)
    requires
        str_views(vs) == caps2_list(t, ms),
        x@ == cap2_of(t, m),
    ensures
        str_views(vs.push(x)) == caps2_list(t, ms + seq![m]),
{
    assert(str_views(vs).len() == vs.len());
    assert(caps2_list(t, ms).len() == ms.len());
    assert(vs.len() == ms.len());
    assert forall|k: int| 0 <= k < vs.len() + 1 implies str_views(vs.push(x))[k] == caps2_list(
        t,
        ms + seq![m],
    )[k] by {
        if k < vs.len() {
            assert(str_views(vs)[k] == caps2_list(t, ms)[k]);
        }
    };
    assert(str_views(vs.push(x)) =~= caps2_list(t, ms + seq![m]));
}

/// The views of concatenated string vectors are the concatenated views.
proof fn lemma_views_concat(a: Seq<String>, b: Seq<String>)
    ensures
        str_views(a + b) == str_views(a) + str_views(b),
{
    assert forall|k: int| 0 <= k < a.len() + b.len() implies str_views(a + b)[k] == (str_views(a)
        + str_views(b))[k] by {
        assert((a + b)[k] == if k < a.len() { a[k] } else { b[k - a.len()] });
    };
    assert(str_views(a + b) =~= str_views(a) + str_views(b));
}

/// An occurrence as the executable matcher reports it.
struct ExecMatch {
    c1_lo: usize,
    c1_hi: usize,
    c2_lo: usize,
    c2_hi: usize,
    end: usize,
}

/// The occurrence `m` stands for.
spec fn abs_match(m: ExecMatch) -> SpecMatch {
    SpecMatch {
        c1_lo: m.c1_lo as int,
        c1_hi: m.c1_hi as int,
        c2_lo: m.c2_lo as int,
        c2_hi: m.c2_hi as int,
        end: m.end as int,
    }
}

/// An optional index, as the mathematical option it stands for.
spec fn abs_idx(r: Option<usize>) -> Option<int> {
    match r {
        None => None,
        Some(x) => Some(x as int),
    }
}

fn ws_end_exec(t: &Vec<char>, i: usize) -> (r: usize)
    requires
        i <= t@.len(),
    ensures
        i <= r <= t@.len(),
        r as int == ws_end(t@, i as int),
{
    let n = t.len();
    let mut j = i;
    while j < n && is_ws_char(t[j])
        invariant
            i <= j <= n,
            n == t@.len(),
            ws_end(t@, i as int) == ws_end(t@, j as int),
        decreases n - j,
    {
        j = j + 1;
    }
    j
}

fn line_end_exec(t: &Vec<char>, i: usize) -> (r: usize)
    requires
        i <= t@.len(),
    ensures
        i <= r <= t@.len(),
        r as int == line_end(t@, i as int),
{
    let n = t.len();
    let mut j = i;
    while j < n && t[j] != '\n'
        invariant
            i <= j <= n,
            n == t@.len(),
            line_end(t@, i as int) == line_end(t@, j as int),
        decreases n - j,
    {
        j = j + 1;
    }
    j
}

fn matches_lit_exec(t: &Vec<char>, i: usize, lit: &Vec<char>) -> (b: bool)
    requires
        i <= t@.len(),
    ensures
        b == matches_lit(t@, i as int, lit@),
{
    let n = t.len();
    let k = lit.len();
    if n - i < k {
        return false;
    }
    let mut j: usize = 0;
    while j < k
        invariant
            0 <= j <= k,
            k == lit@.len(),
            n == t@.len(),
            i + k <= n,
            forall|x: int| 0 <= x < j ==> t@[i + x] == #[trigger] lit@[x],
        decreases k - j,
    {
        if t[i + j] != lit[j] {
            return false;
        }
        j = j + 1;
    }
    true
}

fn last_quote_exec(t: &Vec<char>, lo: usize, hi: usize) -> (r: Option<usize>)
    requires
        lo <= hi <= t@.len(),
    ensures
        abs_idx(r) == last_quote(t@, lo as int, hi as int),
{
    let mut h = hi;
    while h > lo
        invariant
            lo <= h <= hi <= t@.len(),
            last_quote(t@, lo as int, hi as int) == last_quote(t@, lo as int, h as int),
        decreases h,
    {
        if t[h - 1] == '"' {
            return Some(h - 1);
        }
        h = h - 1;
    }
    None
}

fn tail_ok_exec(t: &Vec<char>, k: usize, f2: &Vec<char>, q2: bool) -> (b: bool)
    requires
        k <= t@.len(),
    ensures
        b == tail_ok(t@, k as int, f2@, q2),
{
    let n = t.len();
    let p = ws_end_exec(t, k);
    if !matches_lit_exec(t, p, f2) {
        return false;
    }
    if q2 {
        proof {
            assert(p + f2@.len() <= n);
        }
        let p2 = ws_end_exec(t, p + f2.len());
        if !(p2 < t.len()) {
            return false;
        }
        if t[p2] != '"' {
            return false;
        }
        let le = line_end_exec(t, p2 + 1);
        let lq = last_quote_exec(t, p2 + 1, le);
        lq.is_some()
    } else {
        true
    }
}

fn close_quote_exec(t: &Vec<char>, lo: usize, hi: usize, f2: &Vec<char>, q2: bool) -> (r: Option<
    usize,
>)
    requires
        lo <= hi <= t@.len(),
    ensures
        abs_idx(r) == close_quote(t@, lo as int, hi as int, f2@, q2),
        r matches Some(j) ==> lo <= j < hi && tail_ok(t@, j + 1, f2@, q2),
{
    let mut h = hi;
    while h > lo
        invariant
            lo <= h <= hi <= t@.len(),
            close_quote(t@, lo as int, hi as int, f2@, q2) == close_quote(
                t@,
                lo as int,
                h as int,
                f2@,
                q2,
            ),
        decreases h,
    {
        if t[h - 1] == '"' {
            if tail_ok_exec(t, h, f2, q2) {
                return Some(h - 1);
            }
        }
        h = h - 1;
    }
    None
}

fn match_at_exec(
    t: &Vec<char>,
    i: usize,
    sec: &Vec<char>,
    f1: &Vec<char>,
    f2: &Vec<char>,
    q2: bool,
) -> (r: Option<ExecMatch>)
    requires
        i <= t@.len(),
    ensures
        r.is_some() == match_at(t@, i as int, sec@, f1@, f2@, q2).is_some(),
        r matches Some(m) ==> {
            &&& match_at(t@, i as int, sec@, f1@, f2@, q2) == Some(abs_match(m))
            &&& i < m.end <= t@.len()
            &&& m.c1_lo <= m.c1_hi <= t@.len()
            &&& m.c2_lo <= m.c2_hi <= t@.len()
        },
{
    proof {
        lemma_match_at_bounds(t@, i as int, sec@, f1@, f2@, q2);
    }
    let n = t.len();
    if !matches_lit_exec(t, i, sec) {
        return None;
    }
    proof {
        assert(i + sec@.len() <= n);
    }
    let p1 = ws_end_exec(t, i + sec.len());
    if !matches_lit_exec(t, p1, f1) {
        return None;
    }
    proof {
        assert(p1 + f1@.len() <= n);
    }
    let p2 = ws_end_exec(t, p1 + f1.len());
    if !(p2 < n) {
        return None;
    }
    if t[p2] != '"' {
        return None;
    }
    let q = p2 + 1;
    let le = line_end_exec(t, q);
    let cq = close_quote_exec(t, q, le, f2, q2);
    match cq {
        None => None,
        Some(j) => {
            proof {
                assert(tail_ok(t@, j + 1, f2@, q2));
            }
            let p3 = ws_end_exec(t, j + 1);
            proof {
                assert(p3 + f2@.len() <= n);
            }
            let p4 = ws_end_exec(t, p3 + f2.len());
            if q2 {
                let le2 = line_end_exec(t, p4 + 1);
                let lq = last_quote_exec(t, p4 + 1, le2);
                match lq {
                    None => None,
                    Some(j2) => Some(
                        ExecMatch { c1_lo: q, c1_hi: j, c2_lo: p4 + 1, c2_hi: j2, end: j2 + 1 },
                    ),
                }
            } else {
                let e = line_end_exec(t, p4);
                Some(ExecMatch { c1_lo: q, c1_hi: j, c2_lo: p4, c2_hi: e, end: e })
            }
        },
    }
}

fn find_from_exec(
    t: &Vec<char>,
    i: usize,
    sec: &Vec<char>,
    f1: &Vec<char>,
    f2: &Vec<char>,
    q2: bool,
) -> (r: Option<ExecMatch>)
    requires
        i <= t@.len(),
    ensures
        r.is_some() == find_from(t@, i as int, sec@, f1@, f2@, q2).is_some(),
        r matches Some(m) ==> {
            &&& find_from(t@, i as int, sec@, f1@, f2@, q2) == Some(abs_match(m))
            &&& i < m.end <= t@.len()
            &&& m.c1_lo <= m.c1_hi <= t@.len()
            &&& m.c2_lo <= m.c2_hi <= t@.len()
        },
{
    let n = t.len();
    let mut j = i;
    loop
        invariant
            i <= j <= n,
            n == t@.len(),
            find_from(t@, i as int, sec@, f1@, f2@, q2) == find_from(
                t@,
                j as int,
                sec@,
                f1@,
                f2@,
                q2,
            ),
        decreases n - j,
    {
        let m = match_at_exec(t, j, sec, f1, f2, q2);
        if m.is_some() {
            return m;
        }
        if j >= n {
            return None;
        }
        j = j + 1;
    }
}

/// Collects the two captures of every occurrence of one pattern, in order.
fn extract_shape(
    s: &str,
    t: &Vec<char>,
    sec: &Vec<char>,
    f1: &Vec<char>,
    f2: &Vec<char>,
    q2: bool,
) -> (r: (Vec<String>, Vec<String>))
    requires
        t@ == s@,
    ensures
        str_views(r.0@) == caps1_of(t@, sec@, f1@, f2@, q2),
        str_views(r.1@) == caps2_of(t@, sec@, f1@, f2@, q2),
{
    let mut out1: Vec<String> = Vec::new();
    let mut out2: Vec<String> = Vec::new();
    let mut pos: usize = 0;
    let ghost mut done: Seq<SpecMatch> = Seq::empty();
    proof {
        assert(str_views(out1@) =~= caps1_list(t@, done));
        assert(str_views(out2@) =~= caps2_list(t@, done));
    }
    loop
        invariant
            t@ == s@,
            pos <= t@.len(),
            matches_from(t@, 0, sec@, f1@, f2@, q2) == done + matches_from(
                t@,
                pos as int,
                sec@,
                f1@,
                f2@,
                q2,
            ),
            str_views(out1@) == caps1_list(t@, done),
            str_views(out2@) == caps2_list(t@, done),
        ensures
            matches_from(t@, pos as int, sec@, f1@, f2@, q2) == Seq::<SpecMatch>::empty(),
        decreases t@.len() - pos,
    {
        let fm = find_from_exec(t, pos, sec, f1, f2, q2);
        match fm {
            None => {
                proof {
                    assert(matches_from(t@, pos as int, sec@, f1@, f2@, q2) == Seq::<
                        SpecMatch,
                    >::empty());
                }
                break ;
            },
            Some(m) => {
                let ghost sm = abs_match(m);
                let c1 = s.substring_char(m.c1_lo, m.c1_hi).to_owned();
                let c2 = s.substring_char(m.c2_lo, m.c2_hi).to_owned();
                proof {
                    assert(matches_from(t@, pos as int, sec@, f1@, f2@, q2) == seq![sm]
                        + matches_from(t@, sm.end, sec@, f1@, f2@, q2));
                    assert(c1@ == cap1_of(t@, sm));
                    assert(c2@ == cap2_of(t@, sm));
                    lemma_caps1_push(t@, out1@, c1, done, sm);
                    lemma_caps2_push(t@, out2@, c2, done, sm);
                }
                out1.push(c1);
                out2.push(c2);
                proof {
                    let ghost done2 = done + seq![sm];
                    assert(done2 + matches_from(t@, sm.end, sec@, f1@, f2@, q2) =~= done + (
                    seq![sm] + matches_from(t@, sm.end, sec@, f1@, f2@, q2)));
                    done = done2;
                }
                pos = m.end;
            },
        }
    }
    proof {
        assert(done + Seq::<SpecMatch>::empty() =~= done);
    }
    (out1, out2)
}

/// The raw value strings of one document, one vector per bucket, each in
/// document order of the pattern occurrences that produced it.
pub struct Extraction {
    pub cpu_requests: Vec<String>,
    pub mem_requests: Vec<String>,
    pub cpu_limits: Vec<String>,
    pub mem_limits: Vec<String>,
}

fn lit_vec_requests() -> (r: Vec<char>)
    ensures
        r@ == lit_requests(),
{
    let mut v: Vec<char> = Vec::new();
    v.push('r');
    v.push('e');
    v.push('q');
    v.push('u');
    v.push('e');
    v.push('s');
    v.push('t');
    v.push('s');
    v.push(':');
    proof {
        assert(v@ =~= lit_requests());
    }
    v
}

fn lit_vec_limits() -> (r: Vec<char>)
    ensures
        r@ == lit_limits(),
{
    let mut v: Vec<char> = Vec::new();
    v.push('l');
    v.push('i');
    v.push('m');
    v.push('i');
    v.push('t');
    v.push('s');
    v.push(':');
    proof {
        assert(v@ =~= lit_limits());
    }
    v
}

fn lit_vec_cpu() -> (r: Vec<char>)
    ensures
        r@ == lit_cpu(),
{
    let mut v: Vec<char> = Vec::new();
    v.push('c');
    v.push('p');
    v.push('u');
    v.push(':');
    proof {
        assert(v@ =~= lit_cpu());
    }
    v
}

fn lit_vec_memory() -> (r: Vec<char>)
    ensures
        r@ == lit_memory(),
{
    let mut v: Vec<char> = Vec::new();
    v.push('m');
    v.push('e');
    v.push('m');
    v.push('o');
    v.push('r');
    v.push('y');
    v.push(':');
    proof {
        assert(v@ =~= lit_memory());
    }
    v
}

/// Applies the four patterns to one document and collects every bucket's raw
/// value strings.
pub fn extract(config: &str) -> (r: Extraction)
    ensures
        str_views(r.cpu_requests@) == spec_cpu_requests(config@),
        str_views(r.mem_requests@) == spec_mem_requests(config@),
        str_views(r.cpu_limits@) == spec_cpu_limits(config@),
        str_views(r.mem_limits@) == spec_mem_limits(config@),
{
    let t = chars_of(config);
    let req_v = lit_vec_requests();
    let lim_v = lit_vec_limits();
    let cpu_v = lit_vec_cpu();
    let mem_v = lit_vec_memory();
    let (mut a_cpu, a_mem) = extract_shape(config, &t, &req_v, &cpu_v, &mem_v, false);
    let (mut b_mem, mut b_cpu) = extract_shape(config, &t, &req_v, &mem_v, &cpu_v, true);
    let (mut c_cpu, c_mem) = extract_shape(config, &t, &lim_v, &cpu_v, &mem_v, false);
    let (mut d_mem, mut d_cpu) = extract_shape(config, &t, &lim_v, &mem_v, &cpu_v, true);
    let mut mem_req = a_mem;
    let mut mem_lim = c_mem;
    proof {
        lemma_views_concat(a_cpu@, b_cpu@);
        lemma_views_concat(mem_req@, b_mem@);
        lemma_views_concat(c_cpu@, d_cpu@);
        lemma_views_concat(mem_lim@, d_mem@);
    }
    a_cpu.append(&mut b_cpu);
    mem_req.append(&mut b_mem);
    c_cpu.append(&mut d_cpu);
    mem_lim.append(&mut d_mem);
    Extraction {
        cpu_requests: a_cpu,
        mem_requests: mem_req,
        cpu_limits: c_cpu,
        mem_limits: mem_lim,
    }
}

} // verus!
