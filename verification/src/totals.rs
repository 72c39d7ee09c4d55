//! The aggregator: per-document totals and their field-wise combination.
//!
//! One `ResourceTotals` value is produced per document by `summarize`; a
//! run's values are reduced to a grand total by `combine`.  Addition is
//! field-wise and saturates at `u64::MAX`, so the combination is a
//! commutative monoid with the all-zero totals as identity: the order in
//! which documents are combined never affects the result.

use vstd::prelude::*;
use vstd::seq_lib::commutative_foldl;
use vstd::seq_lib::lemma_fold_left_permutation;
use crate::extract::Extraction;
use crate::extract::extract;
use crate::extract::spec_cpu_limits;
use crate::extract::spec_cpu_requests;
use crate::extract::spec_mem_limits;
use crate::extract::spec_mem_requests;
use crate::extract::str_views;
use crate::numeric::num_prefix;
use crate::numeric::num_prefix_or_zero;

verus! {

/// The four accumulation buckets of one document or of a whole scan.
/// Memory is the raw integer magnitude of the source text; CPU is counted
/// in millicores (a fractional core count times one thousand).
#[derive(Clone, Copy, Debug, PartialEq, Eq, Structural)]
pub struct ResourceTotals {
    pub memory_requested: u64,
    pub memory_limit: u64,
    pub cpu_requested_milli: u64,
    pub cpu_limit_milli: u64,
}

/// Saturates an exact sum at `u64::MAX`.
pub open spec fn clamp64(x: int) -> int {
    if x > u64::MAX {
        u64::MAX as int
    } else {
        x
    }
}

/// The all-zero totals: the identity of `combine`.
pub open spec fn zero_totals() -> ResourceTotals {
    ResourceTotals {
        memory_requested: 0,
        memory_limit: 0,
        cpu_requested_milli: 0,
        cpu_limit_milli: 0,
    }
}

/// Field-wise saturating addition of two totals.
pub open spec fn spec_add(a: ResourceTotals, b: ResourceTotals) -> ResourceTotals {
    ResourceTotals {
        memory_requested: clamp64(a.memory_requested + b.memory_requested) as u64,
        memory_limit: clamp64(a.memory_limit + b.memory_limit) as u64,
        cpu_requested_milli: clamp64(a.cpu_requested_milli + b.cpu_requested_milli) as u64,
        cpu_limit_milli: clamp64(a.cpu_limit_milli + b.cpu_limit_milli) as u64,
    }
}

/// The folding step of one field's exact (unclamped) sum.
pub open spec fn f_mem_req() -> spec_fn(int, ResourceTotals) -> int {
    |b: int, r: ResourceTotals| b + r.memory_requested
}

pub open spec fn f_mem_lim() -> spec_fn(int, ResourceTotals) -> int {
    |b: int, r: ResourceTotals| b + r.memory_limit
}

pub open spec fn f_cpu_req() -> spec_fn(int, ResourceTotals) -> int {
    |b: int, r: ResourceTotals| b + r.cpu_requested_milli
}

pub open spec fn f_cpu_lim() -> spec_fn(int, ResourceTotals) -> int {
    |b: int, r: ResourceTotals| b + r.cpu_limit_milli
}

/// The exact (unclamped) sum of one field over a sequence of totals.
pub open spec fn sum_mem_req(s: Seq<ResourceTotals>) -> int {
    s.fold_left(0int, f_mem_req())
}

pub open spec fn sum_mem_lim(s: Seq<ResourceTotals>) -> int {
    s.fold_left(0int, f_mem_lim())
}

pub open spec fn sum_cpu_req(s: Seq<ResourceTotals>) -> int {
    s.fold_left(0int, f_cpu_req())
}

pub open spec fn sum_cpu_lim(s: Seq<ResourceTotals>) -> int {
    s.fold_left(0int, f_cpu_lim())
}

/// The combination of a whole sequence of totals: each field is the exact
/// sum of that field, saturated at `u64::MAX`.
pub open spec fn combined(s: Seq<ResourceTotals>) -> ResourceTotals {
    ResourceTotals {
        memory_requested: clamp64(sum_mem_req(s)) as u64,
        memory_limit: clamp64(sum_mem_lim(s)) as u64,
        cpu_requested_milli: clamp64(sum_cpu_req(s)) as u64,
        cpu_limit_milli: clamp64(sum_cpu_lim(s)) as u64,
    }
}

/// Each field sum is non-negative.
pub proof fn lemma_sums_nonneg(s: Seq<ResourceTotals>)
    ensures
        sum_mem_req(s) >= 0,
        sum_mem_lim(s) >= 0,
        sum_cpu_req(s) >= 0,
        sum_cpu_lim(s) >= 0,
    decreases s.len(),
{
    if s.len() > 0 {
        lemma_sums_nonneg(s.drop_last());
        assert(sum_mem_req(s) == sum_mem_req(s.drop_last()) + s.last().memory_requested);
        assert(sum_mem_lim(s) == sum_mem_lim(s.drop_last()) + s.last().memory_limit);
        assert(sum_cpu_req(s) == sum_cpu_req(s.drop_last()) + s.last().cpu_requested_milli);
        assert(sum_cpu_lim(s) == sum_cpu_lim(s.drop_last()) + s.last().cpu_limit_milli);
    }
}

/// Extending a prefix by one element adds that element's fields to the sums.
proof fn lemma_sum_step(s: Seq<ResourceTotals>, i: int)
    requires
        0 <= i < s.len(),
    ensures
        sum_mem_req(s.take(i + 1)) == sum_mem_req(s.take(i)) + s[i].memory_requested,
        sum_mem_lim(s.take(i + 1)) == sum_mem_lim(s.take(i)) + s[i].memory_limit,
        sum_cpu_req(s.take(i + 1)) == sum_cpu_req(s.take(i)) + s[i].cpu_requested_milli,
        sum_cpu_lim(s.take(i + 1)) == sum_cpu_lim(s.take(i)) + s[i].cpu_limit_milli,
{
    assert(s.take(i + 1).drop_last() =~= s.take(i));
    assert(s.take(i + 1).last() == s[i]);
}

/// Saturating an already saturated partial sum loses nothing.
proof fn lemma_clamp_chain(a: int, b: int)
    requires
        a >= 0,
        0 <= b <= u64::MAX,
    ensures
        clamp64(clamp64(a) + b) == clamp64(a + b),
{
}

/// Adds two counters, saturating at `u64::MAX`.
fn sat_add(a: u64, b: u64) -> (r: u64)
    ensures
        r as int == clamp64(a + b),
{
    if a > u64::MAX - b {
        u64::MAX
    } else {
        a + b
    }
}

impl ResourceTotals {
    /// The all-zero totals.
    pub fn zero() -> (r: ResourceTotals)
        ensures
            r == zero_totals(),
    {
        ResourceTotals {
            memory_requested: 0,
            memory_limit: 0,
            cpu_requested_milli: 0,
            cpu_limit_milli: 0,
        }
    }

    /// Field-wise saturating addition: the combination of two totals.
    pub fn combine_with(self, other: ResourceTotals) -> (r: ResourceTotals)
        ensures
            r == spec_add(self, other),
    {
        ResourceTotals {
            memory_requested: sat_add(self.memory_requested, other.memory_requested),
            memory_limit: sat_add(self.memory_limit, other.memory_limit),
            cpu_requested_milli: sat_add(self.cpu_requested_milli, other.cpu_requested_milli),
            cpu_limit_milli: sat_add(self.cpu_limit_milli, other.cpu_limit_milli),
        }
    }
}

/// Reduces a sequence of per-document totals into one grand total, starting
/// from the all-zero identity.
pub fn combine(list: &Vec<ResourceTotals>) -> (r: ResourceTotals)
    ensures
        r == combined(list@),
{
    let mut acc = ResourceTotals::zero();
    let mut i: usize = 0;
    proof {
        assert(list@.take(0int) =~= Seq::<ResourceTotals>::empty());
    }
    while i < list.len()
        invariant
            i <= list@.len(),
            acc == combined(list@.take(i as int)),
        decreases list@.len() - i,
    {
        proof {
            lemma_sum_step(list@, i as int);
            lemma_sums_nonneg(list@.take(i as int));
            lemma_clamp_chain(sum_mem_req(list@.take(i as int)), list@[i as int].memory_requested as int);
            lemma_clamp_chain(sum_mem_lim(list@.take(i as int)), list@[i as int].memory_limit as int);
            lemma_clamp_chain(sum_cpu_req(list@.take(i as int)), list@[i as int].cpu_requested_milli as int);
            lemma_clamp_chain(sum_cpu_lim(list@.take(i as int)), list@[i as int].cpu_limit_milli as int);
        }
        acc = acc.combine_with(list[i]);
        i = i + 1;
    }
    proof {
        assert(list@.take(list@.len() as int) =~= list@);
    }
    acc
}

/// The folding step of a bucket's exact (unclamped) prefix sum.
pub open spec fn f_prefix() -> spec_fn(int, Seq<char>) -> int {
    |b: int, s: Seq<char>| b + num_prefix(s)
}

/// The exact (unclamped) sum of the numeric prefixes of a bucket's raw
/// value strings.
pub open spec fn sum_prefixes(ss: Seq<Seq<char>>) -> int {
    ss.fold_left(0int, f_prefix())
}

/// A sum of numeric prefixes is non-negative.
pub proof fn lemma_sum_prefixes_nonneg(ss: Seq<Seq<char>>)
    ensures
        sum_prefixes(ss) >= 0,
    decreases ss.len(),
{
    if ss.len() > 0 {
        lemma_sum_prefixes_nonneg(ss.drop_last());
        assert(sum_prefixes(ss) == sum_prefixes(ss.drop_last()) + num_prefix(ss.last()));
    }
}

proof fn lemma_sum_prefixes_step(ss: Seq<Seq<char>>, i: int)
    requires
        0 <= i < ss.len(),
    ensures
        sum_prefixes(ss.take(i + 1)) == sum_prefixes(ss.take(i)) + num_prefix(ss[i]),
{
    assert(ss.take(i + 1).drop_last() =~= ss.take(i));
    assert(ss.take(i + 1).last() == ss[i]);
}

/// Sums the numeric prefixes of one bucket, saturating at `u64::MAX`.
fn sum_bucket(v: &Vec<String>) -> (r: u64)
    ensures
        r as int == clamp64(sum_prefixes(str_views(v@))),
{
    let ghost ss = str_views(v@);
    proof {
        assert(ss.len() == v@.len());
        assert(ss.take(0int) =~= Seq::<Seq<char>>::empty());
    }
    let mut r: u64 = 0;
    let mut i: usize = 0;
    while i < v.len()
        invariant
            i <= v@.len(),
            ss == str_views(v@),
            ss.len() == v@.len(),
            r as int == clamp64(sum_prefixes(ss.take(i as int))),
        decreases v@.len() - i,
    {
        let p = num_prefix_or_zero(v[i].as_str());
        proof {
            assert(ss[i as int] == v@[i as int]@);
            lemma_sum_prefixes_step(ss, i as int);
            lemma_sum_prefixes_nonneg(ss.take(i as int));
            lemma_clamp_chain(sum_prefixes(ss.take(i as int)), p as int);
        }
        r = sat_add(r, p);
        i = i + 1;
    }
    proof {
        assert(ss.take(ss.len() as int) =~= ss);
    }
    r
}

/// The totals of one document: every bucket's raw strings are normalized by
/// their numeric prefixes and summed, saturating at `u64::MAX`.
pub open spec fn spec_summarize(t: Seq<char>) -> ResourceTotals {
    ResourceTotals {
        memory_requested: clamp64(sum_prefixes(spec_mem_requests(t))) as u64,
        memory_limit: clamp64(sum_prefixes(spec_mem_limits(t))) as u64,
        cpu_requested_milli: clamp64(sum_prefixes(spec_cpu_requests(t))) as u64,
        cpu_limit_milli: clamp64(sum_prefixes(spec_cpu_limits(t))) as u64,
    }
}

/// Runs the section extractor on one document's text and reduces the four
/// buckets to that document's totals.
pub fn summarize(config: &str) -> (r: ResourceTotals)
    ensures
        r == spec_summarize(config@),
{
    let ex: Extraction = extract(config);
    ResourceTotals {
        memory_requested: sum_bucket(&ex.mem_requests),
        memory_limit: sum_bucket(&ex.mem_limits),
        cpu_requested_milli: sum_bucket(&ex.cpu_requests),
        cpu_limit_milli: sum_bucket(&ex.cpu_limits),
    }
}

/// Combining the empty sequence of totals yields the all-zero identity.
pub proof fn lemma_combine_identity()
    ensures
        combined(Seq::<ResourceTotals>::empty()) == zero_totals(),
{
    assert(sum_mem_req(Seq::<ResourceTotals>::empty()) == 0);
    assert(sum_mem_lim(Seq::<ResourceTotals>::empty()) == 0);
    assert(sum_cpu_req(Seq::<ResourceTotals>::empty()) == 0);
    assert(sum_cpu_lim(Seq::<ResourceTotals>::empty()) == 0);
}

/// Combining a sequence of totals is invariant under reordering: two
/// sequences holding the same totals the same number of times — one a
/// permutation of the other — combine to the same grand total, whatever
/// order the documents were visited in.
pub proof fn lemma_combine_order_invariant(s1: Seq<ResourceTotals>, s2: Seq<ResourceTotals>)
    requires
        s1.to_multiset() == s2.to_multiset(),
    ensures
        combined(s1) == combined(s2),
{
    assert(commutative_foldl(f_mem_req()));
    assert(commutative_foldl(f_mem_lim()));
    assert(commutative_foldl(f_cpu_req()));
    assert(commutative_foldl(f_cpu_lim()));
    lemma_fold_left_permutation(s1, s2, f_mem_req(), 0int);
    lemma_fold_left_permutation(s1, s2, f_mem_lim(), 0int);
    lemma_fold_left_permutation(s1, s2, f_cpu_req(), 0int);
    lemma_fold_left_permutation(s1, s2, f_cpu_lim(), 0int);
}

/// Mapping a function over two sequences holding the same elements the same
/// number of times yields sequences holding the same images the same number
/// of times.
proof fn lemma_map_values_to_multiset<A, B>(s1: Seq<A>, s2: Seq<A>, f: spec_fn(A) -> B)
    requires
        s1.to_multiset() == s2.to_multiset(),
    ensures
        s1.map_values(f).to_multiset() == s2.map_values(f).to_multiset(),
    decreases s1.len(),
{
    broadcast use vstd::seq_lib::group_to_multiset_ensures;
    broadcast use vstd::multiset::group_multiset_axioms;
    broadcast use vstd::multiset::lemma_update_same;
    broadcast use vstd::multiset::lemma_update_different;

    if s1.len() == 0 {
        assert(s1.to_multiset().len() == s1.len());
        assert(s2.to_multiset().len() == s2.len());
        assert(s2.len() == 0);
        assert(s1.map_values(f).to_multiset().len() == 0);
        assert(s2.map_values(f).to_multiset().len() == 0);
        assert(s1.map_values(f).to_multiset() =~= s2.map_values(f).to_multiset());
    } else {
        let n = s1.len() - 1;
        let x = s1[n];
        assert(s1.contains(x));
        assert(s2.to_multiset().count(x) > 0);
        assert(s2.contains(x));
        let i = choose|k: int| 0 <= k < s2.len() && s2[k] == x;
        let r1 = s1.remove(n);
        let r2 = s2.remove(i);
        assert(r1.to_multiset() =~= s1.to_multiset().remove(x));
        assert(r2.to_multiset() =~= s2.to_multiset().remove(x));
        lemma_map_values_to_multiset(r1, r2, f);
        assert(r1.map_values(f) =~= s1.map_values(f).remove(n));
        assert(r2.map_values(f) =~= s2.map_values(f).remove(i));
        let m1 = s1.map_values(f).to_multiset();
        let m2 = s2.map_values(f).to_multiset();
        let y0 = f(x);
        assert(s1.map_values(f)[n] == y0);
        assert(s2.map_values(f)[i] == y0);
        assert(s1.map_values(f).remove(n).to_multiset() =~= m1.remove(y0));
        assert(s2.map_values(f).remove(i).to_multiset() =~= m2.remove(y0));
        assert(m1.remove(y0) == m2.remove(y0));
        assert(s1.map_values(f).contains(y0));
        assert(m1.count(y0) > 0);
        assert(s2.map_values(f).contains(y0));
        assert(m2.count(y0) > 0);
        assert forall|y: B| m1.count(y) == m2.count(y) by {
            if y == y0 {
                assert(m1.remove(y0).count(y) == m1.count(y0) - 1);
                assert(m2.remove(y0).count(y) == m2.count(y0) - 1);
            } else {
                assert(m1.remove(y0).count(y) == m1.count(y));
                assert(m2.remove(y0).count(y) == m2.count(y));
            }
        };
        assert(m1 =~= m2);
    }
}

/// The summarizing of one document, as a function value.
pub open spec fn f_summarize() -> spec_fn(Seq<char>) -> ResourceTotals {
    |t: Seq<char>| spec_summarize(t)
}

/// The per-document totals of a sequence of document texts, in order.
pub open spec fn summaries_of(docs: Seq<Seq<char>>) -> Seq<ResourceTotals> {
    docs.map_values(f_summarize())
}

/// Scanning documents in any order yields the same grand total: for two
/// sequences of document texts that hold the same documents the same number
/// of times, the combination of the per-document totals is the same.
pub proof fn lemma_scan_order_invariant(docs1: Seq<Seq<char>>, docs2: Seq<Seq<char>>)
    requires
        docs1.to_multiset() == docs2.to_multiset(),
    ensures
        combined(summaries_of(docs1)) == combined(summaries_of(docs2)),
{
    lemma_map_values_to_multiset(docs1, docs2, f_summarize());
    lemma_combine_order_invariant(summaries_of(docs1), summaries_of(docs2));
}

/// Field-wise saturating addition is commutative.
pub proof fn lemma_add_commutative(a: ResourceTotals, b: ResourceTotals)
    ensures
        spec_add(a, b) == spec_add(b, a),
{
}

/// Field-wise saturating addition is associative.
pub proof fn lemma_add_associative(a: ResourceTotals, b: ResourceTotals, c: ResourceTotals)
    ensures
        spec_add(spec_add(a, b), c) == spec_add(a, spec_add(b, c)),
{
}

/// The all-zero totals are a two-sided identity of the addition.
pub proof fn lemma_add_identity(a: ResourceTotals)
    ensures
        spec_add(a, zero_totals()) == a,
        spec_add(zero_totals(), a) == a,
{
}

} // verus!
