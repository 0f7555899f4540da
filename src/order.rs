use vstd::prelude::*;

use std::cmp::Ordering;

use crate::time::TimePoint;
use crate::types::{TaggedData, TaggedTrace, Trace};

verus! {

/// When a record's event begins: a scope's opening, else the record's own time.
pub open spec fn start_of(t: TaggedTrace) -> TimePoint {
    match t.1 {
        TaggedData::Scope(s) => s.0,
        _ => t.0.time_point,
    }
}

pub open spec fn end_of(t: TaggedTrace) -> TimePoint {
    t.0.time_point
}

/// `a` goes strictly before `b`: it begins earlier, or begins together and ends later,
/// so that an enclosing scope comes before the scopes it encloses.
pub open spec fn precedes(a: TaggedTrace, b: TaggedTrace) -> bool {
    start_of(a).nanos < start_of(b).nanos || (start_of(a).nanos == start_of(b).nanos
        && end_of(a).nanos > end_of(b).nanos)
}

/// The records at positions `order` of `traces` come in the order of `precedes`.
pub open spec fn sorted_by_start(traces: Seq<TaggedTrace>, order: Seq<usize>) -> bool {
    forall|i: int, j: int|
        0 <= i < j < order.len() ==> !precedes(
            traces[#[trigger] order[j] as int],
            traces[#[trigger] order[i] as int],
        )
}

pub open spec fn positions_below(order: Seq<usize>, n: nat) -> bool {
    forall|i: int| 0 <= i < order.len() ==> #[trigger] order[i] < n
}

impl Trace<TaggedData> {
    pub fn start(&self) -> (r: &TimePoint)
        ensures
            *r == start_of(*self),
    {
        match &self.1 {
            TaggedData::Scope(start) => &start.0,
            _ => self.end(),
        }
    }

    pub fn end(&self) -> (r: &TimePoint)
        ensures
            *r == end_of(*self),
    {
        &self.0.time_point
    }

    /// Orders records by start, and of two that start together the one that ends later
    /// first.
    pub fn cmp_start(&self, other: &TaggedTrace) -> (r: Ordering)
        ensures
            (r == Ordering::Less) == precedes(*self, *other),
            (r == Ordering::Greater) == precedes(*other, *self),
    {
        let a = self.start().nanos;
        let b = other.start().nanos;
        if a < b {
            Ordering::Less
        } else if a > b {
            Ordering::Greater
        } else {
            let x = self.end().nanos;
            let y = other.end().nanos;
            if y < x {
                Ordering::Less
            } else if y > x {
                Ordering::Greater
            } else {
                Ordering::Equal
            }
        }
    }
}

fn merge(traces: &Vec<TaggedTrace>, a: Vec<usize>, b: Vec<usize>) -> (r: Vec<usize>)
    requires
        positions_below(a@, traces@.len()),
        positions_below(b@, traces@.len()),
        sorted_by_start(traces@, a@),
        sorted_by_start(traces@, b@),
    ensures
        r@.to_multiset() == a@.to_multiset().add(b@.to_multiset()),
        positions_below(r@, traces@.len()),
        sorted_by_start(traces@, r@),
{
    broadcast use vstd::seq_lib::to_multiset_build, vstd::multiset::group_multiset_axioms;

    let ghost t = traces@;
    let mut out: Vec<usize> = Vec::new();
    let mut i: usize = 0;
    let mut j: usize = 0;
    proof {
        assert(a@.take(0) =~= Seq::<usize>::empty());
        assert(b@.take(0) =~= Seq::<usize>::empty());
        vstd::seq_lib::lemma_multiset_commutative(a@.take(0), b@.take(0));
        assert(out@ =~= a@.take(0) + b@.take(0));
    }
    while i < a.len() || j < b.len()
        invariant
            i <= a@.len(),
            j <= b@.len(),
            t == traces@,
            positions_below(a@, t.len()),
            positions_below(b@, t.len()),
            sorted_by_start(t, a@),
            sorted_by_start(t, b@),
            positions_below(out@, t.len()),
            sorted_by_start(t, out@),
            out@.to_multiset() == a@.take(i as int).to_multiset().add(
                b@.take(j as int).to_multiset(),
            ),
            out@.len() > 0 && i < a@.len() ==> !precedes(
                t[a@[i as int] as int],
                t[out@.last() as int],
            ),
            out@.len() > 0 && j < b@.len() ==> !precedes(
                t[b@[j as int] as int],
                t[out@.last() as int],
            ),
        decreases a@.len() + b@.len() - i - j,
    {
        let take_a = if j >= b.len() {
            true
        } else if i >= a.len() {
            false
        } else {
            match traces[b[j]].cmp_start(&traces[a[i]]) {
                Ordering::Less => false,
                _ => true,
            }
        };
        let ghost before = out@;
        let x = if take_a {
            a[i]
        } else {
            b[j]
        };
        out.push(x);
        proof {
            assert forall|p: int, q: int|
                0 <= p < q < out@.len() implies !precedes(
                t[#[trigger] out@[q] as int],
                t[#[trigger] out@[p] as int],
            ) by {
                if q == out@.len() - 1 && p < before.len() - 1 {
                    assert(!precedes(t[before.last() as int], t[before[p] as int]));
                }
            }
            if take_a {
                if j < b@.len() {
                    assert(!precedes(t[b@[j as int] as int], t[a@[i as int] as int]));
                }
                assert(a@.take(i + 1) =~= a@.take(i as int).push(x));
                assert(out@ =~= before.push(x));
                vstd::seq_lib::to_multiset_build(before, x);
                vstd::seq_lib::to_multiset_build(a@.take(i as int), x);
                assert(out@.to_multiset() =~= a@.take(i + 1).to_multiset().add(
                    b@.take(j as int).to_multiset(),
                ));
                if i + 1 < a@.len() {
                    assert(!precedes(t[a@[i + 1] as int], t[a@[i as int] as int]));
                }
            } else {
                assert(b@.take(j + 1) =~= b@.take(j as int).push(x));
                assert(out@ =~= before.push(x));
                vstd::seq_lib::to_multiset_build(before, x);
                vstd::seq_lib::to_multiset_build(b@.take(j as int), x);
                assert(out@.to_multiset() =~= a@.take(i as int).to_multiset().add(
                    b@.take(j + 1).to_multiset(),
                ));
                if j + 1 < b@.len() {
                    assert(!precedes(t[b@[j + 1] as int], t[b@[j as int] as int]));
                }
            }
        }
        if take_a {
            i = i + 1;
        } else {
            j = j + 1;
        }
    }
    proof {
        assert(a@.take(a@.len() as int) =~= a@);
        assert(b@.take(b@.len() as int) =~= b@);
    }
    out
}

/// Sorts the positions `positions` of `traces` by the start of their records.
pub fn sort_positions(traces: &Vec<TaggedTrace>, positions: Vec<usize>) -> (r: Vec<usize>)
    requires
        positions_below(positions@, traces@.len()),
    ensures
        r@.to_multiset() == positions@.to_multiset(),
        positions_below(r@, traces@.len()),
        sorted_by_start(traces@, r@),
    decreases positions@.len(),
{
    broadcast use vstd::seq_lib::lemma_multiset_commutative;

    if positions.len() <= 1 {
        return positions;
    }
    let ghost all = positions@;
    let mut left = positions;
    let mid = left.len() / 2;
    let right = left.split_off(mid);
    proof {
        assert(all =~= left@ + right@);
    }
    let l = sort_positions(traces, left);
    let r = sort_positions(traces, right);
    merge(traces, l, r)
}

} // verus!
