use vstd::prelude::*;

use crate::global::{flush_buffers, flushed, Buffer};
use crate::order::{sort_positions, sorted_by_start};
use crate::json::{
    array, array_text, event_text, json_string, member, member_text, meta_text, object,
    object_text, quoted, same_text, texts,
};
use crate::time::TimePoint;
use crate::types::{CounterTrace, InstantTrace, MetaTrace, Pid, ScopeTrace, TaggedTrace};

verus! {

/// Whether some entry of `entries` has key `k`.
pub open spec fn has_key(entries: Seq<(Seq<char>, Seq<char>)>, k: Seq<char>) -> bool {
    exists|i: int| 0 <= i < entries.len() && entries[i].0 == k
}

/// No two entries share a key.
pub open spec fn keys_unique(entries: Seq<(Seq<char>, Seq<char>)>) -> bool {
    forall|i: int, j: int|
        0 <= i < entries.len() && 0 <= j < entries.len() && i != j ==> entries[i].0 != entries[j].0
}

/// The events of a document: the naming records first, then the records, with times
/// relative to `zero`.
pub open spec fn document_events(
    zero: TimePoint,
    meta_traces: Seq<MetaTrace>,
    traces: Seq<TaggedTrace>,
) -> Seq<Seq<char>> {
    meta_traces.map_values(|m: MetaTrace| meta_text(m)) + traces.map_values(
        |t: TaggedTrace| event_text(t, zero),
    )
}

/// The trace document: the event list and the display unit, unless the session's metadata
/// holds an entry under the same key, then the session's metadata entries.
pub open spec fn document(
    zero: TimePoint,
    meta_data: Seq<(Seq<char>, Seq<char>)>,
    meta_traces: Seq<MetaTrace>,
    traces: Seq<TaggedTrace>,
) -> Seq<char> {
    let events = if has_key(meta_data, "traceEvents"@) {
        Seq::empty()
    } else {
        seq![member("traceEvents"@, array(document_events(zero, meta_traces, traces)))]
    };
    let unit = if has_key(meta_data, "displayTimeUnit"@) {
        Seq::empty()
    } else {
        seq![member("displayTimeUnit"@, quoted("ms"@))]
    };
    object(
        events + unit + meta_data.map_values(
            |kv: (Seq<char>, Seq<char>)| member(kv.0, kv.1),
        ),
    )
}

/// The positions `0 .. n` in ascending order.
pub open spec fn positions(n: nat) -> Seq<usize> {
    Seq::new(n, |k: int| k as usize)
}

/// The records at positions `order` of `traces`.
pub open spec fn arranged(traces: Seq<TaggedTrace>, order: Seq<usize>) -> Seq<TaggedTrace> {
    order.map_values(|k: usize| traces[k as int])
}

/// One recording session: its time origin, its metadata and its naming records.
pub struct RecordScope {
    record_start: TimePoint,
    meta_data: Vec<(String, String)>,
    meta_traces: Vec<MetaTrace>,
}

impl RecordScope {
    /// The time from which the document counts.
    pub closed spec fn start_time(&self) -> TimePoint {
        self.record_start
    }

    /// The metadata entries, each a key and the JSON text of its value.
    pub closed spec fn meta_entries(&self) -> Seq<(Seq<char>, Seq<char>)> {
        self.meta_data@.map_values(|kv: (String, String)| (kv.0@, kv.1@))
    }

    pub closed spec fn meta_records(&self) -> Seq<MetaTrace> {
        self.meta_traces@
    }

    pub closed spec fn wf(&self) -> bool {
        keys_unique(self.meta_entries())
    }

    /// A session whose time origin is `now`, with no metadata.
    pub fn start(now: TimePoint) -> (r: RecordScope)
        ensures
            r.wf(),
            r.start_time() == now,
            r.meta_entries() == Seq::<(Seq<char>, Seq<char>)>::empty(),
            r.meta_records() == Seq::<MetaTrace>::empty(),
    {
        let r = RecordScope { record_start: now, meta_data: Vec::new(), meta_traces: Vec::new() };
        proof {
            assert(r.meta_entries() =~= Seq::<(Seq<char>, Seq<char>)>::empty());
        }
        r
    }

    /// Moves the time origin to `now`.
    pub fn set_starting_time(&mut self, now: TimePoint)
        ensures
            final(self).start_time() == now,
            final(self).meta_entries() == old(self).meta_entries(),
            final(self).meta_records() == old(self).meta_records(),
            final(self).wf() == old(self).wf(),
    {
        self.record_start = now;
    }

    /// Sets the metadata entry `name` to the JSON text `value`, and returns the text it
    /// held before, if any.
    pub fn add_meta_data(&mut self, name: String, value: String) -> (r: Option<String>)
        requires
            old(self).wf(),
        ensures
            final(self).wf(),
            final(self).start_time() == old(self).start_time(),
            final(self).meta_records() == old(self).meta_records(),
            match r {
                Some(prev) => exists|i: int|
                    0 <= i < old(self).meta_entries().len() && old(self).meta_entries()[i].0
                        == name@ && prev@ == old(self).meta_entries()[i].1
                        && final(self).meta_entries() == old(self).meta_entries().update(
                        i,
                        (name@, value@),
                    ),
                None => !has_key(old(self).meta_entries(), name@) && final(self).meta_entries()
                    == old(self).meta_entries().push((name@, value@)),
            },
    {
        let ghost entries = self.meta_entries();
        let mut i: usize = 0;
        while i < self.meta_data.len()
            invariant
                i <= self.meta_data@.len(),
                entries == self.meta_entries(),
                entries == old(self).meta_entries(),
                keys_unique(entries),
                self.record_start == old(self).record_start,
                self.meta_traces@ == old(self).meta_traces@,
                forall|j: int| 0 <= j < i ==> entries[j].0 != name@,
            decreases self.meta_data@.len() - i,
        {
            if same_text(self.meta_data[i].0.as_str(), name.as_str()) {
                assert(entries[i as int].0 == name@);
                let mut prev = value;
                let ghost v = prev@;
                std::mem::swap(&mut self.meta_data[i as usize].1, &mut prev);
                proof {
                    assert(self.meta_entries() =~= entries.update(i as int, (name@, v)));
                    assert(keys_unique(self.meta_entries()));
                }
                return Some(prev);
            }
            i = i + 1;
        }
        let ghost v = value@;
        self.meta_data.push((name, value));
        proof {
            assert(self.meta_entries() =~= entries.push((name@, v)));
            assert(keys_unique(self.meta_entries()));
        }
        None
    }

    /// Names thread `thread_id` of the process group `header` as `name`.
    pub fn name_thread(&mut self, thread_id: u64, header: Pid, name: String)
        ensures
            final(self).start_time() == old(self).start_time(),
            final(self).meta_entries() == old(self).meta_entries(),
            final(self).meta_records() == old(self).meta_records().push(
                MetaTrace::ThreadName(header, thread_id, name),
            ),
            final(self).wf() == old(self).wf(),
    {
        self.meta_traces.push(MetaTrace::ThreadName(header, thread_id, name));
    }

    /// Renames the process group `old_header` to `new_header` in the viewer.
    pub fn final_header(&mut self, old_header: Pid, new_header: String)
        ensures
            final(self).start_time() == old(self).start_time(),
            final(self).meta_entries() == old(self).meta_entries(),
            final(self).meta_records() == old(self).meta_records().push(
                MetaTrace::ProcessName(old_header, new_header),
            ),
            final(self).wf() == old(self).wf(),
    {
        self.meta_traces.push(MetaTrace::ProcessName(old_header, new_header));
    }

    fn has_meta_key(&self, key: &str) -> (r: bool)
        ensures
            r == has_key(self.meta_entries(), key@),
    {
        let mut i: usize = 0;
        while i < self.meta_data.len()
            invariant
                i <= self.meta_data@.len(),
                forall|j: int| 0 <= j < i ==> self.meta_entries()[j].0 != key@,
            decreases self.meta_data@.len() - i,
        {
            if same_text(self.meta_data[i].0.as_str(), key) {
                assert(self.meta_entries()[i as int].0 == key@);
                return true;
            }
            i = i + 1;
        }
        false
    }

    /// Drains the three buffers and writes the trace document of this session, with the
    /// drained records put in the order of their start.
    pub fn fetch_data(
        &self,
        scopes: &mut Buffer<ScopeTrace>,
        counters: &mut Buffer<CounterTrace>,
        instants: &mut Buffer<InstantTrace>,
    ) -> (r: String)
        ensures
            ({
                let all = flushed(old(scopes)@, old(counters)@, old(instants)@);
                exists|order: Seq<usize>|
                    {
                        &&& order.to_multiset() == positions(all.len()).to_multiset()
                        &&& sorted_by_start(all, order)
                        &&& r@ == document(
                            self.start_time(),
                            self.meta_entries(),
                            self.meta_records(),
                            arranged(all, order),
                        )
                    }
            }),
            final(scopes)@ == Seq::<ScopeTrace>::empty(),
            final(counters)@ == Seq::<CounterTrace>::empty(),
            final(instants)@ == Seq::<InstantTrace>::empty(),
    {
        let traces = flush_buffers(scopes, counters, instants);
        let ghost metas = self.meta_traces@;
        let mut events: Vec<String> = Vec::new();
        let mut i: usize = 0;
        while i < self.meta_traces.len()
            invariant
                i <= metas.len(),
                metas == self.meta_traces@,
                texts(events@) == metas.take(i as int).map_values(|m: MetaTrace| meta_text(m)),
            decreases metas.len() - i,
        {
            let ghost before = events@;
            events.push(self.meta_traces[i].json_format());
            proof {
                assert(texts(events@) =~= texts(before).push(meta_text(metas[i as int])));
                assert(metas.take(i + 1) =~= metas.take(i as int).push(metas[i as int]));
                assert(texts(events@) =~= metas.take(i + 1).map_values(
                    |m: MetaTrace| meta_text(m),
                ));
            }
            i = i + 1;
        }
        let mut all_positions: Vec<usize> = Vec::new();
        let mut p: usize = 0;
        while p < traces.len()
            invariant
                p <= traces@.len(),
                all_positions@ == positions(p as nat),
            decreases traces@.len() - p,
        {
            all_positions.push(p);
            proof {
                assert(all_positions@ =~= positions((p + 1) as nat));
            }
            p = p + 1;
        }
        let order = sort_positions(&traces, all_positions);
        let ghost sorted = arranged(traces@, order@);
        let ghost n0 = texts(events@);
        let mut j: usize = 0;
        while j < order.len()
            invariant
                j <= order@.len(),
                sorted == arranged(traces@, order@),
                forall|q: int| 0 <= q < order@.len() ==> #[trigger] order@[q] < traces@.len(),
                texts(events@) == n0 + sorted.take(j as int).map_values(
                    |t: TaggedTrace| event_text(t, self.record_start),
                ),
            decreases order@.len() - j,
        {
            let ghost before = events@;
            events.push(traces[order[j]].json_format(self.record_start));
            proof {
                assert(texts(events@) =~= texts(before).push(event_text(sorted[j as int], self.record_start)));
                assert(sorted.take(j + 1) =~= sorted.take(j as int).push(sorted[j as int]));
                assert(texts(events@) =~= n0 + sorted.take(j + 1).map_values(
                    |t: TaggedTrace| event_text(t, self.record_start),
                ));
            }
            j = j + 1;
        }
        proof {
            assert(metas.take(metas.len() as int) =~= metas);
            assert(sorted.take(sorted.len() as int) =~= sorted);
            assert(texts(events@) =~= document_events(self.record_start, metas, sorted));
        }
        let mut members: Vec<String> = Vec::new();
        if !self.has_meta_key("traceEvents") {
            members.push(member_text("traceEvents", array_text(&events).as_str()));
        }
        if !self.has_meta_key("displayTimeUnit") {
            members.push(member_text("displayTimeUnit", json_string("ms").as_str()));
        }
        let ghost n1 = texts(members@);
        let mut k: usize = 0;
        while k < self.meta_data.len()
            invariant
                k <= self.meta_data@.len(),
                texts(members@) == n1 + self.meta_entries().take(k as int).map_values(
                    |kv: (Seq<char>, Seq<char>)| member(kv.0, kv.1),
                ),
            decreases self.meta_data@.len() - k,
        {
            let entry = &self.meta_data[k];
            let ghost before = members@;
            members.push(member_text(entry.0.as_str(), entry.1.as_str()));
            proof {
                let e = self.meta_entries();
                assert(texts(members@) =~= texts(before).push(member(e[k as int].0, e[k as int].1)));
                assert(e.take(k + 1) =~= e.take(k as int).push(e[k as int]));
                assert(texts(members@) =~= n1 + e.take(k + 1).map_values(
                    |kv: (Seq<char>, Seq<char>)| member(kv.0, kv.1),
                ));
            }
            k = k + 1;
        }
        proof {
            let e = self.meta_entries();
            assert(e.take(e.len() as int) =~= e);
            assert(texts(members@) =~= {
                let events = if has_key(e, "traceEvents"@) {
                    Seq::empty()
                } else {
                    seq![member("traceEvents"@, array(document_events(self.record_start, metas, sorted)))]
                };
                let unit = if has_key(e, "displayTimeUnit"@) {
                    Seq::empty()
                } else {
                    seq![member("displayTimeUnit"@, quoted("ms"@))]
                };
                events + unit + e.map_values(|kv: (Seq<char>, Seq<char>)| member(kv.0, kv.1))
            });
        }
        let r = object_text(&members);
        proof {
            assert(sorted_by_start(traces@, order@));
        }
        r
    }
}

} // verus!
