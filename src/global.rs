use vstd::prelude::*;

use crate::Info;
use crate::time::TimePoint;
use crate::types::{
    tag_counter, tag_instant, tag_scope, BaseInfo, CounterTrace, InstantScopeSize, InstantTrace,
    ScopeTrace, Start, TaggedData, TaggedTrace, Trace, Value,
};

verus! {

/// The records of one kind gathered since the last flush.
pub struct Buffer<Data> {
    buffer: Vec<Data>,
}

impl<Data> View for Buffer<Data> {
    type V = Seq<Data>;

    closed spec fn view(&self) -> Seq<Data> {
        self.buffer@
    }
}

impl<Data> Buffer<Data> {
    pub fn init() -> (r: Buffer<Data>)
        ensures
            r@ == Seq::<Data>::empty(),
    {
        Buffer { buffer: Vec::new() }
    }

    /// Appends one record.
    pub fn push(&mut self, value: Data)
        ensures
            final(self)@ == old(self)@.push(value),
    {
        self.buffer.push(value);
    }

    /// Hands out every record gathered so far and leaves the buffer empty.
    pub fn flush(&mut self) -> (r: Vec<Data>)
        ensures
            r@ == old(self)@,
            final(self)@ == Seq::<Data>::empty(),
    {
        let mut taken: Vec<Data> = Vec::new();
        std::mem::swap(&mut taken, &mut self.buffer);
        taken
    }
}

/// Records a scope of call site `info` on thread `thread_id`, opened at `start`
/// and closed at `end`.
pub fn record_custom_scope(
    scopes: &mut Buffer<ScopeTrace>,
    thread_id: u64,
    info: Info,
    start: TimePoint,
    end: TimePoint,
)
    ensures
        final(scopes)@ == old(scopes)@.push(
            Trace(BaseInfo { thread_id, time_point: end, info }, Start(start)),
        ),
{
    scopes.push(Trace(BaseInfo::build(info, end, thread_id), Start(start)));
}

/// Records a counter sample of call site `info` on thread `thread_id` at `now`.
pub fn record_custom_value(
    counters: &mut Buffer<CounterTrace>,
    thread_id: u64,
    info: Info,
    now: TimePoint,
    value: Value,
)
    ensures
        final(counters)@ == old(counters)@.push(
            Trace(BaseInfo { thread_id, time_point: now, info }, value),
        ),
{
    counters.push(Trace(BaseInfo::build(info, now, thread_id), value));
}

/// Records an instant marker of call site `info` on thread `thread_id` at `now`.
pub fn record_custom_instant(
    instants: &mut Buffer<InstantTrace>,
    thread_id: u64,
    info: Info,
    now: TimePoint,
    scope_size: InstantScopeSize,
)
    ensures
        final(instants)@ == old(instants)@.push(
            Trace(BaseInfo { thread_id, time_point: now, info }, scope_size),
        ),
{
    instants.push(Trace(BaseInfo::build(info, now, thread_id), scope_size));
}

/// What one flush of the three buffers hands out: the scopes, then the counters,
/// then the instants, each kind in the order it was recorded.
pub open spec fn flushed(
    scopes: Seq<ScopeTrace>,
    counters: Seq<CounterTrace>,
    instants: Seq<InstantTrace>,
) -> Seq<TaggedTrace> {
    scopes.map_values(|t: ScopeTrace| tag_scope(t)) + counters.map_values(
        |t: CounterTrace| tag_counter(t),
    ) + instants.map_values(|t: InstantTrace| tag_instant(t))
}

/// Empties the three buffers and returns their records, tagged by kind.
pub fn flush_buffers(
    scopes: &mut Buffer<ScopeTrace>,
    counters: &mut Buffer<CounterTrace>,
    instants: &mut Buffer<InstantTrace>,
) -> (r: Vec<TaggedTrace>)
    ensures
        r@ == flushed(old(scopes)@, old(counters)@, old(instants)@),
        final(scopes)@ == Seq::<ScopeTrace>::empty(),
        final(counters)@ == Seq::<CounterTrace>::empty(),
        final(instants)@ == Seq::<InstantTrace>::empty(),
{
    let s = scopes.flush();
    let c = counters.flush();
    let i = instants.flush();
    let ghost s0 = s@;
    let ghost c0 = c@;
    let ghost i0 = i@;
    let mut out: Vec<TaggedTrace> = Vec::new();
    for t in it: s.into_iter()
        invariant
            it.seq() == s0,
            out@ == it.seq().take(it.index() as int).map_values(|t: ScopeTrace| tag_scope(t)),
    {
        assert(it.seq().take(it.index() + 1) =~= it.seq().take(it.index() as int).push(t));
        out.push(t.tag());
    }
    let ghost n0 = out@;
    for t in it: c.into_iter()
        invariant
            it.seq() == c0,
            out@ == n0 + it.seq().take(it.index() as int).map_values(
                |t: CounterTrace| tag_counter(t),
            ),
    {
        assert(it.seq().take(it.index() + 1) =~= it.seq().take(it.index() as int).push(t));
        out.push(t.tag());
    }
    let ghost n1 = out@;
    for t in it: i.into_iter()
        invariant
            it.seq() == i0,
            out@ == n1 + it.seq().take(it.index() as int).map_values(
                |t: InstantTrace| tag_instant(t),
            ),
    {
        assert(it.seq().take(it.index() + 1) =~= it.seq().take(it.index() as int).push(t));
        out.push(t.tag());
    }
    proof {
        assert(s0.take(s0.len() as int) =~= s0);
        assert(c0.take(c0.len() as int) =~= c0);
        assert(i0.take(i0.len() as int) =~= i0);
        assert(out@ =~= flushed(s0, c0, i0));
    }
    out
}

/// Flushing twice with nothing recorded in between: the buffers are left empty by the
/// first flush, and the second flush hands out nothing.
pub proof fn lemma_second_flush_empty()
    ensures
        flushed(Seq::empty(), Seq::empty(), Seq::empty()) == Seq::<TaggedTrace>::empty(),
{
    assert(flushed(Seq::empty(), Seq::empty(), Seq::empty()) =~= Seq::<TaggedTrace>::empty());
}

/// The three buffers' contents after `t` has been recorded into the buffer of its kind.
pub open spec fn record_into(
    b: (Seq<ScopeTrace>, Seq<CounterTrace>, Seq<InstantTrace>),
    t: TaggedTrace,
) -> (Seq<ScopeTrace>, Seq<CounterTrace>, Seq<InstantTrace>) {
    match t.1 {
        TaggedData::Scope(s) => (b.0.push(Trace(t.0, s)), b.1, b.2),
        TaggedData::Counter(v) => (b.0, b.1.push(Trace(t.0, v)), b.2),
        TaggedData::Instant(z) => (b.0, b.1, b.2.push(Trace(t.0, z))),
    }
}

/// The buffers' contents, starting from empty buffers, after the records `events` were
/// recorded one after the other.
pub open spec fn record_all(events: Seq<TaggedTrace>) -> (
    Seq<ScopeTrace>,
    Seq<CounterTrace>,
    Seq<InstantTrace>,
)
    decreases events.len(),
{
    if events.len() == 0 {
        (Seq::empty(), Seq::empty(), Seq::empty())
    } else {
        record_into(record_all(events.drop_last()), events.last())
    }
}

/// However the recordings of any number of threads interleave, one flush afterwards hands
/// out exactly the recorded records: none lost, none duplicated.
pub proof fn lemma_flush_returns_every_record(events: Seq<TaggedTrace>)
    ensures
        ({
            let b = record_all(events);
            &&& flushed(b.0, b.1, b.2).to_multiset() == events.to_multiset()
            &&& flushed(b.0, b.1, b.2).len() == events.len()
        }),
    decreases events.len(),
{
    broadcast use vstd::seq_lib::lemma_multiset_commutative, vstd::seq_lib::to_multiset_build;

    if events.len() == 0 {
        let b = record_all(events);
        assert(flushed(b.0, b.1, b.2) =~= Seq::<TaggedTrace>::empty());
        assert(events =~= Seq::<TaggedTrace>::empty());
    } else {
        let prev = events.drop_last();
        let e = events.last();
        lemma_flush_returns_every_record(prev);
        let b = record_all(prev);
        let ms = b.0.map_values(|t: ScopeTrace| tag_scope(t));
        let mc = b.1.map_values(|t: CounterTrace| tag_counter(t));
        let mi = b.2.map_values(|t: InstantTrace| tag_instant(t));
        assert(events =~= prev.push(e));
        match e.1 {
            TaggedData::Scope(st) => {
                assert(b.0.push(Trace(e.0, st)).map_values(|t: ScopeTrace| tag_scope(t)) =~= ms.push(
                    e,
                ));
                assert(flushed(b.0, b.1, b.2).to_multiset() =~= ms.to_multiset().add(
                    mc.to_multiset(),
                ).add(mi.to_multiset()));
                assert(flushed(b.0.push(Trace(e.0, st)), b.1, b.2).to_multiset() =~= ms.push(
                    e,
                ).to_multiset().add(mc.to_multiset()).add(mi.to_multiset()));
            },
            TaggedData::Counter(v) => {
                assert(b.1.push(Trace(e.0, v)).map_values(|t: CounterTrace| tag_counter(t))
                    =~= mc.push(e));
                assert(flushed(b.0, b.1, b.2).to_multiset() =~= ms.to_multiset().add(
                    mc.to_multiset(),
                ).add(mi.to_multiset()));
                assert(flushed(b.0, b.1.push(Trace(e.0, v)), b.2).to_multiset() =~= ms.to_multiset().add(
                    mc.push(e).to_multiset(),
                ).add(mi.to_multiset()));
            },
            TaggedData::Instant(z) => {
                assert(b.2.push(Trace(e.0, z)).map_values(|t: InstantTrace| tag_instant(t))
                    =~= mi.push(e));
                assert(flushed(b.0, b.1, b.2) =~= ms + mc + mi);
                assert(flushed(b.0, b.1, b.2.push(Trace(e.0, z))) =~= (ms + mc + mi).push(e));
            },
        }
    }
}

} // verus!
