use vstd::prelude::*;

use crate::Info;
use crate::global::Buffer;
use crate::slots::{SlotIndex, Slots};
use crate::time::TimePoint;
use crate::types::{BaseInfo, ScopeTrace, Start, Trace};

verus! {

/// An open scope of one call site: its opening time waits in the thread's arena under
/// `slot` until the scope is closed.
pub struct Scope {
    info: Info,
    slot: SlotIndex,
}

impl Scope {
    pub closed spec fn info(&self) -> Info {
        self.info
    }

    /// The arena position of the scope's opening time.
    pub closed spec fn slot_id(&self) -> nat {
        self.slot.id()
    }

    /// The handle of the scope's opening time.
    pub fn slot(&self) -> (r: &SlotIndex)
        ensures
            r.id() == self.slot_id(),
    {
        &self.slot
    }

    /// Opens a scope of call site `info` at `now`.
    pub fn start(info: Info, open_scopes: &mut Slots<TimePoint>, now: TimePoint) -> (r: Scope)
        requires
            old(open_scopes).wf(),
        ensures
            final(open_scopes).wf(),
            r.info() == info,
            !old(open_scopes)@.contains_key(r.slot_id()),
            final(open_scopes)@ == old(open_scopes)@.insert(r.slot_id(), now),
    {
        let slot = open_scope(open_scopes, now);
        Scope { info, slot }
    }
}

/// Keeps the opening time `now` of a scope in the thread's arena.
pub fn open_scope(open_scopes: &mut Slots<TimePoint>, now: TimePoint) -> (r: SlotIndex)
    requires
        old(open_scopes).wf(),
    ensures
        final(open_scopes).wf(),
        !old(open_scopes)@.contains_key(r.id()),
        final(open_scopes)@ == old(open_scopes)@.insert(r.id(), now),
{
    open_scopes.push(now)
}

fn pop_scope_opening_time(open_scopes: &mut Slots<TimePoint>, slot: SlotIndex) -> (r: TimePoint)
    requires
        old(open_scopes).wf(),
        old(open_scopes)@.contains_key(slot.id()),
    ensures
        final(open_scopes).wf(),
        r == old(open_scopes)@[slot.id()],
        final(open_scopes)@ == old(open_scopes)@.remove(slot.id()),
{
    open_scopes.take(slot)
}

/// Closes `scope` at `now` on thread `thread_id`: its opening time leaves the arena and
/// a scope record from that time to `now` joins `scopes`. The clock never goes back, so
/// `now` is not before the opening time.
pub fn close_scope(
    scope: Scope,
    open_scopes: &mut Slots<TimePoint>,
    thread_id: u64,
    now: TimePoint,
    scopes: &mut Buffer<ScopeTrace>,
)
    requires
        old(open_scopes).wf(),
        old(open_scopes)@.contains_key(scope.slot_id()),
        old(open_scopes)@[scope.slot_id()].nanos <= now.nanos,
    ensures
        final(scopes)@.last().1.0.nanos <= final(scopes)@.last().0.time_point.nanos,
        final(open_scopes).wf(),
        final(open_scopes)@ == old(open_scopes)@.remove(scope.slot_id()),
        final(scopes)@ == old(scopes)@.push(
            Trace(
                BaseInfo { thread_id, time_point: now, info: scope.info() },
                Start(old(open_scopes)@[scope.slot_id()]),
            ),
        ),
{
    let Scope { info, slot } = scope;
    let start = pop_scope_opening_time(open_scopes, slot);
    crate::global::record_custom_scope(scopes, thread_id, info, start, now);
}

} // verus!
