use vstd::prelude::*;

use crate::Info;
use crate::time::TimePoint;

verus! {

/// How far an instant marker is visible in the viewer.
#[derive(Debug, Clone, Copy, PartialEq, Eq, Structural, PartialOrd, Ord)]
pub enum InstantScopeSize {
    Thread,
    Process,
    Global,
}

/// The one-letter breadth code of the trace format.
pub open spec fn breadth_code(s: InstantScopeSize) -> char {
    match s {
        InstantScopeSize::Thread => 't',
        InstantScopeSize::Process => 'p',
        InstantScopeSize::Global => 'g',
    }
}

impl InstantScopeSize {
    pub fn code(self) -> (r: char)
        ensures
            r == breadth_code(self),
    {
        match self {
            InstantScopeSize::Thread => 't',
            InstantScopeSize::Process => 'p',
            InstantScopeSize::Global => 'g',
        }
    }
}

/// The payload of a counter sample.
#[derive(Debug, PartialEq, Eq)]
pub enum Value {
    UInt(u64),
    IInt(i64),
    /// A finite floating-point sample, held as the JSON number text that stands for it.
    Float(String),
}

/// Metadata common to every record: who recorded it, when, and at which call site.
#[derive(Clone, Copy)]
pub struct BaseInfo {
    pub thread_id: u64,
    pub time_point: TimePoint,
    pub info: Info,
}

impl BaseInfo {
    pub fn build(info: Info, time_point: TimePoint, thread_id: u64) -> (r: BaseInfo)
        ensures
            r == (BaseInfo { thread_id, time_point, info }),
    {
        BaseInfo { thread_id, time_point, info }
    }
}

/// The opening time of a scope; the record's own time point is its end.
#[derive(Clone, Copy)]
pub struct Start(pub TimePoint);

/// A record: common metadata and a payload of one kind.
pub struct Trace<Extra>(pub BaseInfo, pub Extra);

/// The payload of a record of any kind.
pub enum TaggedData {
    Scope(Start),
    Counter(Value),
    Instant(InstantScopeSize),
}

pub type TaggedTrace = Trace<TaggedData>;

pub type ScopeTrace = Trace<Start>;

pub type CounterTrace = Trace<Value>;

pub type InstantTrace = Trace<InstantScopeSize>;

pub open spec fn tag_scope(t: ScopeTrace) -> TaggedTrace {
    Trace(t.0, TaggedData::Scope(t.1))
}

pub open spec fn tag_counter(t: CounterTrace) -> TaggedTrace {
    Trace(t.0, TaggedData::Counter(t.1))
}

pub open spec fn tag_instant(t: InstantTrace) -> TaggedTrace {
    Trace(t.0, TaggedData::Instant(t.1))
}

impl Trace<Start> {
    pub fn tag(self) -> (r: TaggedTrace)
        ensures
            r == tag_scope(self),
    {
        Trace(self.0, TaggedData::Scope(self.1))
    }
}

impl Trace<Value> {
    pub fn tag(self) -> (r: TaggedTrace)
        ensures
            r == tag_counter(self),
    {
        Trace(self.0, TaggedData::Counter(self.1))
    }
}

impl Trace<InstantScopeSize> {
    pub fn tag(self) -> (r: TaggedTrace)
        ensures
            r == tag_instant(self),
    {
        Trace(self.0, TaggedData::Instant(self.1))
    }
}

/// The label under which the viewer groups events: a call site's header.
pub type Pid = &'static str;

/// A session-level naming record.
pub enum MetaTrace {
    /// Renames the process group `0` to `1`.
    ProcessName(Pid, String),
    /// Names thread `1` of process group `0` as `2`.
    ThreadName(Pid, u64, String),
}

} // verus!
