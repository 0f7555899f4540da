use vstd::prelude::*;

verus! {

/// The kinds of trace events this library writes.
#[derive(Debug, Clone, Copy, PartialEq, Eq, Structural)]
pub enum EventType {
    Scope,
    Instant,
    Counter,
}

/// The phase letter that the trace format gives each kind of event.
pub open spec fn phase_code(e: EventType) -> char {
    match e {
        EventType::Scope => 'X',
        EventType::Instant => 'i',
        EventType::Counter => 'C',
    }
}

impl EventType {
    pub fn code(self) -> (r: char)
        ensures
            r == phase_code(self),
    {
        match self {
            EventType::Scope => 'X',
            EventType::Instant => 'i',
            EventType::Counter => 'C',
        }
    }
}

} // verus!
