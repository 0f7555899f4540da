use vstd::prelude::*;

pub mod event_types;
pub mod global;
pub mod json;
pub mod order;
pub mod record_scope;
pub mod scopes;
pub mod slots;
pub mod time;
pub mod types;
pub mod valid;

pub use global::{record_custom_instant, record_custom_scope, record_custom_value};
pub use record_scope::RecordScope;
pub use scopes::Scope;
pub use time::TimePoint;
pub use types::{InstantScopeSize, Value};

verus! {

/// One argument of a call site: a key and its value, already rendered as JSON text.
pub struct Arg<'a> {
    pub key: &'a str,
    pub value: &'a str,
}

/// Immutable description of one call site, shared by every record it produces.
pub struct TraceInfo<'a> {
    pub name: &'a str,
    pub category: &'a str,
    /// The process grouping label of the trace viewer.
    pub header: &'a str,
    pub args: &'a [Arg<'a>],
}

pub type Info = &'static TraceInfo<'static>;

} // verus!
