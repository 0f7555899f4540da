use vstd::prelude::*;

use crate::json::{
    array, counter_args, decimal, event_args, event_members, event_text, event_ts, info_args,
    lemma_counter_args_merge, member, members_of, meta_members, meta_text, object, quoted,
    trace_code,
};
use crate::record_scope::{document, document_events, has_key};
use crate::time::{duration_micros, TimePoint};
use crate::types::{breadth_code, MetaTrace, TaggedData, TaggedTrace, Value};

verus! {

/// `s` is a JSON value of nesting depth at most `depth`, made of JSON strings, integers,
/// the fragments that `fragment` accepts, and arrays and objects of these.
pub open spec fn json_value(s: Seq<char>, fragment: spec_fn(Seq<char>) -> bool, depth: nat) -> bool
    decreases depth,
{
    ||| (exists|c: Seq<char>| s == #[trigger] quoted(c))
    ||| (exists|n: int| s == #[trigger] decimal(n))
    ||| fragment(s)
    ||| (depth > 0 && exists|items: Seq<Seq<char>>|
        s == #[trigger] array(items) && forall|i: int|
            0 <= i < items.len() ==> json_value(#[trigger] items[i], fragment, (depth - 1) as nat))
    ||| (depth > 0 && exists|pairs: Seq<(Seq<char>, Seq<char>)>|
        s == object(#[trigger] members_of(pairs)) && forall|i: int|
            0 <= i < pairs.len() ==> json_value(#[trigger] pairs[i].1, fragment, (depth - 1) as nat))
}

/// The texts a record takes from its caller are JSON values: its call site's argument
/// values and, for a floating-point counter, the number's text.
pub open spec fn fragments_accepted(t: TaggedTrace, fragment: spec_fn(Seq<char>) -> bool) -> bool {
    &&& forall|i: int| 0 <= i < info_args(t.0.info).len() ==> fragment(#[trigger] info_args(t.0.info)[i].1)
    &&& match t.1 {
        TaggedData::Counter(Value::Float(x)) => fragment(x@),
        _ => true,
    }
}

proof fn lemma_string(c: Seq<char>, fragment: spec_fn(Seq<char>) -> bool, depth: nat)
    ensures
        json_value(quoted(c), fragment, depth),
{
    assert(quoted(c) == quoted(c));
}

proof fn lemma_integer(n: int, fragment: spec_fn(Seq<char>) -> bool, depth: nat)
    ensures
        json_value(decimal(n), fragment, depth),
{
    assert(decimal(n) == decimal(n));
}

proof fn lemma_object(
    pairs: Seq<(Seq<char>, Seq<char>)>,
    fragment: spec_fn(Seq<char>) -> bool,
    depth: nat,
)
    requires
        forall|i: int| 0 <= i < pairs.len() ==> json_value(#[trigger] pairs[i].1, fragment, depth),
    ensures
        json_value(object(members_of(pairs)), fragment, depth + 1),
{
    assert(members_of(pairs) == members_of(pairs));
}

proof fn lemma_array(items: Seq<Seq<char>>, fragment: spec_fn(Seq<char>) -> bool, depth: nat)
    requires
        forall|i: int| 0 <= i < items.len() ==> json_value(#[trigger] items[i], fragment, depth),
    ensures
        json_value(array(items), fragment, depth + 1),
{
    assert(array(items) == array(items));
}

proof fn lemma_event(t: TaggedTrace, zero: TimePoint, fragment: spec_fn(Seq<char>) -> bool)
    requires
        fragments_accepted(t, fragment),
    ensures
        json_value(event_text(t, zero), fragment, 2),
{
    let info = t.0.info;
    let a = event_args(t);
    assert forall|i: int| 0 <= i < a.len() implies json_value(#[trigger] a[i].1, fragment, 0) by {
        match t.1 {
            TaggedData::Counter(v) => {
                lemma_counter_args_merge(info, v);
                if i == 0 {
                    match v {
                        Value::UInt(u) => lemma_integer(u as int, fragment, 0),
                        Value::IInt(n) => lemma_integer(n as int, fragment, 0),
                        Value::Float(x) => {},
                    }
                } else {
                    assert(counter_args(info, v)[i].0 != info.name@);
                    assert(info_args(info).contains(counter_args(info, v)[i]));
                    let j = choose|j: int|
                        0 <= j < info_args(info).len() && info_args(info)[j] == counter_args(info, v)[i];
                    assert(fragment(info_args(info)[j].1));
                }
            },
            _ => {
                assert(fragment(info_args(info)[i].1));
            },
        }
    }
    lemma_object(a, fragment, 0);
    let args = object(members_of(a));
    let head = seq![("args"@, args), ("cat"@, quoted(info.category@))];
    let dur = match t.1 {
        TaggedData::Scope(s) => seq![("dur"@, decimal(duration_micros(zero, s.0, t.0.time_point)))],
        _ => Seq::empty(),
    };
    let mid = seq![
        ("name"@, quoted(info.name@)),
        ("ph"@, quoted(seq![trace_code(t)])),
        ("pid"@, quoted(info.header@)),
    ];
    let breadth = match t.1 {
        TaggedData::Instant(z) => seq![("s"@, quoted(seq![breadth_code(z)]))],
        _ => Seq::empty(),
    };
    let tail = seq![("tid"@, decimal(t.0.thread_id as int)), ("ts"@, decimal(event_ts(t, zero)))];
    let pairs = head + dur + mid + breadth + tail;
    assert(members_of(pairs) =~= event_members(t, zero));
    assert forall|i: int| 0 <= i < pairs.len() implies json_value(#[trigger] pairs[i].1, fragment, 1) by {
        lemma_string(info.category@, fragment, 1);
        lemma_string(info.name@, fragment, 1);
        lemma_string(seq![trace_code(t)], fragment, 1);
        lemma_string(info.header@, fragment, 1);
        lemma_integer(t.0.thread_id as int, fragment, 1);
        lemma_integer(event_ts(t, zero), fragment, 1);
        match t.1 {
            TaggedData::Scope(s) => lemma_integer(duration_micros(zero, s.0, t.0.time_point), fragment, 1),
            TaggedData::Instant(z) => lemma_string(seq![breadth_code(z)], fragment, 1),
            _ => {},
        }
    }
    lemma_object(pairs, fragment, 1);
}

proof fn lemma_meta(m: MetaTrace, fragment: spec_fn(Seq<char>) -> bool)
    ensures
        json_value(meta_text(m), fragment, 2),
{
    let (pid, tid, name, kind) = match m {
        MetaTrace::ProcessName(pid, name) => (pid@, 0int, name@, "process_name"@),
        MetaTrace::ThreadName(pid, tid, name) => (pid@, tid as int, name@, "thread_name"@),
    };
    let inner = seq![("name"@, quoted(name))];
    lemma_string(name, fragment, 0);
    lemma_object(inner, fragment, 0);
    assert(members_of(inner) =~= seq![member("name"@, quoted(name))]);
    let pairs = seq![
        ("args"@, object(members_of(inner))),
        ("cat"@, quoted("__metadata"@)),
        ("name"@, quoted(kind)),
        ("ph"@, quoted("M"@)),
        ("pid"@, quoted(pid)),
        ("tid"@, decimal(tid)),
        ("ts"@, decimal(0)),
    ];
    assert(members_of(pairs) =~= meta_members(m));
    lemma_string("__metadata"@, fragment, 1);
    lemma_string(kind, fragment, 1);
    lemma_string("M"@, fragment, 1);
    lemma_string(pid, fragment, 1);
    lemma_integer(tid, fragment, 1);
    lemma_integer(0, fragment, 1);
    lemma_object(pairs, fragment, 1);
}

/// The trace document is a JSON object built of JSON strings, integers, arrays and objects
/// around the texts its callers supplied, whenever those texts are JSON values: the
/// metadata values, the call sites' argument values and the floating-point counter texts.
pub proof fn lemma_document_is_json(
    zero: TimePoint,
    meta_data: Seq<(Seq<char>, Seq<char>)>,
    meta_traces: Seq<MetaTrace>,
    traces: Seq<TaggedTrace>,
    fragment: spec_fn(Seq<char>) -> bool,
)
    requires
        forall|k: int| 0 <= k < meta_data.len() ==> fragment(#[trigger] meta_data[k].1),
        forall|k: int| 0 <= k < traces.len() ==> fragments_accepted(#[trigger] traces[k], fragment),
    ensures
        json_value(document(zero, meta_data, meta_traces, traces), fragment, 4),
{
    let events = document_events(zero, meta_traces, traces);
    assert forall|i: int| 0 <= i < events.len() implies json_value(#[trigger] events[i], fragment, 2) by {
        if i < meta_traces.len() {
            lemma_meta(meta_traces[i], fragment);
        } else {
            lemma_event(traces[i - meta_traces.len()], zero, fragment);
        }
    }
    lemma_array(events, fragment, 2);
    lemma_string("ms"@, fragment, 3);
    let ev = if has_key(meta_data, "traceEvents"@) {
        Seq::empty()
    } else {
        seq![("traceEvents"@, array(events))]
    };
    let unit = if has_key(meta_data, "displayTimeUnit"@) {
        Seq::empty()
    } else {
        seq![("displayTimeUnit"@, quoted("ms"@))]
    };
    let pairs = ev + unit + meta_data;
    assert(members_of(pairs) =~= (if has_key(meta_data, "traceEvents"@) {
        Seq::empty()
    } else {
        seq![member("traceEvents"@, array(events))]
    }) + (if has_key(meta_data, "displayTimeUnit"@) {
        Seq::empty()
    } else {
        seq![member("displayTimeUnit"@, quoted("ms"@))]
    }) + meta_data.map_values(|kv: (Seq<char>, Seq<char>)| member(kv.0, kv.1)));
    assert forall|i: int| 0 <= i < pairs.len() implies json_value(#[trigger] pairs[i].1, fragment, 3) by {
        if i >= ev.len() + unit.len() {
            assert(pairs[i].1 == meta_data[i - ev.len() - unit.len()].1);
        }
    }
    lemma_object(pairs, fragment, 3);
}

} // verus!
