use scoper::event_types::EventType;
use scoper::global::{flush_buffers, Buffer};
use scoper::json::{decimal_i128, decimal_u64, member_text};
use scoper::scopes::close_scope;
use scoper::slots::Slots;
use scoper::time::{scope_duration, signed_time};
use scoper::types::{BaseInfo, MetaTrace, Start, TaggedData, Trace};
use scoper::{
    record_custom_instant, record_custom_scope, record_custom_value, Info, InstantScopeSize,
    RecordScope, Scope, TimePoint, TraceInfo, Value,
};
use scoper::Arg;

fn info(name: &str, category: &str, header: &str, args: Vec<Arg<'static>>) -> Info {
    let name: &'static str = Box::leak(name.to_string().into_boxed_str());
    let category: &'static str = Box::leak(category.to_string().into_boxed_str());
    let header: &'static str = Box::leak(header.to_string().into_boxed_str());
    let args: &'static [Arg<'static>] = Box::leak(args.into_boxed_slice());
    Box::leak(Box::new(TraceInfo { name, category, header, args }))
}

fn ms(t0: u64, millis: u64) -> TimePoint {
    TimePoint::from_nanos(t0 + millis * 1_000_000)
}

const T0: u64 = 1_000_000_000;

#[test]
fn phase_and_breadth_codes() {
    assert_eq!(EventType::Scope.code(), 'X');
    assert_eq!(EventType::Instant.code(), 'i');
    assert_eq!(EventType::Counter.code(), 'C');
    assert_eq!(InstantScopeSize::Thread.code(), 't');
    assert_eq!(InstantScopeSize::Process.code(), 'p');
    assert_eq!(InstantScopeSize::Global.code(), 'g');
}

#[test]
fn signed_offsets_round_toward_zero() {
    let zero = TimePoint::from_nanos(10_000);
    assert_eq!(signed_time(zero, TimePoint::from_nanos(15_999)), 5);
    assert_eq!(signed_time(zero, TimePoint::from_nanos(4_001)), -5);
    assert_eq!(signed_time(zero, zero), 0);
    let origin = TimePoint::from_nanos(0);
    assert_eq!(scope_duration(origin, TimePoint::from_nanos(1_000), TimePoint::from_nanos(3_500)), 2);
    assert_eq!(scope_duration(origin, TimePoint::from_nanos(3_500), TimePoint::from_nanos(1_000)), 0);
    assert_eq!(scope_duration(origin, TimePoint::from_nanos(999), TimePoint::from_nanos(10_001)), 10);
    assert_eq!(scope_duration(zero, TimePoint::from_nanos(9_500), TimePoint::from_nanos(10_500)), 0);
}

#[test]
fn integers_render_as_decimal() {
    assert_eq!(decimal_u64(0), "0");
    assert_eq!(decimal_u64(30000), "30000");
    assert_eq!(decimal_u64(u64::MAX), "18446744073709551615");
    assert_eq!(decimal_i128(-2000), "-2000");
    assert_eq!(decimal_i128(i128::MIN), i128::MIN.to_string());
    assert_eq!(Value::UInt(42).as_number(), "42");
    assert_eq!(Value::IInt(-7).as_number(), "-7");
    assert_eq!(Value::Float("0.8".to_string()).as_number(), "0.8");
}

#[test]
fn keys_and_strings_are_escaped() {
    assert_eq!(member_text("a\"b\n", "1"), "\"a\\\"b\\n\":1");
    assert_eq!(member_text("tab\there\u{1}", "true"), "\"tab\\there\\u0001\":true");
}

#[test]
fn scope_record_formats_with_offset_and_duration() {
    let i = info("work", "test", "main", vec![]);
    let t = Trace(BaseInfo::build(i, ms(T0, 35), 1), TaggedData::Scope(Start(ms(T0, 5))));
    assert_eq!(
        t.json_format(TimePoint::from_nanos(T0)),
        "{\"args\":{},\"cat\":\"test\",\"dur\":30000,\"name\":\"work\",\"ph\":\"X\",\"pid\":\"main\",\"tid\":1,\"ts\":5000}"
    );
    assert_eq!(t.code(), 'X');
}

#[test]
fn scope_duration_is_difference_of_offsets() {
    let i = info("w", "c", "h", vec![]);
    let t = Trace(
        BaseInfo::build(i, TimePoint::from_nanos(10_001), 1),
        TaggedData::Scope(Start(TimePoint::from_nanos(999))),
    );
    let text = t.json_format(TimePoint::from_nanos(0));
    assert!(text.contains("\"dur\":10,"));
    assert!(text.ends_with("\"ts\":0}"));
}

#[test]
fn instant_record_carries_breadth_code() {
    let i = info("mark", "c", "h", vec![Arg { key: "k", value: "[1,2]" }]);
    let t = Trace(BaseInfo::build(i, ms(T0, 2), 3), TaggedData::Instant(InstantScopeSize::Global));
    assert_eq!(
        t.json_format(TimePoint::from_nanos(T0)),
        "{\"args\":{\"k\":[1,2]},\"cat\":\"c\",\"name\":\"mark\",\"ph\":\"i\",\"pid\":\"h\",\"s\":\"g\",\"tid\":3,\"ts\":2000}"
    );
}

#[test]
fn record_before_origin_has_negative_offset() {
    let i = info("early", "c", "h", vec![]);
    let t = Trace(BaseInfo::build(i, ms(T0, 0), 1), TaggedData::Instant(InstantScopeSize::Thread));
    let text = t.json_format(ms(T0, 2));
    assert!(text.ends_with("\"ts\":-2000}"));
}

#[test]
fn counter_value_merges_into_arguments() {
    let i = info(
        "v",
        "c",
        "h",
        vec![Arg { key: "unit", value: "\"ms\"" }, Arg { key: "v", value: "1" }],
    );
    let number = serde_json::Number::from_f64(0.8).unwrap().to_string();
    let t = Trace(BaseInfo::build(i, ms(T0, 1), 2), TaggedData::Counter(Value::Float(number)));
    let text = t.json_format(TimePoint::from_nanos(T0));
    assert_eq!(
        text,
        "{\"args\":{\"v\":0.8,\"unit\":\"ms\"},\"cat\":\"c\",\"name\":\"v\",\"ph\":\"C\",\"pid\":\"h\",\"tid\":2,\"ts\":1000}"
    );
    let parsed: serde_json::Value = serde_json::from_str(&text).unwrap();
    assert_eq!(parsed["args"]["v"].as_f64(), Some(0.8));
    assert_eq!(parsed["args"]["unit"].as_str(), Some("ms"));
    assert_eq!(parsed["args"].as_object().unwrap().len(), 2);
}

#[test]
fn meta_records_name_threads_and_processes() {
    let thread = MetaTrace::ThreadName("main", 7, "Worker".to_string());
    assert_eq!(
        thread.json_format(),
        "{\"args\":{\"name\":\"Worker\"},\"cat\":\"__metadata\",\"name\":\"thread_name\",\"ph\":\"M\",\"pid\":\"main\",\"tid\":7,\"ts\":0}"
    );
    let process = MetaTrace::ProcessName("main", "Renamed".to_string());
    assert_eq!(
        process.json_format(),
        "{\"args\":{\"name\":\"Renamed\"},\"cat\":\"__metadata\",\"name\":\"process_name\",\"ph\":\"M\",\"pid\":\"main\",\"tid\":0,\"ts\":0}"
    );
}

#[test]
fn one_scope_document_is_byte_exact() {
    let i = info("work", "test", "main", vec![]);
    let session = RecordScope::start(TimePoint::from_nanos(T0));
    let mut scopes = Buffer::init();
    let mut counters = Buffer::init();
    let mut instants = Buffer::init();
    record_custom_scope(&mut scopes, 1, i, ms(T0, 5), ms(T0, 35));
    let doc = session.fetch_data(&mut scopes, &mut counters, &mut instants);
    assert_eq!(
        doc,
        "{\"traceEvents\":[{\"args\":{},\"cat\":\"test\",\"dur\":30000,\"name\":\"work\",\"ph\":\"X\",\"pid\":\"main\",\"tid\":1,\"ts\":5000}],\"displayTimeUnit\":\"ms\"}"
    );
}

#[test]
fn flushing_twice_gives_an_empty_second_batch() {
    let i = info("x", "c", "h", vec![]);
    let mut scopes = Buffer::init();
    let mut counters = Buffer::init();
    let mut instants = Buffer::init();
    record_custom_scope(&mut scopes, 1, i, ms(T0, 1), ms(T0, 2));
    record_custom_value(&mut counters, 1, i, ms(T0, 3), Value::UInt(4));
    record_custom_instant(&mut instants, 1, i, ms(T0, 5), InstantScopeSize::Process);
    let first = flush_buffers(&mut scopes, &mut counters, &mut instants);
    assert_eq!(first.len(), 3);
    assert!(matches!(first[0].1, TaggedData::Scope(_)));
    assert!(matches!(first[1].1, TaggedData::Counter(Value::UInt(4))));
    assert!(matches!(first[2].1, TaggedData::Instant(InstantScopeSize::Process)));
    let second = flush_buffers(&mut scopes, &mut counters, &mut instants);
    assert!(second.is_empty());
}

#[test]
fn every_recorded_event_is_flushed_once() {
    let i = info("x", "c", "h", vec![]);
    let threads: u64 = 8;
    let per_thread: u64 = 50;
    let mut scopes = Buffer::init();
    let mut counters = Buffer::init();
    let mut instants = Buffer::init();
    for round in 0..per_thread {
        for thread in 0..threads {
            match (round + thread) % 3 {
                0 => record_custom_scope(&mut scopes, thread, i, ms(T0, round), ms(T0, round + 1)),
                1 => record_custom_value(&mut counters, thread, i, ms(T0, round), Value::IInt(-1)),
                _ => record_custom_instant(&mut instants, thread, i, ms(T0, round), InstantScopeSize::Thread),
            }
        }
    }
    let all = flush_buffers(&mut scopes, &mut counters, &mut instants);
    assert_eq!(all.len() as u64, threads * per_thread);
    for thread in 0..threads {
        assert_eq!(all.iter().filter(|t| t.0.thread_id == thread).count() as u64, per_thread);
    }
}

#[test]
fn session_with_ten_scopes_gives_a_valid_document() {
    let i = info("step", "test", "main", vec![]);
    let mut session = RecordScope::start(TimePoint::from_nanos(T0));
    session.name_thread(1, "main", "Main thread".to_string());
    let mut open = Slots::default();
    let mut scopes = Buffer::init();
    let mut counters = Buffer::init();
    let mut instants = Buffer::init();
    for k in 0..10u64 {
        let scope = Scope::start(i, &mut open, ms(T0, 10 * k));
        close_scope(scope, &mut open, 1, ms(T0, 10 * k + 5), &mut scopes);
    }
    assert!(open.is_empty());
    let doc = session.fetch_data(&mut scopes, &mut counters, &mut instants);
    let parsed: serde_json::Value = serde_json::from_str(&doc).unwrap();
    assert_eq!(parsed["displayTimeUnit"], "ms");
    let events = parsed["traceEvents"].as_array().unwrap();
    let scope_events: Vec<_> = events.iter().filter(|e| e["ph"] == "X").collect();
    assert_eq!(scope_events.len(), 10);
    assert_eq!(events.iter().filter(|e| e["ph"] == "M").count(), 1);
    assert_eq!(events.len(), 11);
    for (k, e) in scope_events.iter().enumerate() {
        assert_eq!(e["dur"], 5000);
        assert_eq!(e["ts"], 10000 * k as u64);
    }
}

#[test]
fn metadata_is_replaced_and_merged_at_the_top() {
    let mut session = RecordScope::start(TimePoint::from_nanos(T0));
    assert_eq!(session.add_meta_data("test".to_string(), "\"first\"".to_string()), None);
    assert_eq!(
        session.add_meta_data("test".to_string(), "\"SomeExtraInfoHere\"".to_string()),
        Some("\"first\"".to_string())
    );
    session.add_meta_data("displayTimeUnit".to_string(), "\"ns\"".to_string());
    session.final_header("main", "Renamed".to_string());
    session.set_starting_time(TimePoint::from_nanos(T0 + 1));
    let mut scopes = Buffer::init();
    let mut counters = Buffer::init();
    let mut instants = Buffer::init();
    let doc = session.fetch_data(&mut scopes, &mut counters, &mut instants);
    let parsed: serde_json::Value = serde_json::from_str(&doc).unwrap();
    assert_eq!(parsed["test"], "SomeExtraInfoHere");
    assert_eq!(parsed["displayTimeUnit"], "ns");
    assert_eq!(parsed.as_object().unwrap().len(), 3);
    assert_eq!(parsed["traceEvents"][0]["name"], "process_name");
    assert_eq!(doc.matches("displayTimeUnit").count(), 1);
}

#[test]
fn caller_key_replaces_reserved_event_list() {
    let i = info("x", "c", "h", vec![]);
    let mut session = RecordScope::start(TimePoint::from_nanos(T0));
    session.add_meta_data("traceEvents".to_string(), "[]".to_string());
    let mut scopes = Buffer::init();
    let mut counters = Buffer::init();
    let mut instants = Buffer::init();
    record_custom_scope(&mut scopes, 1, i, ms(T0, 1), ms(T0, 2));
    let doc = session.fetch_data(&mut scopes, &mut counters, &mut instants);
    assert_eq!(doc, "{\"displayTimeUnit\":\"ms\",\"traceEvents\":[]}");
}

#[test]
fn start_order_puts_enclosing_scopes_first() {
    let i = info("x", "c", "h", vec![]);
    let inner = Trace(BaseInfo::build(i, ms(T0, 8), 1), TaggedData::Scope(Start(ms(T0, 2))));
    let outer = Trace(BaseInfo::build(i, ms(T0, 9), 1), TaggedData::Scope(Start(ms(T0, 2))));
    let mark = Trace(BaseInfo::build(i, ms(T0, 1), 1), TaggedData::Instant(InstantScopeSize::Thread));
    assert_eq!(outer.cmp_start(&inner), std::cmp::Ordering::Less);
    assert_eq!(inner.cmp_start(&outer), std::cmp::Ordering::Greater);
    assert_eq!(inner.cmp_start(&inner), std::cmp::Ordering::Equal);
    assert_eq!(mark.cmp_start(&inner), std::cmp::Ordering::Less);
    assert_eq!(*inner.start(), ms(T0, 2));
    assert_eq!(*inner.end(), ms(T0, 8));
    assert_eq!(*mark.start(), ms(T0, 1));
}

#[test]
fn document_lists_records_by_start() {
    let inner_info = info("inner", "c", "h", vec![]);
    let outer_info = info("outer", "c", "h", vec![]);
    let mark_info = info("mark", "c", "h", vec![]);
    let session = RecordScope::start(TimePoint::from_nanos(T0));
    let mut scopes = Buffer::init();
    let mut counters = Buffer::init();
    let mut instants = Buffer::init();
    record_custom_scope(&mut scopes, 1, inner_info, ms(T0, 3), ms(T0, 4));
    record_custom_scope(&mut scopes, 1, outer_info, ms(T0, 3), ms(T0, 9));
    record_custom_instant(&mut instants, 1, mark_info, ms(T0, 1), InstantScopeSize::Global);
    record_custom_value(&mut counters, 1, mark_info, ms(T0, 7), Value::UInt(3));
    let doc = session.fetch_data(&mut scopes, &mut counters, &mut instants);
    let parsed: serde_json::Value = serde_json::from_str(&doc).unwrap();
    let names: Vec<&str> = parsed["traceEvents"]
        .as_array()
        .unwrap()
        .iter()
        .map(|e| e["name"].as_str().unwrap())
        .collect();
    assert_eq!(names, vec!["mark", "outer", "inner", "mark"]);
    assert_eq!(parsed["traceEvents"][3]["args"]["mark"], 3);
}
