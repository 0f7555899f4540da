use scoper::global::Buffer;
use scoper::scopes::{close_scope, open_scope};
use scoper::slots::Slots;
use scoper::{Scope, TimePoint, TraceInfo};

#[test]
fn take_returns_pushed_values_in_any_order() {
    let mut slots: Slots<u32> = Slots::default();
    let a = slots.push(10);
    let b = slots.push(20);
    let c = slots.push(30);
    assert_eq!(slots.filled_slots(), 3);
    assert_eq!(slots.take(b), 20);
    assert_eq!(slots.filled_slots(), 2);
    assert!(!slots.is_empty());
    assert_eq!(slots.take(a), 10);
    assert!(!slots.is_empty());
    assert_eq!(slots.take(c), 30);
    assert_eq!(slots.filled_slots(), 0);
    assert!(slots.is_empty());
}

#[test]
fn storage_empties_after_nested_takes() {
    let mut slots: Slots<u64> = Slots::default();
    let a = slots.push(1);
    let b = slots.push(2);
    assert_eq!(slots.take(b), 2);
    assert_eq!(slots.take(a), 1);
    assert!(slots.is_empty());
    let c = slots.push(3);
    assert_eq!(*slots.get(&c), 3);
    assert_eq!(slots.take(c), 3);
    assert!(slots.is_empty());
}

#[test]
fn get_mut_writes_in_place() {
    let mut slots: Slots<i32> = Slots::default();
    let a = slots.push(5);
    let b = slots.push(6);
    *slots.get_mut(&a) += 100;
    assert_eq!(*slots.get(&a), 105);
    assert_eq!(*slots.get(&b), 6);
    assert_eq!(slots.take(a), 105);
    assert_eq!(slots.take(b), 6);
    assert!(slots.is_empty());
}

#[test]
fn empty_arena_reports_empty() {
    let slots: Slots<u8> = Slots::default();
    assert!(slots.is_empty());
    assert_eq!(slots.filled_slots(), 0);
    assert_eq!(slots.full(), slots.available_slots() == 0);
}

#[test]
fn many_entries_taken_from_the_front() {
    let mut slots: Slots<usize> = Slots::default();
    let mut handles = Vec::new();
    for i in 0..100usize {
        handles.push(slots.push(i * 2));
    }
    assert_eq!(slots.filled_slots(), 100);
    for (i, h) in handles.into_iter().enumerate() {
        assert_eq!(slots.take(h), i * 2);
    }
    assert!(slots.is_empty());
}

#[test]
fn contains_tracks_live_handles() {
    let mut slots: Slots<u16> = Slots::default();
    let a = slots.push(1);
    let b = slots.push(2);
    assert!(slots.contains(&a));
    assert!(slots.contains(&b));
    assert_eq!(slots.take(a), 1);
    assert!(slots.contains(&b));
    assert_eq!(slots.take(b), 2);
    let c = slots.push(3);
    assert!(slots.contains(&c));
    assert_eq!(slots.filled_slots(), 1);
    assert!(slots.available_slots() < usize::MAX);
}

#[test]
fn scope_opening_time_waits_in_the_arena() {
    let info: scoper::Info = Box::leak(Box::new(TraceInfo { name: "s", category: "c", header: "h", args: &[] }));
    let mut open: Slots<TimePoint> = Slots::default();
    let other = open_scope(&mut open, TimePoint::from_nanos(1));
    let scope = Scope::start(info, &mut open, TimePoint::from_nanos(7));
    assert_eq!(*open.get(scope.slot()), TimePoint::from_nanos(7));
    let mut scopes = Buffer::init();
    close_scope(scope, &mut open, 4, TimePoint::from_nanos(20), &mut scopes);
    assert!(open.contains(&other));
    assert_eq!(open.filled_slots(), 1);
    let records = scopes.flush();
    assert_eq!(records.len(), 1);
    assert_eq!((records[0].1).0, TimePoint::from_nanos(7));
    assert_eq!(records[0].0.time_point, TimePoint::from_nanos(20));
    assert_eq!(records[0].0.thread_id, 4);
    assert_eq!(open.take(other), TimePoint::from_nanos(1));
    assert!(open.is_empty());
}
