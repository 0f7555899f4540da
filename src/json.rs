use vstd::prelude::*;

use crate::event_types::{phase_code, EventType};
use crate::time::{duration_micros, micros_between, scope_duration, signed_time, TimePoint};
use crate::types::{breadth_code, MetaTrace, TaggedData, TaggedTrace, Trace, Value};
use crate::{Arg, Info};

verus! {

/// A hexadecimal digit, lower case.
pub open spec fn hex_digit(d: nat) -> char {
    if d < 10 {
        (d + 48) as char
    } else {
        (d + 87) as char
    }
}

/// How one character stands inside a JSON string.
pub open spec fn escaped_char(c: char) -> Seq<char> {
    if c == '"' {
        seq!['\\', '"']
    } else if c == '\\' {
        seq!['\\', '\\']
    } else if c == '\u{8}' {
        seq!['\\', 'b']
    } else if c == '\t' {
        seq!['\\', 't']
    } else if c == '\n' {
        seq!['\\', 'n']
    } else if c == '\u{c}' {
        seq!['\\', 'f']
    } else if c == '\r' {
        seq!['\\', 'r']
    } else if (c as u32) < 0x20 {
        seq!['\\', 'u', '0', '0', hex_digit((c as nat) / 16), hex_digit((c as nat) % 16)]
    } else {
        seq![c]
    }
}

pub open spec fn escaped(s: Seq<char>) -> Seq<char>
    decreases s.len(),
{
    if s.len() == 0 {
        Seq::empty()
    } else {
        escaped(s.drop_last()) + escaped_char(s.last())
    }
}

/// The JSON string literal of `s`.
pub open spec fn quoted(s: Seq<char>) -> Seq<char> {
    seq!['"'] + escaped(s) + seq!['"']
}

pub open spec fn digit_char(d: nat) -> char {
    (d + 48) as char
}

/// The decimal digits of `n`, without leading zeros.
pub open spec fn digits(n: nat) -> Seq<char>
    decreases n,
{
    if n < 10 {
        seq![digit_char(n)]
    } else {
        digits(n / 10).push(digit_char(n % 10))
    }
}

/// The JSON number text of the integer `n`.
pub open spec fn decimal(n: int) -> Seq<char> {
    if n < 0 {
        seq!['-'] + digits((-n) as nat)
    } else {
        digits(n as nat)
    }
}

/// `items` separated by commas.
pub open spec fn joined(items: Seq<Seq<char>>) -> Seq<char>
    decreases items.len(),
{
    if items.len() == 0 {
        Seq::empty()
    } else if items.len() == 1 {
        items[0]
    } else {
        joined(items.drop_last()) + seq![','] + items.last()
    }
}

pub open spec fn object(members: Seq<Seq<char>>) -> Seq<char> {
    seq!['{'] + joined(members) + seq!['}']
}

pub open spec fn array(items: Seq<Seq<char>>) -> Seq<char> {
    seq!['['] + joined(items) + seq![']']
}

/// An object member whose value is the JSON text `value`.
pub open spec fn member(key: Seq<char>, value: Seq<char>) -> Seq<char> {
    quoted(key) + seq![':'] + value
}

pub open spec fn texts(v: Seq<String>) -> Seq<Seq<char>> {
    v.map_values(|s: String| s@)
}

/// Relies on `serde_json::to_string` on a `str`: the string between quotes, with `"`, `\`
/// and the control characters escaped as JSON requires. The text is written into memory,
/// so the call does not fail.
#[verifier::external_body]
pub(crate) fn json_string(s: &str) -> (r: String)
    ensures
        r@ == quoted(s@),
{
    serde_json::to_string(s).unwrap_or_default()
}

/// Relies on `String::push`: the character is appended.
#[verifier::external_body]
fn push_char(out: &mut String, c: char)
    ensures
        final(out)@ == old(out)@.push(c),
{
    out.push(c)
}

/// Relies on `==` on `str`: equal exactly when the characters are.
#[verifier::external_body]
pub(crate) fn same_text(a: &str, b: &str) -> (r: bool)
    ensures
        r == (a@ == b@),
{
    a == b
}

fn write_digits(out: &mut String, n: u128)
    ensures
        final(out)@ == old(out)@ + digits(n as nat),
    decreases n,
{
    if n >= 10 {
        write_digits(out, n / 10);
    }
    let d = (n % 10) as u8;
    push_char(out, (d + 48) as char);
    proof {
        assert(old(out)@ + digits(n as nat) =~= final(out)@) by {
            if n >= 10 {
                assert(digits(n as nat) == digits((n / 10) as nat).push(digit_char((n % 10) as nat)));
            }
        }
    }
}

/// The JSON text of an unsigned integer.
pub fn decimal_u64(n: u64) -> (r: String)
    ensures
        r@ == decimal(n as int),
{
    let mut out = String::new();
    write_digits(&mut out, n as u128);
    proof {
        assert(out@ =~= decimal(n as int));
    }
    out
}

/// The JSON text of a signed integer.
pub fn decimal_i128(n: i128) -> (r: String)
    ensures
        r@ == decimal(n as int),
{
    let mut out = String::new();
    if n < 0 {
        push_char(&mut out, '-');
        let m: u128 = (-(n + 1)) as u128 + 1;
        write_digits(&mut out, m);
        proof {
            assert(out@ =~= decimal(n as int));
        }
    } else {
        write_digits(&mut out, n as u128);
        proof {
            assert(out@ =~= decimal(n as int));
        }
    }
    out
}

/// `items` separated by commas.
pub fn joined_text(items: &Vec<String>) -> (r: String)
    ensures
        r@ == joined(texts(items@)),
{
    let mut out = String::new();
    let mut i: usize = 0;
    while i < items.len()
        invariant
            i <= items.len(),
            out@ == joined(texts(items@).take(i as int)),
        decreases items.len() - i,
    {
        if i > 0 {
            push_char(&mut out, ',');
        }
        out.append(items[i].as_str());
        proof {
            let t = texts(items@);
            assert(t.take(i + 1).drop_last() =~= t.take(i as int));
            if i == 0 {
                assert(out@ =~= t.take(1)[0]);
            } else {
                assert(out@ =~= joined(t.take(i as int)) + seq![','] + t.take(i + 1).last());
            }
        }
        i = i + 1;
    }
    proof {
        assert(texts(items@).take(items.len() as int) =~= texts(items@));
    }
    out
}

/// The JSON object made of the member texts `members`.
pub fn object_text(members: &Vec<String>) -> (r: String)
    ensures
        r@ == object(texts(members@)),
{
    let mut out = String::new();
    push_char(&mut out, '{');
    out.append(joined_text(members).as_str());
    push_char(&mut out, '}');
    proof {
        assert(out@ =~= object(texts(members@)));
    }
    out
}

/// The JSON array made of the value texts `items`.
pub fn array_text(items: &Vec<String>) -> (r: String)
    ensures
        r@ == array(texts(items@)),
{
    let mut out = String::new();
    push_char(&mut out, '[');
    out.append(joined_text(items).as_str());
    push_char(&mut out, ']');
    proof {
        assert(out@ =~= array(texts(items@)));
    }
    out
}

/// The member `key: value`, where `value` is JSON text already.
pub fn member_text(key: &str, value: &str) -> (r: String)
    ensures
        r@ == member(key@, value@),
{
    let mut out = json_string(key);
    push_char(&mut out, ':');
    out.append(value);
    proof {
        assert(out@ =~= member(key@, value@));
    }
    out
}

/// The arguments of a call site as key and value texts.
pub open spec fn arg_pairs(args: Seq<Arg>) -> Seq<(Seq<char>, Seq<char>)> {
    args.map_values(|a: Arg| (a.key@, a.value@))
}

pub open spec fn info_args(info: Info) -> Seq<(Seq<char>, Seq<char>)> {
    arg_pairs(info.args@)
}

pub open spec fn members_of(pairs: Seq<(Seq<char>, Seq<char>)>) -> Seq<Seq<char>> {
    pairs.map_values(|kv: (Seq<char>, Seq<char>)| member(kv.0, kv.1))
}

/// `pairs` without those under key `k`, in their order.
pub open spec fn without_key(pairs: Seq<(Seq<char>, Seq<char>)>, k: Seq<char>) -> Seq<
    (Seq<char>, Seq<char>),
>
    decreases pairs.len(),
{
    if pairs.len() == 0 {
        Seq::empty()
    } else {
        let rest = without_key(pairs.drop_last(), k);
        if pairs.last().0 == k {
            rest
        } else {
            rest.push(pairs.last())
        }
    }
}

/// The JSON number text of a counter value.
pub open spec fn number_text(v: Value) -> Seq<char> {
    match v {
        Value::UInt(u) => decimal(u as int),
        Value::IInt(i) => decimal(i as int),
        Value::Float(t) => t@,
    }
}

/// The arguments of a counter event: the value under the call site's name, then the
/// call site's own arguments but one under that same name.
pub open spec fn counter_args(info: Info, v: Value) -> Seq<(Seq<char>, Seq<char>)> {
    seq![(info.name@, number_text(v))] + without_key(info_args(info), info.name@)
}

pub open spec fn event_args(t: TaggedTrace) -> Seq<(Seq<char>, Seq<char>)> {
    match t.1 {
        TaggedData::Counter(v) => counter_args(t.0.info, v),
        _ => info_args(t.0.info),
    }
}

pub open spec fn trace_code(t: TaggedTrace) -> char {
    match t.1 {
        TaggedData::Scope(_) => phase_code(EventType::Scope),
        TaggedData::Counter(_) => phase_code(EventType::Counter),
        TaggedData::Instant(_) => phase_code(EventType::Instant),
    }
}

/// The event's time in microseconds from `zero`: a scope's opening, else the record's time.
pub open spec fn event_ts(t: TaggedTrace, zero: TimePoint) -> int {
    match t.1 {
        TaggedData::Scope(s) => micros_between(zero, s.0),
        _ => micros_between(zero, t.0.time_point),
    }
}

/// The members of an event object, keys in ascending order.
pub open spec fn event_members(t: TaggedTrace, zero: TimePoint) -> Seq<Seq<char>> {
    let info = t.0.info;
    let head = seq![
        member("args"@, object(members_of(event_args(t)))),
        member("cat"@, quoted(info.category@)),
    ];
    let dur = match t.1 {
        TaggedData::Scope(s) => seq![
            member("dur"@, decimal(duration_micros(zero, s.0, t.0.time_point))),
        ],
        _ => Seq::empty(),
    };
    let mid = seq![
        member("name"@, quoted(info.name@)),
        member("ph"@, quoted(seq![trace_code(t)])),
        member("pid"@, quoted(info.header@)),
    ];
    let breadth = match t.1 {
        TaggedData::Instant(z) => seq![member("s"@, quoted(seq![breadth_code(z)]))],
        _ => Seq::empty(),
    };
    let tail = seq![
        member("tid"@, decimal(t.0.thread_id as int)),
        member("ts"@, decimal(event_ts(t, zero))),
    ];
    head + dur + mid + breadth + tail
}

/// The JSON text of a record, with times relative to `zero`.
pub open spec fn event_text(t: TaggedTrace, zero: TimePoint) -> Seq<char> {
    object(event_members(t, zero))
}

/// The member texts of the arguments `args`, leaving out those under the key `skip`.
fn pair_members(args: &[Arg], skip: Option<&str>) -> (r: Vec<String>)
    ensures
        texts(r@) == members_of(
            match skip {
                Some(k) => without_key(arg_pairs(args@), k@),
                None => arg_pairs(args@),
            },
        ),
{
    let ghost pairs = arg_pairs(args@);
    let mut out: Vec<String> = Vec::new();
    let mut i: usize = 0;
    while i < args.len()
        invariant
            i <= args@.len(),
            pairs == arg_pairs(args@),
            texts(out@) == members_of(
                match skip {
                    Some(k) => without_key(pairs.take(i as int), k@),
                    None => pairs.take(i as int),
                },
            ),
        decreases args@.len() - i,
    {
        let a = &args[i];
        let keep = match skip {
            Some(k) => !same_text(a.key, k),
            None => true,
        };
        let ghost before = out@;
        if keep {
            out.push(member_text(a.key, a.value));
        }
        proof {
            assert(pairs.take(i + 1).drop_last() =~= pairs.take(i as int));
            assert(pairs.take(i + 1).last() == (a.key@, a.value@));
            match skip {
                Some(k) => {
                    if keep {
                        assert(texts(out@) =~= texts(before).push(member(a.key@, a.value@)));
                        assert(members_of(without_key(pairs.take(i + 1), k@)) =~= members_of(
                            without_key(pairs.take(i as int), k@),
                        ).push(member(a.key@, a.value@)));
                    }
                },
                None => {
                    assert(texts(out@) =~= texts(before).push(member(a.key@, a.value@)));
                    assert(members_of(pairs.take(i + 1)) =~= members_of(pairs.take(i as int)).push(
                        member(a.key@, a.value@),
                    ));
                },
            }
        }
        i = i + 1;
    }
    proof {
        assert(pairs.take(args@.len() as int) =~= pairs);
    }
    out
}

impl Value {
    /// The JSON number text of the value.
    pub fn as_number(&self) -> (r: String)
        ensures
            r@ == number_text(*self),
    {
        match self {
            Value::UInt(u) => decimal_u64(*u),
            Value::IInt(i) => decimal_i128(*i as i128),
            Value::Float(t) => t.clone(),
        }
    }
}

impl Trace<TaggedData> {
    pub fn code(&self) -> (r: char)
        ensures
            r == trace_code(*self),
    {
        match self.1 {
            TaggedData::Scope(_) => EventType::Scope.code(),
            TaggedData::Counter(_) => EventType::Counter.code(),
            TaggedData::Instant(_) => EventType::Instant.code(),
        }
    }

    /// The event object of this record, with times relative to `zero`.
    pub fn json_format(&self, zero: TimePoint) -> (r: String)
        ensures
            r@ == event_text(*self, zero),
    {
        let info = self.0.info;
        let args = match &self.1 {
            TaggedData::Counter(v) => {
                let mut m = pair_members(info.args, Some(info.name));
                let ghost rest = m@;
                let number = v.as_number();
                let first = member_text(info.name, number.as_str());
                m.insert(0, first);
                proof {
                    let w = without_key(info_args(info), info.name@);
                    assert(m@ =~= seq![first] + rest);
                    assert(texts(m@) =~= seq![first@] + texts(rest));
                    assert(members_of(seq![(info.name@, number_text(*v))] + w) =~= seq![
                        member(info.name@, number_text(*v)),
                    ] + members_of(w));
                }
                m
            },
            _ => pair_members(info.args, None),
        };
        let mut members: Vec<String> = Vec::new();
        members.push(member_text("args", object_text(&args).as_str()));
        members.push(member_text("cat", json_string(info.category).as_str()));
        if let TaggedData::Scope(s) = &self.1 {
            members.push(
                member_text("dur", decimal_i128(scope_duration(zero, s.0, self.0.time_point)).as_str()),
            );
        }
        members.push(member_text("name", json_string(info.name).as_str()));
        let mut ph = String::new();
        push_char(&mut ph, self.code());
        members.push(member_text("ph", json_string(ph.as_str()).as_str()));
        members.push(member_text("pid", json_string(info.header).as_str()));
        if let TaggedData::Instant(z) = &self.1 {
            let mut code = String::new();
            push_char(&mut code, z.code());
            members.push(member_text("s", json_string(code.as_str()).as_str()));
        }
        members.push(member_text("tid", decimal_u64(self.0.thread_id).as_str()));
        let ts = match &self.1 {
            TaggedData::Scope(s) => signed_time(zero, s.0),
            _ => signed_time(zero, self.0.time_point),
        };
        members.push(member_text("ts", decimal_i128(ts).as_str()));
        proof {
            assert(ph@ =~= seq![trace_code(*self)]);
            assert(texts(members@) =~= event_members(*self, zero));
        }
        object_text(&members)
    }
}

/// The members of a naming record's object, keys in ascending order.
pub open spec fn meta_members(m: MetaTrace) -> Seq<Seq<char>> {
    let (pid, tid, name, kind) = match m {
        MetaTrace::ProcessName(pid, name) => (pid@, 0int, name@, "process_name"@),
        MetaTrace::ThreadName(pid, tid, name) => (pid@, tid as int, name@, "thread_name"@),
    };
    seq![
        member("args"@, object(seq![member("name"@, quoted(name))])),
        member("cat"@, quoted("__metadata"@)),
        member("name"@, quoted(kind)),
        member("ph"@, quoted("M"@)),
        member("pid"@, quoted(pid)),
        member("tid"@, decimal(tid)),
        member("ts"@, decimal(0)),
    ]
}

pub open spec fn meta_text(m: MetaTrace) -> Seq<char> {
    object(meta_members(m))
}

impl MetaTrace {
    /// The event object of this naming record.
    pub fn json_format(&self) -> (r: String)
        ensures
            r@ == meta_text(*self),
    {
        let (pid, tid, name, kind) = match self {
            MetaTrace::ProcessName(pid, name) => (*pid, 0u64, name, "process_name"),
            MetaTrace::ThreadName(pid, tid, name) => (*pid, *tid, name, "thread_name"),
        };
        let mut args: Vec<String> = Vec::new();
        args.push(member_text("name", json_string(name.as_str()).as_str()));
        let mut members: Vec<String> = Vec::new();
        members.push(member_text("args", object_text(&args).as_str()));
        members.push(member_text("cat", json_string("__metadata").as_str()));
        members.push(member_text("name", json_string(kind).as_str()));
        members.push(member_text("ph", json_string("M").as_str()));
        members.push(member_text("pid", json_string(pid).as_str()));
        members.push(member_text("tid", decimal_u64(tid).as_str()));
        members.push(member_text("ts", decimal_u64(0).as_str()));
        proof {
            assert(texts(args@) =~= seq![member("name"@, quoted(name@))]);
            assert(texts(members@) =~= meta_members(*self));
        }
        object_text(&members)
    }
}

proof fn lemma_without_key_contains(pairs: Seq<(Seq<char>, Seq<char>)>, k: Seq<char>)
    ensures
        forall|p: (Seq<char>, Seq<char>)|
            #![trigger without_key(pairs, k).contains(p)]
            without_key(pairs, k).contains(p) <==> (pairs.contains(p) && p.0 != k),
    decreases pairs.len(),
{
    broadcast use vstd::seq_lib::lemma_seq_contains_after_push;

    if pairs.len() > 0 {
        let prev = pairs.drop_last();
        lemma_without_key_contains(prev, k);
        assert(pairs =~= prev.push(pairs.last()));
        assert forall|p: (Seq<char>, Seq<char>)|
            #![trigger without_key(pairs, k).contains(p)]
            without_key(pairs, k).contains(p) <==> (pairs.contains(p) && p.0 != k) by {
            assert(pairs.contains(p) <==> prev.push(pairs.last()).contains(p));
            assert(without_key(prev, k).contains(p) <==> (prev.contains(p) && p.0 != k));
        }
    } else {
        assert forall|p: (Seq<char>, Seq<char>)|
            #![trigger without_key(pairs, k).contains(p)]
            !without_key(pairs, k).contains(p) && !pairs.contains(p) by {}
    }
}

/// A counter event's arguments: the value first, under the call site's name; then every
/// argument of the call site under another key, unchanged; and no further entry under
/// the call site's name.
pub proof fn lemma_counter_args_merge(info: Info, v: Value)
    ensures
        counter_args(info, v)[0] == (info.name@, number_text(v)),
        forall|p: (Seq<char>, Seq<char>)|
            info_args(info).contains(p) && p.0 != info.name@ ==> #[trigger] counter_args(
                info,
                v,
            ).contains(p),
        forall|i: int|
            1 <= i < counter_args(info, v).len() ==> #[trigger] counter_args(info, v)[i].0
                != info.name@ && info_args(info).contains(counter_args(info, v)[i]),
{
    let w = without_key(info_args(info), info.name@);
    let c = counter_args(info, v);
    lemma_without_key_contains(info_args(info), info.name@);
    assert forall|p: (Seq<char>, Seq<char>)|
        info_args(info).contains(p) && p.0 != info.name@ implies #[trigger] c.contains(p) by {
        assert(w.contains(p));
        let i = choose|i: int| 0 <= i < w.len() && w[i] == p;
        assert(c[i + 1] == p);
    }
    assert forall|i: int| 1 <= i < c.len() implies #[trigger] c[i].0 != info.name@
        && info_args(info).contains(c[i]) by {
        assert(c[i] == w[i - 1]);
        assert(w.contains(w[i - 1]));
    }
}

/// A scope record whose opening does not come after its closing, as a monotonic clock
/// gives them: its event starts at the opening's offset, its duration is not negative,
/// and the duration is the closing's offset less the opening's, so the event ends at the
/// closing's offset.
pub proof fn lemma_scope_duration(
    thread_id: u64,
    info: Info,
    opened: TimePoint,
    closed: TimePoint,
    zero: TimePoint,
)
    requires
        opened.nanos <= closed.nanos,
    ensures
        ({
            let t = Trace(
                crate::types::BaseInfo { thread_id, time_point: closed, info },
                TaggedData::Scope(crate::types::Start(opened)),
            );
            let dur = micros_between(zero, closed) - micros_between(zero, opened);
            &&& dur >= 0
            &&& event_members(t, zero)[2] == member("dur"@, decimal(dur))
            &&& event_ts(t, zero) == micros_between(zero, opened)
            &&& event_ts(t, zero) + dur == micros_between(zero, closed)
            &&& trace_code(t) == 'X'
        }),
{
    crate::time::lemma_offsets_ordered(zero, opened, closed);
}

} // verus!
