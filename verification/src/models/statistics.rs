use vstd::prelude::*;

use std::collections::HashMap;

use crate::models::{EventType, LogMessage};
use crate::text::{chars_of, string_of_range, text_equals};

verus! {

broadcast use vstd::std_specs::hash::group_hash_axioms;

/// The counters as maps: events per event-type bits, P2P messages per message
/// type, P2P messages per direction bits, and P2P bytes per message type.
pub struct StatsView {
    pub event_type_counts: Map<u8, usize>,
    pub p2p_message_counts: Map<Seq<char>, usize>,
    pub direction_counts: Map<u8, usize>,
    pub p2p_message_bytes: Map<Seq<char>, u64>,
}

/// Running counts over the events seen.
///
/// Counts per message type are kept as `(type, value)` rows in order of first
/// appearance, each type at most once.
pub struct Statistics {
    pub event_type_counts: HashMap<u8, usize>,
    pub p2p_message_counts: Vec<(String, usize)>,
    pub direction_counts: HashMap<u8, usize>,
    pub p2p_message_bytes: Vec<(String, u64)>,
}

/// No two rows of `t` have the same key.
pub open spec fn keys_distinct<V>(t: Seq<(String, V)>) -> bool {
    forall|i: int, j: int|
        0 <= i < t.len() && 0 <= j < t.len() && i != j ==> #[trigger] t[i].0@ != #[trigger] t[j].0@
}

/// The map a table of rows stands for.
pub open spec fn table_map<V>(t: Seq<(String, V)>) -> Map<Seq<char>, V>
    decreases t.len(),
{
    if t.len() == 0 {
        Map::empty()
    } else {
        table_map(t.drop_last()).insert(t.last().0@, t.last().1)
    }
}

/// `m` with the count under `k` raised by one (a missing count counts as zero).
pub open spec fn bumped<K>(m: Map<K, usize>, k: K) -> Map<K, usize> {
    m.insert(
        k,
        if m.contains_key(k) {
            (m[k] + 1) as usize
        } else {
            1usize
        },
    )
}

/// `m` with `n` added to the total under `k` (a missing total counts as zero).
pub open spec fn added<K>(m: Map<K, u64>, k: K, n: u64) -> Map<K, u64> {
    m.insert(
        k,
        if m.contains_key(k) {
            (m[k] + n) as u64
        } else {
            n
        },
    )
}

/// Raising the count under `k` does not overflow.
pub open spec fn can_bump<K>(m: Map<K, usize>, k: K) -> bool {
    m.contains_key(k) ==> m[k] < usize::MAX
}

/// Adding `n` under `k` does not overflow.
pub open spec fn can_add<K>(m: Map<K, u64>, k: K, n: u64) -> bool {
    m.contains_key(k) ==> m[k] + n <= u64::MAX
}

/// `(` and `[` open the parameter part of a P2P message's text.
pub open spec fn is_bracket(c: char) -> bool {
    c == '(' || c == '['
}

/// The position of the first bracket in `s`, or its length when there is none.
pub open spec fn first_bracket(s: Seq<char>) -> nat
    decreases s.len(),
{
    if s.len() == 0 {
        0
    } else if is_bracket(s[0]) {
        0
    } else {
        1 + first_bracket(s.drop_first())
    }
}

/// The message type a P2P message is counted under: its recorded type, or
/// else the part of its text before the first bracket.
pub open spec fn counted_type(m: LogMessage) -> Seq<char> {
    match m.p2p_msg_type {
        Some(t) => t@,
        None => m.content@.take(first_bracket(m.content@) as int),
    }
}

/// Recording `m` keeps every counter within its type.
pub open spec fn recordable(s: StatsView, m: LogMessage) -> bool {
    &&& can_bump(s.event_type_counts, m.event_type.bits)
    &&& m.event_type.has(EventType::spec_message()) ==> {
        &&& can_bump(s.direction_counts, m.direction.bits)
        &&& can_bump(s.p2p_message_counts, counted_type(m))
        &&& (m.msg_size matches Some(z) ==> can_add(s.p2p_message_bytes, counted_type(m), z))
    }
}

/// The counters after recording `m`.
pub open spec fn recorded(s: StatsView, m: LogMessage) -> StatsView {
    let s1 = StatsView { event_type_counts: bumped(s.event_type_counts, m.event_type.bits), ..s };
    if m.event_type.has(EventType::spec_message()) {
        let t = counted_type(m);
        StatsView {
            direction_counts: bumped(s1.direction_counts, m.direction.bits),
            p2p_message_counts: bumped(s1.p2p_message_counts, t),
            p2p_message_bytes: match m.msg_size {
                Some(z) => added(s1.p2p_message_bytes, t, z),
                None => s1.p2p_message_bytes,
            },
            ..s1
        }
    } else {
        s1
    }
}

/// Counters with nothing recorded.
pub open spec fn empty_stats() -> StatsView {
    StatsView {
        event_type_counts: Map::empty(),
        p2p_message_counts: Map::empty(),
        direction_counts: Map::empty(),
        p2p_message_bytes: Map::empty(),
    }
}

/// The counters after recording `ms` in order, starting from `s`.
pub open spec fn recorded_all(s: StatsView, ms: Seq<LogMessage>) -> StatsView
    decreases ms.len(),
{
    if ms.len() == 0 {
        s
    } else {
        recorded(recorded_all(s, ms.drop_last()), ms.last())
    }
}

/// Recording `ms` in order, starting from `s`, overflows no counter.
pub open spec fn recordable_all(s: StatsView, ms: Seq<LogMessage>) -> bool
    decreases ms.len(),
{
    ms.len() == 0 || (recordable_all(s, ms.drop_last()) && recordable(
        recorded_all(s, ms.drop_last()),
        ms.last(),
    ))
}

/// The sum of the counts in `m`, whose domain is finite.
pub open spec fn map_sum<K>(m: Map<K, usize>) -> int
    decreases m.dom().len(),
    when m.dom().finite()
{
    if m.dom().len() == 0 {
        0
    } else {
        let k = m.dom().choose();
        proof {
            assert(m.remove(k).dom() =~= m.dom().remove(k));
        }
        m[k] + map_sum(m.remove(k))
    }
}

/// Taking any one count out of a finite map leaves the sum of the rest.
pub proof fn lemma_map_sum_remove<K>(m: Map<K, usize>, k: K)
    requires
        m.dom().finite(),
        m.contains_key(k),
    ensures
        map_sum(m) == m[k] + map_sum(m.remove(k)),
    decreases m.dom().len(),
{
    let c = m.dom().choose();
    assert(m.dom().contains(c));
    assert(m.remove(c).dom() =~= m.dom().remove(c));
    assert(m.remove(k).dom() =~= m.dom().remove(k));
    if c != k {
        let mc = m.remove(c);
        let mk = m.remove(k);
        lemma_map_sum_remove(mc, k);
        lemma_map_sum_remove(mk, c);
        assert(mc.remove(k) =~= mk.remove(c));
    }
}

/// Raising one count raises the sum by one.
pub proof fn lemma_map_sum_bumped<K>(m: Map<K, usize>, k: K)
    requires
        m.dom().finite(),
        can_bump(m, k),
    ensures
        bumped(m, k).dom().finite(),
        map_sum(bumped(m, k)) == map_sum(m) + 1,
{
    let b = bumped(m, k);
    assert(b.dom() =~= m.dom().insert(k));
    lemma_map_sum_remove(b, k);
    if m.contains_key(k) {
        lemma_map_sum_remove(m, k);
        assert(b.remove(k) =~= m.remove(k));
    } else {
        assert(b.remove(k) =~= m);
    }
}

impl View for Statistics {
    type V = StatsView;

    open spec fn view(&self) -> StatsView {
        StatsView {
            event_type_counts: self.event_type_counts@,
            p2p_message_counts: table_map(self.p2p_message_counts@),
            direction_counts: self.direction_counts@,
            p2p_message_bytes: table_map(self.p2p_message_bytes@),
        }
    }
}

pub proof fn lemma_table_map_index<V>(t: Seq<(String, V)>, i: int)
    requires
        keys_distinct(t),
        0 <= i < t.len(),
    ensures
        table_map(t).contains_key(t[i].0@),
        table_map(t)[t[i].0@] == t[i].1,
    decreases t.len(),
{
    if i < t.len() - 1 {
        let s = t.drop_last();
        assert(keys_distinct(s)) by {
            assert forall|a: int, b: int|
                0 <= a < s.len() && 0 <= b < s.len() && a != b implies #[trigger] s[a].0@
                != #[trigger] s[b].0@ by {
                assert(s[a] == t[a] && s[b] == t[b]);
            }
        }
        assert(s[i] == t[i]);
        lemma_table_map_index(s, i);
        assert(t[i].0@ != t[t.len() - 1].0@);
    }
}

pub proof fn lemma_table_map_absent<V>(t: Seq<(String, V)>, k: Seq<char>)
    requires
        forall|i: int| 0 <= i < t.len() ==> #[trigger] t[i].0@ != k,
    ensures
        !table_map(t).contains_key(k),
    decreases t.len(),
{
    if t.len() > 0 {
        let s = t.drop_last();
        assert forall|i: int| 0 <= i < s.len() implies #[trigger] s[i].0@ != k by {
            assert(s[i] == t[i]);
        }
        lemma_table_map_absent(s, k);
        assert(t[t.len() - 1].0@ != k);
    }
}

/// A table with distinct keys has one map entry per row.
pub proof fn lemma_table_map_len<V>(t: Seq<(String, V)>)
    requires
        keys_distinct(t),
    ensures
        table_map(t).dom().finite(),
        table_map(t).dom().len() == t.len(),
    decreases t.len(),
{
    if t.len() > 0 {
        let s = t.drop_last();
        assert(keys_distinct(s)) by {
            assert forall|a: int, b: int|
                0 <= a < s.len() && 0 <= b < s.len() && a != b implies #[trigger] s[a].0@
                != #[trigger] s[b].0@ by {
                assert(s[a] == t[a] && s[b] == t[b]);
            }
        }
        lemma_table_map_len(s);
        assert forall|i: int| 0 <= i < s.len() implies #[trigger] s[i].0@ != t.last().0@ by {
            assert(s[i] == t[i]);
        }
        lemma_table_map_absent(s, t.last().0@);
    }
}

proof fn lemma_table_update<V>(t: Seq<(String, V)>, i: int, v: V)
    requires
        keys_distinct(t),
        0 <= i < t.len(),
    ensures
        keys_distinct(t.update(i, (t[i].0, v))),
        table_map(t.update(i, (t[i].0, v))) == table_map(t).insert(t[i].0@, v),
    decreases t.len(),
{
    let u = t.update(i, (t[i].0, v));
    assert forall|a: int, b: int|
        0 <= a < u.len() && 0 <= b < u.len() && a != b implies #[trigger] u[a].0@
        != #[trigger] u[b].0@ by {
        assert(u[a].0 == t[a].0 && u[b].0 == t[b].0);
    }
    let s = t.drop_last();
    let k = t[i].0@;
    if i == t.len() - 1 {
        assert(u.drop_last() == s);
        assert(table_map(t).insert(k, v) =~= table_map(s).insert(k, v));
    } else {
        assert(keys_distinct(s)) by {
            assert forall|a: int, b: int|
                0 <= a < s.len() && 0 <= b < s.len() && a != b implies #[trigger] s[a].0@
                != #[trigger] s[b].0@ by {
                assert(s[a] == t[a] && s[b] == t[b]);
            }
        }
        assert(s[i] == t[i]);
        lemma_table_update(s, i, v);
        assert(u.drop_last() == s.update(i, (s[i].0, v)));
        assert(u.last() == t.last());
        assert(t.last().0@ != k);
        assert(table_map(u) =~= table_map(t).insert(k, v));
    }
}

proof fn lemma_table_push<V>(t: Seq<(String, V)>, key: String, v: V)
    requires
        keys_distinct(t),
        forall|i: int| 0 <= i < t.len() ==> #[trigger] t[i].0@ != key@,
    ensures
        keys_distinct(t.push((key, v))),
        table_map(t.push((key, v))) == table_map(t).insert(key@, v),
{
    let u = t.push((key, v));
    assert(u.drop_last() == t);
    assert forall|a: int, b: int|
        0 <= a < u.len() && 0 <= b < u.len() && a != b implies #[trigger] u[a].0@
        != #[trigger] u[b].0@ by {
        if a < t.len() {
            assert(u[a] == t[a]);
        }
        if b < t.len() {
            assert(u[b] == t[b]);
        }
    }
}

/// The row of `t` whose key is `key`, if any.
pub fn find_key<V>(t: &Vec<(String, V)>, key: &str) -> (r: Option<usize>)
    ensures
        match r {
            Some(i) => i < t@.len() && t@[i as int].0@ == key@,
            None => forall|i: int| 0 <= i < t@.len() ==> #[trigger] t@[i].0@ != key@,
        },
{
    let n = t.len();
    for i in 0..n
        invariant
            n == t@.len(),
            forall|j: int| 0 <= j < i ==> #[trigger] t@[j].0@ != key@,
    {
        if text_equals(t[i].0.as_str(), key) {
            return Some(i);
        }
    }
    None
}

fn bump_bits(m: &mut HashMap<u8, usize>, k: u8)
    requires
        can_bump(old(m)@, k),
    ensures
        final(m)@ == bumped(old(m)@, k),
{
    let current: usize = match m.get(&k) {
        Some(v) => *v,
        None => 0,
    };
    m.insert(k, current + 1);
}

fn bump_row(t: &mut Vec<(String, usize)>, key: String)
    requires
        keys_distinct(old(t)@),
        can_bump(table_map(old(t)@), key@),
    ensures
        keys_distinct(final(t)@),
        table_map(final(t)@) == bumped(table_map(old(t)@), key@),
{
    match find_key(t, key.as_str()) {
        Some(i) => {
            proof {
                lemma_table_map_index(t@, i as int);
            }
            let v = t[i].1;
            let k = t[i].0.clone();
            proof {
                lemma_table_update(t@, i as int, (v + 1) as usize);
            }
            t.set(i, (k, v + 1));
        },
        None => {
            proof {
                lemma_table_map_absent(t@, key@);
                lemma_table_push(t@, key, 1usize);
            }
            t.push((key, 1));
        },
    }
}

fn add_to_row(t: &mut Vec<(String, u64)>, key: String, n: u64)
    requires
        keys_distinct(old(t)@),
        can_add(table_map(old(t)@), key@, n),
    ensures
        keys_distinct(final(t)@),
        table_map(final(t)@) == added(table_map(old(t)@), key@, n),
{
    match find_key(t, key.as_str()) {
        Some(i) => {
            proof {
                lemma_table_map_index(t@, i as int);
            }
            let v = t[i].1;
            let k = t[i].0.clone();
            proof {
                lemma_table_update(t@, i as int, (v + n) as u64);
            }
            t.set(i, (k, v + n));
        },
        None => {
            proof {
                lemma_table_map_absent(t@, key@);
                lemma_table_push(t@, key, n);
            }
            t.push((key, n));
        },
    }
}

proof fn lemma_first_bracket_at(s: Seq<char>, i: int)
    requires
        0 <= i <= s.len(),
        forall|j: int| 0 <= j < i ==> !is_bracket(#[trigger] s[j]),
        i == s.len() || is_bracket(s[i]),
    ensures
        first_bracket(s) == i,
    decreases i,
{
    if i > 0 {
        let t = s.drop_first();
        assert forall|j: int| 0 <= j < i - 1 implies !is_bracket(#[trigger] t[j]) by {
            assert(t[j] == s[j + 1]);
        }
        if i < s.len() {
            assert(t[i - 1] == s[i]);
        }
        lemma_first_bracket_at(t, i - 1);
        assert(!is_bracket(s[0]));
    }
}

/// The part of `content` before the first `(` or `[`, or all of it.
pub fn command_name(content: &str) -> (r: String)
    ensures
        r@ == content@.take(first_bracket(content@) as int),
{
    let cs = chars_of(content);
    let n = cs.len();
    let mut i: usize = 0;
    while i < n && cs[i] != '(' && cs[i] != '['
        invariant
            n == cs@.len(),
            cs@ == content@,
            i <= n,
            forall|j: int| 0 <= j < i ==> !is_bracket(#[trigger] cs@[j]),
        decreases n - i,
    {
        i = i + 1;
    }
    proof {
        lemma_first_bracket_at(cs@, i as int);
    }
    string_of_range(cs.as_slice(), 0, i)
}

impl Statistics {
    /// No message type appears twice in a table.
    pub open spec fn wf(&self) -> bool {
        &&& keys_distinct(self.p2p_message_counts@)
        &&& keys_distinct(self.p2p_message_bytes@)
    }

    /// All counters empty.
    pub fn new() -> (r: Statistics)
        ensures
            r.wf(),
            r@.event_type_counts == Map::<u8, usize>::empty(),
            r@.p2p_message_counts == Map::<Seq<char>, usize>::empty(),
            r@.direction_counts == Map::<u8, usize>::empty(),
            r@.p2p_message_bytes == Map::<Seq<char>, u64>::empty(),
    {
        Statistics {
            event_type_counts: HashMap::new(),
            p2p_message_counts: Vec::new(),
            direction_counts: HashMap::new(),
            p2p_message_bytes: Vec::new(),
        }
    }

    /// Whether `message` can be recorded without a counter overflowing.
    pub fn can_record(&self, message: &LogMessage) -> (r: bool)
        requires
            self.wf(),
        ensures
            r == recordable(self@, *message),
    {
        match self.event_type_counts.get(&message.event_type.bits) {
            Some(c) => {
                if *c == usize::MAX {
                    return false;
                }
            },
            None => {},
        }
        if !message.event_type.contains(EventType::message()) {
            return true;
        }
        match self.direction_counts.get(&message.direction.bits) {
            Some(c) => {
                if *c == usize::MAX {
                    return false;
                }
            },
            None => {},
        }
        let msg_type = match &message.p2p_msg_type {
            Some(t) => t.clone(),
            None => command_name(message.content.as_str()),
        };
        match find_key(&self.p2p_message_counts, msg_type.as_str()) {
            Some(i) => {
                proof {
                    lemma_table_map_index(self.p2p_message_counts@, i as int);
                }
                if self.p2p_message_counts[i].1 == usize::MAX {
                    return false;
                }
            },
            None => {
                proof {
                    lemma_table_map_absent(self.p2p_message_counts@, msg_type@);
                }
            },
        }
        if let Some(size) = message.msg_size {
            match find_key(&self.p2p_message_bytes, msg_type.as_str()) {
                Some(i) => {
                    proof {
                        lemma_table_map_index(self.p2p_message_bytes@, i as int);
                    }
                    if self.p2p_message_bytes[i].1 > u64::MAX - size {
                        return false;
                    }
                },
                None => {
                    proof {
                        lemma_table_map_absent(self.p2p_message_bytes@, msg_type@);
                    }
                },
            }
        }
        true
    }

    /// Counts `message`: its event type always; for a P2P message also its
    /// direction, its message type, and its size when known.
    pub fn record_event(&mut self, message: &LogMessage)
        requires
            old(self).wf(),
            recordable(old(self)@, *message),
        ensures
            final(self).wf(),
            final(self)@ == recorded(old(self)@, *message),
    {
        bump_bits(&mut self.event_type_counts, message.event_type.bits);
        if message.event_type.contains(EventType::message()) {
            bump_bits(&mut self.direction_counts, message.direction.bits);
            let msg_type = match &message.p2p_msg_type {
                Some(t) => t.clone(),
                None => command_name(message.content.as_str()),
            };
            assert(msg_type@ == counted_type(*message));
            bump_row(&mut self.p2p_message_counts, msg_type.clone());
            match message.msg_size {
                Some(size) => {
                    add_to_row(&mut self.p2p_message_bytes, msg_type, size);
                },
                None => {},
            }
        }
    }
}

} // verus!
