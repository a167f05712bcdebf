//! The statistics screen.
use vstd::prelude::*;

use std::collections::HashMap;

use crate::app::{App, AppView};
use crate::display::Hue;
use crate::models::statistics::{find_key, lemma_table_map_absent, lemma_table_map_index};
use crate::models::{Direction, EventType, LogMessage, Statistics};
use crate::text::{decimal, decimal_text_usize, owned};

verus! {

broadcast use vstd::std_specs::hash::group_hash_axioms;

/// What `humansize::format_size` writes for a byte count with the `BINARY`
/// options (powers of 1024, up to two decimals, e.g. `1.5 KiB`).
pub uninterp spec fn binary_size_text(bytes: u64) -> Seq<char>;

/// Calls `humansize::format_size(bytes, humansize::BINARY)`; the result is
/// named `binary_size_text`.
#[verifier::external_body]
pub(crate) fn format_size_binary(bytes: u64) -> (r: String)
    ensures
        r@ == binary_size_text(bytes),
{
    humansize::format_size(bytes, humansize::BINARY)
}

/// Counts in `s` never increase along the sequence.
pub open spec fn sorted_by_count<T>(s: Seq<(T, usize)>) -> bool {
    forall|a: int, b: int| 0 <= a < b < s.len() ==> #[trigger] s[a].1 >= #[trigger] s[b].1
}

/// `rows` reordered so that the counts go from high to low.
pub fn sort_by_count_desc<T>(rows: Vec<(T, usize)>) -> (r: Vec<(T, usize)>)
    ensures
        sorted_by_count(r@),
        r@.to_multiset() == rows@.to_multiset(),
{
    broadcast use vstd::seq_lib::to_multiset_build, vstd::seq_lib::to_multiset_insert;

    let ghost input = rows@;
    let mut rest = rows;
    let mut out: Vec<(T, usize)> = Vec::new();
    let n = rest.len();
    assert(input.skip(0) == input);
    assert(input.take(0) =~= Seq::<(T, usize)>::empty());
    for i in 0..n
        invariant
            n == input.len(),
            rest@ == input.skip(i as int),
            sorted_by_count(out@),
            out@.to_multiset() == input.take(i as int).to_multiset(),
    {
        let x = rest.remove(0);
        assert(x == input[i as int]);
        assert(rest@ =~= input.skip(i + 1));
        let mut pos: usize = 0;
        while pos < out.len() && out[pos].1 >= x.1
            invariant
                pos <= out@.len(),
                forall|j: int| 0 <= j < pos ==> #[trigger] out@[j].1 >= x.1,
            decreases out@.len() - pos,
        {
            pos = pos + 1;
        }
        let ghost before = out@;
        out.insert(pos, x);
        proof {
            assert(input.take(i + 1) =~= input.take(i as int).push(x));
            vstd::seq_lib::to_multiset_insert(before, pos as int, x);
            vstd::seq_lib::to_multiset_build(input.take(i as int), x);
            assert forall|a: int, b: int| 0 <= a < b < out@.len() implies #[trigger] out@[a].1
                >= #[trigger] out@[b].1 by {
                if b < pos {
                    assert(out@[a] == before[a] && out@[b] == before[b]);
                } else if b == pos {
                    assert(out@[a] == before[a]);
                } else if a < pos {
                    assert(out@[a] == before[a] && out@[b] == before[b - 1]);
                    assert(before[pos as int].1 < x.1);
                    assert(before[a].1 >= x.1);
                } else if a == pos {
                    assert(before[pos as int].1 < x.1);
                    assert(out@[b] == before[b - 1]);
                } else {
                    assert(out@[a] == before[a - 1] && out@[b] == before[b - 1]);
                }
            }
        }
    }
    assert(input.take(n as int) == input);
    out
}

/// The entries of an event-type count map for the bits below `k`, in order of bits.
pub open spec fn event_entries(m: Map<u8, usize>, k: nat) -> Seq<(EventType, usize)>
    decreases k,
{
    if k == 0 {
        Seq::empty()
    } else {
        let r = event_entries(m, (k - 1) as nat);
        let b = (k - 1) as u8;
        if m.contains_key(b) {
            r.push((EventType { bits: b }, m[b]))
        } else {
            r
        }
    }
}

/// The entries of a direction count map for the bits from 1 below `k`, in order of bits.
pub open spec fn direction_entries(m: Map<u8, usize>, k: nat) -> Seq<(Direction, usize)>
    decreases k,
{
    if k <= 1 {
        Seq::empty()
    } else {
        let r = direction_entries(m, (k - 1) as nat);
        let b = (k - 1) as u8;
        if m.contains_key(b) {
            r.push((Direction { bits: b }, m[b]))
        } else {
            r
        }
    }
}

/// The sum of the counts under the bits below `k`.
pub open spec fn bits_sum(m: Map<u8, usize>, k: nat) -> int
    decreases k,
{
    if k == 0 {
        0
    } else {
        bits_sum(m, (k - 1) as nat) + if m.contains_key((k - 1) as u8) {
            m[(k - 1) as u8] as int
        } else {
            0
        }
    }
}

/// The sum of the second components of a table.
pub open spec fn table_sum(t: Seq<(String, u64)>) -> int
    decreases t.len(),
{
    if t.len() == 0 {
        0
    } else {
        table_sum(t.drop_last()) + t.last().1
    }
}

/// The sum of the known sizes of the messages.
pub open spec fn sizes_sum(s: Seq<LogMessage>) -> int
    decreases s.len(),
{
    if s.len() == 0 {
        0
    } else {
        sizes_sum(s.drop_last()) + match s.last().msg_size {
            Some(z) => z as int,
            None => 0,
        }
    }
}

/// The name of an event type on the statistics screen.
pub open spec fn spec_stats_label(e: EventType) -> Seq<char> {
    if e == EventType::spec_message() {
        "P2P Message"@
    } else if e == EventType::spec_connection() {
        "Connection"@
    } else if e == EventType::spec_addrman() {
        "Address Manager"@
    } else if e == EventType::spec_mempool() {
        "Mempool"@
    } else if e == EventType::spec_validation() {
        "Validation"@
    } else {
        "Unknown"@
    }
}

/// The colour of an event type on the statistics screen.
pub open spec fn spec_stats_hue(e: EventType) -> Hue {
    if e == EventType::spec_message() {
        Hue::Green
    } else if e == EventType::spec_connection() {
        Hue::Magenta
    } else if e == EventType::spec_addrman() {
        Hue::Yellow
    } else if e == EventType::spec_mempool() {
        Hue::LightBlue
    } else if e == EventType::spec_validation() {
        Hue::LightRed
    } else {
        Hue::White
    }
}

/// The colour of a direction on the statistics screen.
pub open spec fn spec_direction_hue(d: Direction) -> Hue {
    if d.has(Direction::spec_inbound()) {
        Hue::Green
    } else if d.has(Direction::spec_outbound()) {
        Hue::Cyan
    } else {
        Hue::White
    }
}

/// One line of the message-type table.
pub struct P2pTypeRow {
    pub message_type: String,
    pub count: usize,
    pub bytes: u64,
    pub size_text: String,
}

/// The bytes recorded under a message type, 0 when none are.
pub open spec fn bytes_of(m: Map<Seq<char>, u64>, t: Seq<char>) -> u64 {
    if m.contains_key(t) {
        m[t]
    } else {
        0
    }
}

/// The line of the message-type table for a count row.
pub open spec fn p2p_row_spec(row: (String, usize), bytes: Map<Seq<char>, u64>) -> (
    Seq<char>,
    usize,
    u64,
    Seq<char>,
) {
    (row.0@, row.1, bytes_of(bytes, row.0@), binary_size_text(bytes_of(bytes, row.0@)))
}

impl P2pTypeRow {
    pub open spec fn spec_view(&self) -> (Seq<char>, usize, u64, Seq<char>) {
        (self.message_type@, self.count, self.bytes, self.size_text@)
    }
}

/// The summary line of the statistics screen.
pub open spec fn stats_summary_text(v: AppView, unique_types: nat, total_bytes: u64) -> Seq<char> {
    "Total messages: "@ + decimal(v.total_messages_observed as nat)
        + " | Unique P2P message types: "@ + decimal(unique_types) + " | Total bytes: "@
        + binary_size_text(total_bytes)
}

impl EventType {
    /// The name of this event type on the statistics screen.
    pub fn stats_label(&self) -> (r: &'static str)
        ensures
            r@ == spec_stats_label(*self),
    {
        if *self == EventType::message() {
            "P2P Message"
        } else if *self == EventType::connection() {
            "Connection"
        } else if *self == EventType::addrman() {
            "Address Manager"
        } else if *self == EventType::mempool() {
            "Mempool"
        } else if *self == EventType::validation() {
            "Validation"
        } else {
            "Unknown"
        }
    }

    /// The colour of this event type on the statistics screen.
    pub fn stats_hue(&self) -> (r: Hue)
        ensures
            r == spec_stats_hue(*self),
    {
        if *self == EventType::message() {
            Hue::Green
        } else if *self == EventType::connection() {
            Hue::Magenta
        } else if *self == EventType::addrman() {
            Hue::Yellow
        } else if *self == EventType::mempool() {
            Hue::LightBlue
        } else if *self == EventType::validation() {
            Hue::LightRed
        } else {
            Hue::White
        }
    }
}

impl Direction {
    /// The colour of this direction on the statistics screen.
    pub fn stats_hue(&self) -> (r: Hue)
        ensures
            r == spec_direction_hue(*self),
    {
        if self.contains(Direction::inbound()) {
            Hue::Green
        } else if self.contains(Direction::outbound()) {
            Hue::Cyan
        } else {
            Hue::White
        }
    }
}

fn sum_bits(m: &HashMap<u8, usize>) -> (r: Option<usize>)
    ensures
        bits_sum(m@, 256) <= usize::MAX ==> r == Some(bits_sum(m@, 256) as usize),
        bits_sum(m@, 256) > usize::MAX ==> r is None,
{
    let mut total: usize = 0;
    let mut k: u16 = 0;
    while k < 256
        invariant
            k <= 256,
            total == bits_sum(m@, k as nat),
        decreases 256 - k,
    {
        let add: usize = match m.get(&(k as u8)) {
            Some(c) => *c,
            None => 0,
        };
        if add > usize::MAX - total {
            proof {
                lemma_bits_sum_grows(m@, (k + 1) as nat, 256);
            }
            return None;
        }
        total = total + add;
        k = k + 1;
    }
    Some(total)
}

proof fn lemma_bits_sum_grows(m: Map<u8, usize>, a: nat, b: nat)
    requires
        a <= b,
    ensures
        bits_sum(m, a) <= bits_sum(m, b),
    decreases b,
{
    if a < b {
        lemma_bits_sum_grows(m, a, (b - 1) as nat);
    }
}

proof fn lemma_table_sum_grows(t: Seq<(String, u64)>, a: int)
    requires
        0 <= a <= t.len(),
    ensures
        table_sum(t.take(a)) <= table_sum(t),
    decreases t.len(),
{
    if a < t.len() {
        assert(t.drop_last().take(a) == t.take(a));
        lemma_table_sum_grows(t.drop_last(), a);
    } else {
        assert(t.take(a) == t);
    }
}

proof fn lemma_sizes_sum_grows(s: Seq<LogMessage>, a: int)
    requires
        0 <= a <= s.len(),
    ensures
        sizes_sum(s.take(a)) <= sizes_sum(s),
    decreases s.len(),
{
    if a < s.len() {
        assert(s.drop_last().take(a) == s.take(a));
        lemma_sizes_sum_grows(s.drop_last(), a);
    } else {
        assert(s.take(a) == s);
    }
}

impl Statistics {
    /// The event types with their counts, highest count first.
    pub fn event_type_rows(&self) -> (r: Vec<(EventType, usize)>)
        ensures
            sorted_by_count(r@),
            r@.to_multiset() == event_entries(self@.event_type_counts, 256).to_multiset(),
    {
        let mut rows: Vec<(EventType, usize)> = Vec::new();
        let mut k: u16 = 0;
        while k < 256
            invariant
                k <= 256,
                rows@ == event_entries(self.event_type_counts@, k as nat),
            decreases 256 - k,
        {
            let b = k as u8;
            if let Some(c) = self.event_type_counts.get(&b) {
                rows.push((EventType::from_bits_retain(b), *c));
            }
            k = k + 1;
        }
        sort_by_count_desc(rows)
    }

    /// The directions other than the empty one with their counts, highest count first.
    pub fn direction_rows(&self) -> (r: Vec<(Direction, usize)>)
        ensures
            sorted_by_count(r@),
            r@.to_multiset() == direction_entries(self@.direction_counts, 256).to_multiset(),
    {
        let mut rows: Vec<(Direction, usize)> = Vec::new();
        let mut k: u16 = 1;
        while k < 256
            invariant
                1 <= k <= 256,
                rows@ == direction_entries(self.direction_counts@, k as nat),
            decreases 256 - k,
        {
            let b = k as u8;
            if let Some(c) = self.direction_counts.get(&b) {
                rows.push((Direction::from_bits_retain(b), *c));
            }
            k = k + 1;
        }
        sort_by_count_desc(rows)
    }

    /// The number of P2P messages (the sum of the direction counts), or
    /// `None` when the sum overflows.
    pub fn p2p_total(&self) -> (r: Option<usize>)
        ensures
            bits_sum(self@.direction_counts, 256) <= usize::MAX ==> r == Some(
                bits_sum(self@.direction_counts, 256) as usize,
            ),
            bits_sum(self@.direction_counts, 256) > usize::MAX ==> r is None,
    {
        sum_bits(&self.direction_counts)
    }

    /// The number of P2P bytes (the sum over message types), or `None` when
    /// the sum overflows.
    pub fn p2p_bytes_total(&self) -> (r: Option<u64>)
        ensures
            table_sum(self.p2p_message_bytes@) <= u64::MAX ==> r == Some(
                table_sum(self.p2p_message_bytes@) as u64,
            ),
            table_sum(self.p2p_message_bytes@) > u64::MAX ==> r is None,
    {
        let t = &self.p2p_message_bytes;
        let n = t.len();
        let mut total: u64 = 0;
        for i in 0..n
            invariant
                n == t@.len(),
                t@ == self.p2p_message_bytes@,
                total == table_sum(t@.take(i as int)),
        {
            assert(t@.take(i + 1).drop_last() == t@.take(i as int));
            assert(t@.take(i + 1).last() == t@[i as int]);
            if t[i].1 > u64::MAX - total {
                proof {
                    assert(table_sum(t@.take(i + 1)) == table_sum(t@.take(i as int)) + t@[i as int].1);
                    lemma_table_sum_grows(t@, i + 1);
                    assert(table_sum(t@) > u64::MAX);
                }
                return None;
            }
            total = total + t[i].1;
        }
        assert(t@.take(n as int) == t@);
        Some(total)
    }

    /// The message types with their counts, bytes and byte text, highest
    /// count first: a reordering of the count table.
    pub fn p2p_rows(&self) -> (r: Vec<P2pTypeRow>)
        requires
            self.wf(),
        ensures
            r@.len() == self.p2p_message_counts@.len(),
            forall|a: int, b: int| 0 <= a < b < r@.len() ==> #[trigger] r@[a].count >= #[trigger] r@[b].count,
            exists|order: Seq<(usize, usize)>|
                #![trigger order.to_multiset()]
                order.to_multiset() == Seq::new(
                    self.p2p_message_counts@.len(),
                    |i: int| (i as usize, self.p2p_message_counts@[i].1),
                ).to_multiset() && order.len() == r@.len() && forall|j: int|
                    0 <= j < r@.len() ==> #[trigger] r@[j].spec_view() == p2p_row_spec(
                        self.p2p_message_counts@[order[j].0 as int],
                        self@.p2p_message_bytes,
                    ),
    {
        let counts = &self.p2p_message_counts;
        let n = counts.len();
        let mut keyed: Vec<(usize, usize)> = Vec::new();
        for i in 0..n
            invariant
                n == counts@.len(),
                keyed@ == Seq::new(i as nat, |j: int| (j as usize, counts@[j].1)),
        {
            keyed.push((i, counts[i].1));
            assert(keyed@ =~= Seq::new((i + 1) as nat, |j: int| (j as usize, counts@[j].1)));
        }
        let ghost all = keyed@;
        let sorted = sort_by_count_desc(keyed);
        proof {
            assert forall|j: int| 0 <= j < sorted@.len() implies #[trigger] sorted@[j].0 < n
                && sorted@[j].1 == counts@[sorted@[j].0 as int].1 by {
                assert(sorted@.to_multiset().count(sorted@[j]) > 0) by {
                    broadcast use vstd::seq_lib::to_multiset_contains;

                    assert(sorted@.contains(sorted@[j]));
                }
                broadcast use vstd::seq_lib::to_multiset_contains;

                assert(all.contains(sorted@[j]));
            }
        }
        let mut rows: Vec<P2pTypeRow> = Vec::new();
        let m = sorted.len();
        for j in 0..m
            invariant
                m == sorted@.len(),
                self.wf(),
                counts == &self.p2p_message_counts,
                n == counts@.len(),
                forall|j: int| 0 <= j < sorted@.len() ==> #[trigger] sorted@[j].0 < n
                    && sorted@[j].1 == counts@[sorted@[j].0 as int].1,
                rows@.len() == j,
                forall|k: int| 0 <= k < j ==> #[trigger] rows@[k].spec_view() == p2p_row_spec(
                    counts@[sorted@[k].0 as int],
                    self@.p2p_message_bytes,
                ),
        {
            let idx = sorted[j].0;
            let message_type = counts[idx].0.clone();
            let count = counts[idx].1;
            let bytes: u64 = match find_key(&self.p2p_message_bytes, message_type.as_str()) {
                Some(b) => {
                    proof {
                        lemma_table_map_index(self.p2p_message_bytes@, b as int);
                    }
                    self.p2p_message_bytes[b].1
                },
                None => {
                    proof {
                        lemma_table_map_absent(self.p2p_message_bytes@, message_type@);
                    }
                    0
                },
            };
            let size_text = format_size_binary(bytes);
            rows.push(P2pTypeRow { message_type, count, bytes, size_text });
        }
        proof {
            assert(all =~= Seq::new(n as nat, |i: int| (i as usize, counts@[i].1)));
            vstd::seq_lib::to_multiset_len(sorted@);
            vstd::seq_lib::to_multiset_len(all);
            assert(sorted@.len() == all.len());
            assert forall|a: int, b: int| 0 <= a < b < rows@.len() implies #[trigger] rows@[a].count
                >= #[trigger] rows@[b].count by {
                assert(rows@[a].spec_view() == p2p_row_spec(
                    counts@[sorted@[a].0 as int],
                    self@.p2p_message_bytes,
                ));
                assert(rows@[b].spec_view() == p2p_row_spec(
                    counts@[sorted@[b].0 as int],
                    self@.p2p_message_bytes,
                ));
                assert(sorted@[a].1 >= sorted@[b].1);
            }
        }
        rows
    }
}

impl App {
    /// The sum of the known sizes of the buffered messages, or `None` when it
    /// overflows.
    pub fn buffered_bytes(&self) -> (r: Option<u64>)
        requires
            self.inv(),
        ensures
            sizes_sum(self@.messages) <= u64::MAX ==> r == Some(sizes_sum(self@.messages) as u64),
            sizes_sum(self@.messages) > u64::MAX ==> r is None,
    {
        let b = self.messages();
        let n = crate::ring::ring_len(b);
        let ghost s = self@.messages;
        let mut total: u64 = 0;
        for i in 0..n
            invariant
                s == self@.messages,
                crate::ring::ring_contents(*b) == s,
                n == s.len(),
                total == sizes_sum(s.take(i as int)),
        {
            assert(s.take(i + 1).drop_last() == s.take(i as int));
            proof {
                vstd::arithmetic::div_mod::lemma_small_mod(i as nat, n as nat);
            }
            if let Some(msg) = crate::ring::ring_get(b, i) {
                assert(*msg == s[i as int]);
                if let Some(size) = msg.msg_size {
                    if size > u64::MAX - total {
                        proof {
                            lemma_sizes_sum_grows(s, i + 1);
                        }
                        return None;
                    }
                    total = total + size;
                }
            }
        }
        assert(s.take(n as int) == s);
        Some(total)
    }

    /// The summary line of the statistics screen, or `None` when the byte
    /// total overflows.
    pub fn stats_summary(&self) -> (r: Option<String>)
        requires
            self.inv(),
        ensures
            sizes_sum(self@.messages) > u64::MAX ==> r is None,
            sizes_sum(self@.messages) <= u64::MAX ==> r is Some && r->0@ == stats_summary_text(
                self@,
                self@.statistics.p2p_message_counts.dom().len(),
                sizes_sum(self@.messages) as u64,
            ),
    {
        match self.buffered_bytes() {
            None => None,
            Some(total_bytes) => {
                let stats = self.statistics();
                proof {
                    crate::models::statistics::lemma_table_map_len(stats.p2p_message_counts@);
                }
                let mut out = owned("Total messages: ");
                out.append(decimal_text_usize(self.total_messages_observed()).as_str());
                out.append(" | Unique P2P message types: ");
                out.append(decimal_text_usize(stats.p2p_message_counts.len()).as_str());
                out.append(" | Total bytes: ");
                out.append(format_size_binary(total_bytes).as_str());
                Some(out)
            },
        }
    }
}

} // verus!
