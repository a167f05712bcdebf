//! Properties of the viewer that span several operations.
use vstd::prelude::*;

use crate::app::keys::{after_key, entered, stats_toggled, Key};
use crate::app::command::{interpret, CommandView, MIN_BUFFER_SIZE};
use crate::app::{
    detail_opened, applied, bottom_offset, cleared, filter_status, filtered, keep_last, passes, same_selection, scrolled,
    status_parts, toggled_direction, toggled_event, AppView,
};
use crate::models::statistics::{
    counted_type, empty_stats, lemma_map_sum_bumped, map_sum, recordable_all, recorded, recorded_all,
    StatsView,
};
use crate::models::{AppMode, Direction, EventType, LogMessage};
use crate::text::{
    decimal, has_substring, lemma_decimal_parses, lemma_digits_untrimmed, lowercase,
};
use crate::ring::pushed;

verus! {

/// The bit facts behind toggling a set of flags twice: removing and adding
/// back `b` where `a` holds all of it, adding and removing it where `a`
/// holds none of it.
proof fn lemma_bits_toggle_twice(a: u8, b: u8)
    ensures
        a & b == b ==> ((a & !b) & b == b) == (b == 0),
        a & !0u8 == a,
        a & b == b && (a & !b) == 0 ==> a == b,
        a & b == b ==> ((a & !b) | b) == a,
        a & b == 0 && b != 0 ==> (a & b != b),
        a & b == 0 ==> (a | b) & b == b && ((a | b) & !b) == a,
        b & b == b && (b & !b) == 0,
{
    assert(a & b == b ==> ((a & !b) & b == b) == (b == 0)) by (bit_vector);
    assert(a & !0u8 == a) by (bit_vector);
    assert(a & b == b && (a & !b) == 0 ==> a == b) by (bit_vector);
    assert(a & b == b ==> ((a & !b) | b) == a) by (bit_vector);
    assert(a & b == 0 && b != 0 ==> (a & b != b)) by (bit_vector);
    assert(a & b == 0 ==> (a | b) & b == b && ((a | b) & !b) == a) by (bit_vector);
    assert(b & b == b && (b & !b) == 0) by (bit_vector);
}

/// Toggling the same event types twice restores the type filter, whenever
/// the filter holds all of them or none of them (in particular for any single type).
pub proof fn law_event_toggle_twice(f: EventType, e: EventType)
    requires
        f.bits & e.bits == 0 || f.bits & e.bits == e.bits,
    ensures
        toggled_event(toggled_event(f, e), e) == f,
{
    lemma_bits_toggle_twice(f.bits, e.bits);
}

/// Toggling the same directions twice restores the direction filter, whenever
/// the filter holds all of them or none of them.
pub proof fn law_direction_toggle_twice(f: Direction, d: Direction)
    requires
        f.bits & d.bits == 0 || f.bits & d.bits == d.bits,
    ensures
        toggled_direction(toggled_direction(f, d), d) == f,
{
    lemma_bits_toggle_twice(f.bits, d.bits);
}

/// With no filter active, every buffered message is listed.
pub proof fn law_cleared_shows_all(v: AppView)
    ensures
        filtered(cleared(v)) == v.messages,
{
    let c = cleared(v);
    let pred = |m: LogMessage| passes(m, c);
    assert forall|i: int| 0 <= i < v.messages.len() implies pred(v.messages[i]) by {}
    lemma_filter_all(v.messages, pred);
}

proof fn lemma_filter_all(s: Seq<LogMessage>, pred: spec_fn(LogMessage) -> bool)
    requires
        forall|i: int| 0 <= i < s.len() ==> pred(s[i]),
    ensures
        s.filter(pred) == s,
    decreases s.len(),
{
    reveal_with_fuel(Seq::<_>::filter, 1);
    if s.len() > 0 {
        let t = s.drop_last();
        assert forall|i: int| 0 <= i < t.len() implies pred(t[i]) by {
            assert(t[i] == s[i]);
        }
        lemma_filter_all(t, pred);
        assert(s.drop_last().push(s.last()) == s);
    }
}

/// The filter status reads `No filters active` when no filter is set.
pub proof fn law_status_without_filters(v: AppView)
    requires
        v.filter_event_type.bits == 0,
        v.filter_direction.bits == 0,
        v.filter_peer_id is None,
        v.filter_conn_type is None,
        v.filter_text is None,
    ensures
        filter_status(v) == "No filters active"@,
{
    assert(status_parts(v) =~= Seq::<Seq<char>>::empty());
}

/// Only the filters and the messages decide which messages are listed: the
/// scroll position, the mode, the input line and the counters do not.
pub proof fn law_selection_ignores_view_state(a: AppView, b: AppView)
    requires
        same_selection(a, b),
    ensures
        filtered(a) == filtered(b),
{
    crate::app::lemma_filtered_same(a, b);
}

/// The listed messages are some of the buffered ones, never more.
pub proof fn law_filtered_within_buffer(v: AppView)
    ensures
        filtered(v).len() <= v.messages.len(),
        forall|i: int| 0 <= i < filtered(v).len() ==> v.messages.contains(#[trigger] filtered(v)[i]),
{
    let pred = |m: LogMessage| passes(m, v);
    v.messages.lemma_filter_len(pred);
    assert forall|i: int| 0 <= i < filtered(v).len() implies v.messages.contains(
        #[trigger] filtered(v)[i],
    ) by {
        let f = v.messages.filter(pred);
        assert(f.contains(f[i]));
        v.messages.lemma_filter_contains_rev(pred, f[i]);
    }
}

/// Filters on direction, peer and connection type only hide P2P messages.
pub proof fn law_p2p_filters_spare_other_events(m: LogMessage, a: AppView, b: AppView)
    requires
        !m.event_type.has(EventType::spec_message()),
        a.filter_event_type == b.filter_event_type,
        a.filter_text == b.filter_text,
    ensures
        passes(m, a) == passes(m, b),
{
}

/// A pushed message becomes the newest one; the buffer grows by one until
/// it is full and keeps its length after that, losing only its oldest message.
pub proof fn law_push_keeps_newest(s: Seq<LogMessage>, capacity: nat, m: LogMessage)
    requires
        0 < capacity,
        s.len() <= capacity,
    ensures
        pushed(s, capacity, m).last() == m,
        pushed(s, capacity, m).len() == (if s.len() < capacity {
            (s.len() + 1) as int
        } else {
            s.len() as int
        }),
        pushed(s, capacity, m).drop_last() == (if s.len() < capacity {
            s
        } else {
            s.drop_first()
        }),
        pushed(s, capacity, m).len() <= capacity,
{
    assert(s.push(m).drop_last() == s);
    assert(s.drop_first().push(m).drop_last() == s.drop_first());
}

/// Resizing the buffer keeps the most recent messages, as many as fit, in order.
pub proof fn law_resize_keeps_recent(s: Seq<LogMessage>, n: nat)
    ensures
        keep_last(s, n).len() == (if s.len() <= n {
            s.len() as int
        } else {
            n as int
        }),
        forall|i: int|
            0 <= i < keep_last(s, n).len() ==> #[trigger] keep_last(s, n)[i] == s[s.len()
                - keep_last(s, n).len() + i],
{
}

/// With fewer than 65536 listed messages, scrolling to the bottom selects
/// the last one.
pub proof fn law_bottom_is_last(v: AppView)
    requires
        0 < filtered(v).len() < 65536,
    ensures
        bottom_offset(v) == filtered(v).len() - 1,
{
    let n = filtered(v).len() as int;
    assert(n % 65536 == n) by {
        vstd::arithmetic::div_mod::lemma_small_mod(n as nat, 65536);
    }
}

/// Manual scrolling stays on a listed message, when fewer than 65536 are listed.
pub proof fn law_scroll_stays_in_list(v: AppView, delta: i32)
    requires
        delta != 0,
        0 < filtered(v).len() <= 65536,
    ensures
        scrolled(v, delta).scroll_offset < filtered(v).len(),
        !scrolled(v, delta).autoscroll,
{
    let n = filtered(v).len() as int;
    assert(n % 4294967296 == n) by {
        vstd::arithmetic::div_mod::lemma_small_mod(n as nat, 4294967296);
    }
    let c = crate::app::clamp(v.scroll_offset + delta, 0, n - 1);
    assert(c % 65536 == c) by {
        vstd::arithmetic::div_mod::lemma_small_mod(c as nat, 65536);
    }
}

/// Toggling the statistics screen twice from the list or the statistics
/// screen comes back to where it started.
pub proof fn law_statistics_toggle_twice(v: AppView)
    requires
        v.mode == AppMode::Normal || v.mode == AppMode::Statistics,
    ensures
        stats_toggled(stats_toggled(v)) == v,
{
}

/// Recording an event raises the count of its event type by one and leaves
/// the other event types alone.
pub proof fn law_record_counts_once(s: StatsView, m: LogMessage, other: u8)
    requires
        other != m.event_type.bits,
    ensures
        recorded(s, m).event_type_counts[m.event_type.bits] == (if s.event_type_counts.contains_key(
            m.event_type.bits,
        ) {
            s.event_type_counts[m.event_type.bits] + 1
        } else {
            1
        }) as usize,
        recorded(s, m).event_type_counts.contains_key(other) == s.event_type_counts.contains_key(
            other,
        ),
        s.event_type_counts.contains_key(other) ==> recorded(s, m).event_type_counts[other]
            == s.event_type_counts[other],
{
}

/// Recording an event that is not a P2P message leaves the P2P counters alone.
pub proof fn law_record_other_event(s: StatsView, m: LogMessage)
    requires
        !m.event_type.has(EventType::spec_message()),
    ensures
        recorded(s, m).direction_counts == s.direction_counts,
        recorded(s, m).p2p_message_counts == s.p2p_message_counts,
        recorded(s, m).p2p_message_bytes == s.p2p_message_bytes,
{
}

/// A P2P message: one whose event type includes `message`.
pub open spec fn is_p2p(m: LogMessage) -> bool {
    m.event_type.has(EventType::spec_message())
}

/// Every count in `m` is at least one.
pub open spec fn counts_positive<K>(m: Map<K, usize>) -> bool {
    forall|k: K| m.contains_key(k) ==> #[trigger] m[k] > 0
}

/// Over any series of recordings from empty counters in which no counter
/// overflows: the event-type counts add up to the number of events, the
/// direction counts and the message-type counts each add up to the number of
/// P2P messages, no count is zero, and every message type with a byte total
/// also has a count.
pub proof fn law_record_totals(ms: Seq<LogMessage>)
    requires
        recordable_all(empty_stats(), ms),
    ensures
        recorded_all(empty_stats(), ms).event_type_counts.dom().finite(),
        recorded_all(empty_stats(), ms).direction_counts.dom().finite(),
        recorded_all(empty_stats(), ms).p2p_message_counts.dom().finite(),
        map_sum(recorded_all(empty_stats(), ms).event_type_counts) == ms.len(),
        map_sum(recorded_all(empty_stats(), ms).direction_counts) == ms.filter(
            |m: LogMessage| is_p2p(m),
        ).len(),
        map_sum(recorded_all(empty_stats(), ms).p2p_message_counts) == ms.filter(
            |m: LogMessage| is_p2p(m),
        ).len(),
        counts_positive(recorded_all(empty_stats(), ms).event_type_counts),
        counts_positive(recorded_all(empty_stats(), ms).direction_counts),
        counts_positive(recorded_all(empty_stats(), ms).p2p_message_counts),
        recorded_all(empty_stats(), ms).p2p_message_bytes.dom().subset_of(
            recorded_all(empty_stats(), ms).p2p_message_counts.dom(),
        ),
    decreases ms.len(),
{
    let pred = |m: LogMessage| is_p2p(m);
    if ms.len() == 0 {
        let e = empty_stats();
        assert(e.event_type_counts.dom() =~= Set::empty());
        assert(e.direction_counts.dom() =~= Set::empty());
        assert(e.p2p_message_counts.dom() =~= Set::empty());
        reveal(Seq::filter);
        assert(ms.filter(pred).len() == 0);
    } else {
        let rest = ms.drop_last();
        let m = ms.last();
        law_record_totals(rest);
        let s = recorded_all(empty_stats(), rest);
        let v = recorded(s, m);
        assert(recorded_all(empty_stats(), ms) == v);
        reveal(Seq::filter);
        assert(ms.filter(pred) == (if pred(m) {
            rest.filter(pred).push(m)
        } else {
            rest.filter(pred)
        }));
        lemma_map_sum_bumped(s.event_type_counts, m.event_type.bits);
        if is_p2p(m) {
            lemma_map_sum_bumped(s.direction_counts, m.direction.bits);
            lemma_map_sum_bumped(s.p2p_message_counts, counted_type(m));
        }
    }
}

/// Opening the command line and leaving it with Esc returns to the list
/// with an empty input line, whatever was typed in between.
pub proof fn law_command_escape(v: AppView, typed: Seq<char>)
    requires
        v.mode == AppMode::Normal,
    ensures
        after_key(
            crate::app::AppView { command_input: typed, ..entered(v, AppMode::Command) },
            Key::Esc,
        ) == entered(v, AppMode::Normal),
{
}

/// Whatever a command does, it leaves the input line empty.
pub proof fn law_command_clears_input(v: AppView, c: CommandView)
    ensures
        applied(AppView { command_input: Seq::<char>::empty(), ..v }, c).command_input
            == Seq::<char>::empty(),
{
}

/// A `buffer` command never asks for fewer than 500 messages.
pub proof fn law_buffer_minimum(cmd: Seq<char>)
    ensures
        interpret(cmd) matches CommandView::Resize(n) ==> n >= MIN_BUFFER_SIZE,
{
}


/// Searching is a case-insensitive substring match: with only a text filter
/// set, a message is listed exactly when one of the search terms occurs
/// somewhere in its lowercased text.
pub proof fn law_search_is_substring(v: AppView, terms: Seq<Seq<char>>, j: int)
    requires
        v.filter_event_type.bits == 0,
        v.filter_direction.bits == 0,
        v.filter_peer_id is None,
        v.filter_conn_type is None,
        v.filter_text == Some(terms),
        0 <= j < v.messages.len(),
    ensures
        passes(v.messages[j], v) <==> exists|i: int|
            0 <= i < terms.len() && has_substring(lowercase(v.messages[j].content@), #[trigger] terms[i]),
        (exists|i: int|
            0 <= i < terms.len() && has_substring(lowercase(v.messages[j].content@), #[trigger] terms[i]))
            ==> filtered(v).contains(v.messages[j]),
{
    broadcast use vstd::seq_lib::group_filter_ensures;

    let m = v.messages[j];
    if exists|i: int|
        0 <= i < terms.len() && has_substring(lowercase(m.content@), #[trigger] terms[i]) {
        assert(passes(m, v));
        assert(v.messages.contains(m));
    }
}

/// A P2P message that carries its message type is counted under that type:
/// its count rises by one (from zero when new) and its size, when known, is
/// added to that type's byte total.
pub proof fn law_record_uses_message_type(s: StatsView, m: LogMessage, t: String)
    requires
        m.event_type.has(EventType::spec_message()),
        m.p2p_msg_type == Some(t),
    ensures
        recorded(s, m).p2p_message_counts.contains_key(t@),
        recorded(s, m).p2p_message_counts[t@] == (if s.p2p_message_counts.contains_key(t@) {
            s.p2p_message_counts[t@] + 1
        } else {
            1
        }) as usize,
        m.msg_size matches Some(z) ==> recorded(s, m).p2p_message_bytes.contains_key(t@)
            && recorded(s, m).p2p_message_bytes[t@] == (if s.p2p_message_bytes.contains_key(t@) {
            s.p2p_message_bytes[t@] + z
        } else {
            z as int
        }) as u64,
        m.msg_size is None ==> recorded(s, m).p2p_message_bytes == s.p2p_message_bytes,
{
}

/// Opening the detail view shows the message at the scroll position of the
/// listed (filtered) messages, which passes the filters and is buffered;
/// past the end of the list nothing changes.
pub proof fn law_detail_shows_listed_message(v: AppView)
    ensures
        v.scroll_offset < filtered(v).len() ==> {
            &&& detail_opened(v).mode == AppMode::Detail
            &&& detail_opened(v).selected_message == Some(filtered(v)[v.scroll_offset as int])
            &&& passes(filtered(v)[v.scroll_offset as int], v)
            &&& v.messages.contains(filtered(v)[v.scroll_offset as int])
        },
        v.scroll_offset >= filtered(v).len() ==> detail_opened(v) == v,
        v.mode == AppMode::Normal ==> after_key(v, Key::Enter) == detail_opened(v),
{
    broadcast use vstd::seq_lib::group_filter_ensures;

    if v.scroll_offset < filtered(v).len() {
        let pred = |m: LogMessage| passes(m, v);
        let x = filtered(v)[v.scroll_offset as int];
        assert(pred(x));
        assert(v.messages.filter(pred).contains(x));
        v.messages.lemma_filter_contains_rev(pred, x);
    }
}


/// Toggling one flag `k` of a set of flags held as bits, the way the filters
/// toggle it, flips that bit and leaves the others.
proof fn lemma_toggle_one_bit(a: u8, k: u8)
    requires
        k == 1 || k == 2 || k == 4 || k == 8 || k == 16,
    ensures
        a & k == k ==> a & !k == a ^ k,
        a & k != k && a == 0 ==> k == a ^ k,
        a & k != k ==> a | k == a ^ k,
{
    assert(k == 1 || k == 2 || k == 4 || k == 8 || k == 16 ==> {
        &&& (a & k == k ==> a & !k == a ^ k)
        &&& (a & k != k && a == 0 ==> k == a ^ k)
        &&& (a & k != k ==> a | k == a ^ k)
    }) by (bit_vector);
}

/// The state with the event-type filter held as `bits`.
pub open spec fn with_type_bits(v: AppView, bits: u8) -> AppView {
    AppView { filter_event_type: EventType { bits }, ..v }
}

/// The state with the direction filter held as `bits`.
pub open spec fn with_direction_bits(v: AppView, bits: u8) -> AppView {
    AppView { filter_direction: Direction { bits }, ..v }
}

/// In the list, each filter key flips its own flag and nothing else:
/// `p` P2P messages (bit 1), `c` connections (2), `a` addrman (4),
/// `m` mempool (8), `v` validation (16); `i` inbound (1), `o` outbound (2).
/// From no type filter, `v` therefore filters on validation events alone.
pub proof fn law_filter_keys(v: AppView)
    requires
        v.mode == AppMode::Normal,
    ensures
        after_key(v, Key::Char('p')) == with_type_bits(v, v.filter_event_type.bits ^ 1u8),
        after_key(v, Key::Char('c')) == with_type_bits(v, v.filter_event_type.bits ^ 2u8),
        after_key(v, Key::Char('a')) == with_type_bits(v, v.filter_event_type.bits ^ 4u8),
        after_key(v, Key::Char('m')) == with_type_bits(v, v.filter_event_type.bits ^ 8u8),
        after_key(v, Key::Char('v')) == with_type_bits(v, v.filter_event_type.bits ^ 16u8),
        after_key(v, Key::Char('i')) == with_direction_bits(v, v.filter_direction.bits ^ 1u8),
        after_key(v, Key::Char('o')) == with_direction_bits(v, v.filter_direction.bits ^ 2u8),
        v.filter_event_type.bits == 0 ==> after_key(v, Key::Char('v')).filter_event_type.bits == 16,
{
    let a = v.filter_event_type.bits;
    let d = v.filter_direction.bits;
    lemma_toggle_one_bit(a, 1);
    lemma_toggle_one_bit(a, 2);
    lemma_toggle_one_bit(a, 4);
    lemma_toggle_one_bit(a, 8);
    lemma_toggle_one_bit(a, 16);
    lemma_toggle_one_bit(d, 1);
    lemma_toggle_one_bit(d, 2);
    assert(0u8 ^ 16u8 == 16u8) by (bit_vector);
}


/// `buffer N` asks for exactly `N` messages, for every `N` a `usize` holds,
/// except that fewer than 500 are raised to 500 and `buffer 0` does nothing.
pub proof fn law_buffer_command_resizes(n: nat)
    requires
        n <= usize::MAX,
    ensures
        interpret("buffer "@ + decimal(n)) == (if n == 0 {
            CommandView::Nothing
        } else if n < 500 {
            CommandView::Resize(500usize)
        } else {
            CommandView::Resize(n as usize)
        }),
{
    reveal_strlit("buffer ");
    reveal_strlit("clear");
    let d = decimal(n);
    let cmd = "buffer "@ + d;
    lemma_decimal_parses(n);
    lemma_digits_untrimmed(d);
    assert(cmd.len() != "clear"@.len());
    assert(cmd.take(7) =~= "buffer "@);
    assert(cmd.skip(7) =~= d);
    assert('0' <= d[0] <= '9');
}

} // verus!
