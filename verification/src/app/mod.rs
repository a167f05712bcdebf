use vstd::prelude::*;

use ringbuffer::AllocRingBuffer;

use crate::models::statistics::{recordable, recorded, StatsView};
use crate::models::{AppMode, Direction, EventType, LogMessage, Statistics};
use crate::ring::{
    capacity_fits, capacity_limit, pushed, ring_capacity, ring_contents, ring_get, ring_len, ring_new, ring_push,
};
use crate::text::{
    decimal, decimal_text, join, join_strings, owned, pop_char, push_char, search_terms,
    search_terms_of, views,
};

pub mod command;
pub mod keys;

use command::{interpret, parse_command, Command, CommandView};

verus! {

/// The state of the viewer, as plain values.
pub struct AppView {
    pub autoscroll: bool,
    pub command_input: Seq<char>,
    pub filter_conn_type: Option<Seq<char>>,
    pub filter_direction: Direction,
    pub filter_event_type: EventType,
    pub filter_peer_id: Option<u64>,
    pub filter_text: Option<Seq<Seq<char>>>,
    pub max_messages: usize,
    /// The buffered messages, oldest first.
    pub messages: Seq<LogMessage>,
    pub mode: AppMode,
    pub scroll_offset: u16,
    pub show_timestamps: bool,
    pub statistics: StatsView,
    pub total_messages_observed: usize,
    pub selected_message: Option<LogMessage>,
}

/// The view of an optional string.
pub open spec fn opt_view(o: Option<String>) -> Option<Seq<char>> {
    match o {
        Some(s) => Some(s@),
        None => None,
    }
}

/// The view of an optional list of strings.
pub open spec fn opt_views(o: Option<Vec<String>>) -> Option<Seq<Seq<char>>> {
    match o {
        Some(v) => Some(views(v@)),
        None => None,
    }
}

/// The P2P-only filters (direction, peer, connection type) let `m` through.
pub open spec fn passes_p2p(m: LogMessage, v: AppView) -> bool {
    &&& (v.filter_direction.bits != 0 ==> v.filter_direction.meets(m.direction))
    &&& (v.filter_peer_id matches Some(p) ==> m.peer_id == Some(p))
    &&& (v.filter_conn_type matches Some(c) ==> opt_view(m.conn_type) == Some(c))
}

/// Some search term occurs in the lowercased text of `m`.
pub open spec fn matches_terms(m: LogMessage, terms: Seq<Seq<char>>) -> bool {
    exists|i: int|
        0 <= i < terms.len() && crate::text::has_substring(
            crate::text::lowercase(m.content@),
            #[trigger] terms[i],
        )
}

/// All active filters let `m` through.
pub open spec fn passes(m: LogMessage, v: AppView) -> bool {
    &&& (v.filter_event_type.bits != 0 ==> v.filter_event_type.has(m.event_type))
    &&& (v.filter_text matches Some(terms) ==> matches_terms(m, terms))
    &&& (m.event_type.has(EventType::spec_message()) ==> passes_p2p(m, v))
}

/// The buffered messages that pass the filters, oldest first.
pub open spec fn filtered(v: AppView) -> Seq<LogMessage> {
    v.messages.filter(|m: LogMessage| passes(m, v))
}

/// The state's own constraints: the buffer is within capacity, its capacity
/// is allocatable, and every message carries a formattable timestamp.
pub open spec fn view_ok(v: AppView) -> bool {
    &&& capacity_fits(v.max_messages as nat)
    &&& v.messages.len() <= v.max_messages
    &&& forall|i: int| 0 <= i < v.messages.len() ==> (#[trigger] v.messages[i]).wf()
    &&& (v.selected_message matches Some(m) ==> m.wf())
}

/// The state after `clear_all_filters`.
pub open spec fn cleared(v: AppView) -> AppView {
    AppView {
        filter_conn_type: None,
        filter_direction: Direction::spec_none(),
        filter_event_type: EventType::spec_none(),
        filter_peer_id: None,
        filter_text: None,
        ..v
    }
}

/// The event-type filter after toggling `e`: removed when all of it is set,
/// otherwise added (replacing an empty filter).
pub open spec fn toggled_event(f: EventType, e: EventType) -> EventType {
    if f.has(e) {
        EventType { bits: f.bits & !e.bits }
    } else if f == EventType::spec_none() {
        e
    } else {
        EventType { bits: f.bits | e.bits }
    }
}

/// The direction filter after toggling `d`, in the same way.
pub open spec fn toggled_direction(f: Direction, d: Direction) -> Direction {
    if f.has(d) {
        Direction { bits: f.bits & !d.bits }
    } else if f == Direction::spec_none() {
        d
    } else {
        Direction { bits: f.bits | d.bits }
    }
}

/// The most recent `n` messages of `s`.
pub open spec fn keep_last(s: Seq<LogMessage>, n: nat) -> Seq<LogMessage> {
    if s.len() <= n {
        s
    } else {
        s.skip(s.len() - n)
    }
}

/// The state after a parsed command takes effect.
pub open spec fn applied(v: AppView, c: CommandView) -> AppView {
    match c {
        CommandView::Clear => cleared(v),
        CommandView::Resize(n) => if n != v.max_messages {
            AppView { messages: keep_last(v.messages, n as nat), max_messages: n, ..v }
        } else {
            v
        },
        CommandView::SetPeer(p) => AppView { filter_peer_id: p, ..v },
        CommandView::SetConn(c) => AppView { filter_conn_type: c, ..v },
        CommandView::Nothing => v,
    }
}

/// The command typed so far, as it is interpreted.
pub open spec fn typed_command(v: AppView) -> CommandView {
    interpret(crate::text::lowercase(crate::text::trimmed(v.command_input)))
}

/// The typed command can be carried out: a new buffer size, when it changes
/// the size, can be allocated.
pub open spec fn command_fits(v: AppView) -> bool {
    typed_command(v) matches CommandView::Resize(n) ==> (n == v.max_messages || capacity_fits(
        n as nat,
    ))
}

/// `n` as `as u16` truncates it.
pub open spec fn low16(n: int) -> int {
    n % 65536
}

/// `n` as `as i32` wraps it.
pub open spec fn wrap_i32(n: int) -> int {
    let r = n % 4294967296;
    if r >= 2147483648 {
        r - 4294967296
    } else {
        r
    }
}

/// Scrolling to the bottom does not underflow: `count as u16 - 1` is only
/// evaluated on a count that is not a positive multiple of 65536.
pub open spec fn bottom_fits(v: AppView) -> bool {
    filtered(v).len() == 0 || low16(filtered(v).len() as int) != 0
}

/// The offset of the last filtered message, as `scroll_to_bottom` sets it.
pub open spec fn bottom_offset(v: AppView) -> u16 {
    if filtered(v).len() > 0 {
        (low16(filtered(v).len() as int) - 1) as u16
    } else {
        0
    }
}

/// `x` brought into `[lo, hi]`.
pub open spec fn clamp(x: int, lo: int, hi: int) -> int {
    if x < lo {
        lo
    } else if x > hi {
        hi
    } else {
        x
    }
}

/// The state after `manual_scroll(delta)`.
pub open spec fn scrolled(v: AppView, delta: i32) -> AppView {
    if delta == 0 {
        v
    } else {
        let count = wrap_i32(filtered(v).len() as int);
        AppView {
            autoscroll: false,
            scroll_offset: if count > 0 {
                low16(clamp(v.scroll_offset + delta, 0, count - 1)) as u16
            } else {
                0
            },
            ..v
        }
    }
}

/// The search filter set from an optional search text: its terms, or no
/// filter when there is no text or no term in it.
pub open spec fn text_filter_for(o: Option<Seq<char>>) -> Option<Seq<Seq<char>>> {
    match o {
        Some(t) => if search_terms_of(t).len() == 0 {
            None
        } else {
            Some(search_terms_of(t))
        },
        None => None,
    }
}

/// Two states with the same messages and filters.
pub open spec fn same_selection(a: AppView, b: AppView) -> bool {
    &&& a.messages == b.messages
    &&& a.filter_conn_type == b.filter_conn_type
    &&& a.filter_direction == b.filter_direction
    &&& a.filter_event_type == b.filter_event_type
    &&& a.filter_peer_id == b.filter_peer_id
    &&& a.filter_text == b.filter_text
}

/// States with the same messages and filters select the same messages.
pub proof fn lemma_filtered_same(a: AppView, b: AppView)
    requires
        same_selection(a, b),
    ensures
        filtered(a) == filtered(b),
{
    assert((|m: LogMessage| passes(m, a)) =~= (|m: LogMessage| passes(m, b)));
}

/// The state after `toggle_autoscroll`.
pub open spec fn autoscroll_toggled(v: AppView) -> AppView {
    if !v.autoscroll {
        AppView { autoscroll: true, scroll_offset: bottom_offset(v), ..v }
    } else {
        AppView {
            autoscroll: false,
            scroll_offset: if filtered(v).len() > 0 {
                low16(filtered(v).len() - 1) as u16
            } else {
                v.scroll_offset
            },
            ..v
        }
    }
}

/// The state after `open_detail_view`: the filtered message at the scroll
/// position, if there is one, is selected and the detail screen opens.
pub open spec fn detail_opened(v: AppView) -> AppView {
    let f = filtered(v);
    let i = v.scroll_offset as int;
    if i < f.len() {
        AppView { selected_message: Some(f[i]), mode: AppMode::Detail, ..v }
    } else {
        v
    }
}

/// The state after a new event is counted, recorded and buffered.
pub open spec fn received(v: AppView, m: LogMessage) -> AppView {
    AppView {
        total_messages_observed: (v.total_messages_observed + 1) as usize,
        statistics: recorded(v.statistics, m),
        messages: pushed(v.messages, v.max_messages as nat, m),
        ..v
    }
}

/// The counters can take one more event without overflowing.
pub open spec fn receivable(v: AppView, m: LogMessage) -> bool {
    v.total_messages_observed < usize::MAX && recordable(v.statistics, m)
}

/// The names shown for the event types in the filter status.
pub open spec fn type_labels(bits: u8) -> Seq<Seq<char>> {
    let a: Seq<Seq<char>> = if bits & 1 != 0 { seq!["P2P"@] } else { seq![] };
    let b: Seq<Seq<char>> = if bits & 2 != 0 { a.push("Conn"@) } else { a };
    let c: Seq<Seq<char>> = if bits & 4 != 0 { b.push("Addr"@) } else { b };
    let d: Seq<Seq<char>> = if bits & 8 != 0 { c.push("Mempool"@) } else { c };
    if bits & 16 != 0 { d.push("Validation"@) } else { d }
}

/// The parts of the filter status, one per active filter.
pub open spec fn status_parts(v: AppView) -> Seq<Seq<char>> {
    let p1: Seq<Seq<char>> = if v.filter_event_type.bits != 0 {
        seq!["Type: "@ + join(type_labels(v.filter_event_type.bits), ","@)]
    } else {
        seq![]
    };
    let p2 = if v.filter_direction.bits != 0 {
        p1.push("Direction: "@ + v.filter_direction.spec_name())
    } else {
        p1
    };
    let p3 = match v.filter_peer_id {
        Some(p) => p2.push("Peer: "@ + decimal(p as nat)),
        None => p2,
    };
    let p4 = match v.filter_conn_type {
        Some(c) => p3.push("Conn: "@ + c),
        None => p3,
    };
    match v.filter_text {
        Some(terms) => p4.push(
            if terms.len() == 1 {
                "Search: '"@ + terms[0] + "'"@
            } else {
                "Search: '"@ + join(terms, "' OR '"@) + "'"@
            },
        ),
        None => p4,
    }
}

/// The one-line summary of the active filters.
pub open spec fn filter_status(v: AppView) -> Seq<char> {
    if status_parts(v).len() == 0 {
        "No filters active"@
    } else {
        join(status_parts(v), " | "@)
    }
}

/// The viewer: the buffered messages, the filters, the scroll position and
/// the current mode.
pub struct App {
    autoscroll: bool,
    command_input: String,
    filter_conn_type: Option<String>,
    filter_direction: Direction,
    filter_event_type: EventType,
    filter_peer_id: Option<u64>,
    filter_text: Option<Vec<String>>,
    max_messages: usize,
    messages: AllocRingBuffer<LogMessage>,
    mode: AppMode,
    scroll_offset: u16,
    show_timestamps: bool,
    statistics: Statistics,
    total_messages_observed: usize,
    selected_message: Option<LogMessage>,
}

impl View for App {
    type V = AppView;

    closed spec fn view(&self) -> AppView {
        AppView {
            autoscroll: self.autoscroll,
            command_input: self.command_input@,
            filter_conn_type: opt_view(self.filter_conn_type),
            filter_direction: self.filter_direction,
            filter_event_type: self.filter_event_type,
            filter_peer_id: self.filter_peer_id,
            filter_text: opt_views(self.filter_text),
            max_messages: self.max_messages,
            messages: ring_contents(self.messages),
            mode: self.mode,
            scroll_offset: self.scroll_offset,
            show_timestamps: self.show_timestamps,
            statistics: self.statistics@,
            total_messages_observed: self.total_messages_observed,
            selected_message: self.selected_message,
        }
    }
}

fn clone_opt_string(s: &Option<String>) -> (r: Option<String>)
    ensures
        r == *s,
{
    match s {
        Some(v) => Some(v.clone()),
        None => None,
    }
}

impl App {
    /// The buffer matches the recorded capacity and the statistics tables are
    /// well formed.
    pub closed spec fn internals_ok(&self) -> bool {
        &&& ring_capacity(self.messages) == self.max_messages as nat
        &&& self.statistics.wf()
    }

    /// The invariant every method keeps.
    pub open spec fn inv(&self) -> bool {
        &&& self.internals_ok()
        &&& view_ok(self@)
    }

    /// The initial state: empty buffer of 10000 messages, no filters,
    /// autoscroll on, timestamps hidden, normal mode.
    pub fn new() -> (r: App)
        ensures
            r.inv(),
            r@.autoscroll,
            r@.command_input == Seq::<char>::empty(),
            r@.filter_conn_type is None,
            r@.filter_direction == Direction::spec_none(),
            r@.filter_event_type == EventType::spec_none(),
            r@.filter_peer_id is None,
            r@.filter_text is None,
            r@.max_messages == 10000,
            r@.messages == Seq::<LogMessage>::empty(),
            r@.mode == AppMode::Normal,
            r@.scroll_offset == 0,
            !r@.show_timestamps,
            r@.statistics.event_type_counts == Map::<u8, usize>::empty(),
            r@.statistics.p2p_message_counts == Map::<Seq<char>, usize>::empty(),
            r@.statistics.direction_counts == Map::<u8, usize>::empty(),
            r@.statistics.p2p_message_bytes == Map::<Seq<char>, u64>::empty(),
            r@.total_messages_observed == 0,
            r@.selected_message is None,
    {
        let default_buffer_size: usize = 10000;
        proof {
            assert(capacity_fits(default_buffer_size as nat)) by {
                assert(isize::MAX >= 0x7fff_ffff);
            }
        }
        App {
            autoscroll: true,
            command_input: String::new(),
            filter_conn_type: None,
            filter_direction: Direction::none(),
            filter_event_type: EventType::none(),
            filter_peer_id: None,
            filter_text: None,
            max_messages: default_buffer_size,
            messages: ring_new(default_buffer_size),
            mode: AppMode::Normal,
            scroll_offset: 0,
            show_timestamps: false,
            statistics: Statistics::new(),
            total_messages_observed: 0,
            selected_message: None,
        }
    }

    // Getters
    pub fn messages(&self) -> (r: &AllocRingBuffer<LogMessage>)
        requires
            self.inv(),
        ensures
            ring_contents(*r) == self@.messages,
            ring_capacity(*r) == self@.max_messages as nat,
    {
        &self.messages
    }

    /// Adds a message to the buffer; the oldest one leaves when it is full.
    pub fn push_message(&mut self, message: LogMessage)
        requires
            old(self).inv(),
            message.wf(),
        ensures
            final(self).inv(),
            final(self)@ == (AppView {
                messages: pushed(old(self)@.messages, old(self)@.max_messages as nat, message),
                ..old(self)@
            }),
    {
        ring_push(&mut self.messages, message);
        proof {
            let s = ring_contents(self.messages);
            let o = ring_contents(old(self).messages);
            assert forall|i: int| 0 <= i < s.len() implies (#[trigger] s[i]).wf() by {
                if o.len() == old(self).max_messages {
                    if i < s.len() - 1 {
                        assert(s[i] == o[i + 1]);
                    }
                } else {
                    if i < s.len() - 1 {
                        assert(s[i] == o[i]);
                    }
                }
            }
        }
    }

    /// Takes in a newly observed event: counts it, records it in the
    /// statistics, buffers it, and with autoscroll on moves to the bottom.
    /// Returns `false`, changing nothing, when a counter would overflow; and
    /// `false`, after buffering but without scrolling, when scrolling to the
    /// bottom would underflow (see `bottom_fits`).
    pub fn receive_message(&mut self, message: LogMessage) -> (r: bool)
        requires
            old(self).inv(),
            message.wf(),
        ensures
            final(self).inv(),
            !receivable(old(self)@, message) ==> !r && final(self)@ == old(self)@,
            receivable(old(self)@, message) ==> ({
                let v1 = received(old(self)@, message);
                if v1.autoscroll && !bottom_fits(v1) {
                    !r && final(self)@ == v1
                } else if v1.autoscroll {
                    r && final(self)@ == (AppView { scroll_offset: bottom_offset(v1), ..v1 })
                } else {
                    r && final(self)@ == v1
                }
            }),
    {
        if self.total_messages_observed == usize::MAX || !self.statistics.can_record(&message) {
            return false;
        }
        self.increment_total_messages();
        // Record statistics for this message
        self.record_statistics(&message);
        self.push_message(message);
        if self.autoscroll() {
            if !self.bottom_reachable() {
                return false;
            }
            self.scroll_to_bottom();
        }
        true
    }

    pub fn mode(&self) -> (r: &AppMode)
        ensures
            *r == self@.mode,
    {
        &self.mode
    }

    pub fn command_input(&self) -> (r: &str)
        ensures
            r@ == self@.command_input,
    {
        self.command_input.as_str()
    }

    pub fn autoscroll(&self) -> (r: bool)
        ensures
            r == self@.autoscroll,
    {
        self.autoscroll
    }

    pub fn scroll_offset(&self) -> (r: u16)
        ensures
            r == self@.scroll_offset,
    {
        self.scroll_offset
    }

    pub fn max_messages(&self) -> (r: usize)
        ensures
            r == self@.max_messages,
    {
        self.max_messages
    }

    pub fn total_messages_observed(&self) -> (r: usize)
        ensures
            r == self@.total_messages_observed,
    {
        self.total_messages_observed
    }

    pub fn event_type_filter(&self) -> (r: EventType)
        ensures
            r == self@.filter_event_type,
    {
        self.filter_event_type
    }

    pub fn direction_filter(&self) -> (r: Direction)
        ensures
            r == self@.filter_direction,
    {
        self.filter_direction
    }

    pub fn peer_id_filter(&self) -> (r: Option<u64>)
        ensures
            r == self@.filter_peer_id,
    {
        self.filter_peer_id
    }

    pub fn conn_type_filter(&self) -> (r: &Option<String>)
        ensures
            opt_view(*r) == self@.filter_conn_type,
    {
        &self.filter_conn_type
    }

    pub fn text_filter(&self) -> (r: &Option<Vec<String>>)
        ensures
            opt_views(*r) == self@.filter_text,
    {
        &self.filter_text
    }

    pub fn show_timestamps(&self) -> (r: bool)
        ensures
            r == self@.show_timestamps,
    {
        self.show_timestamps
    }

    pub fn statistics(&self) -> (r: &Statistics)
        requires
            self.inv(),
        ensures
            r@ == self@.statistics,
            r.wf(),
    {
        &self.statistics
    }

    pub fn selected_message(&self) -> (r: &Option<LogMessage>)
        ensures
            *r == self@.selected_message,
    {
        &self.selected_message
    }

    /// Counts one more observed event.
    pub fn increment_total_messages(&mut self)
        requires
            old(self).inv(),
            old(self)@.total_messages_observed < usize::MAX,
        ensures
            final(self).inv(),
            final(self)@ == (AppView {
                total_messages_observed: (old(self)@.total_messages_observed + 1) as usize,
                ..old(self)@
            }),
    {
        self.total_messages_observed += 1;
    }

    /// Adds `message` to the statistics.
    pub fn record_statistics(&mut self, message: &LogMessage)
        requires
            old(self).inv(),
            recordable(old(self)@.statistics, *message),
        ensures
            final(self).inv(),
            final(self)@ == (AppView {
                statistics: recorded(old(self)@.statistics, *message),
                ..old(self)@
            }),
    {
        self.statistics.record_event(message);
    }

    /// Switches between the statistics screen and the normal list.
    pub fn toggle_statistics_mode(&mut self)
        requires
            old(self).inv(),
        ensures
            final(self).inv(),
            final(self)@ == (AppView {
                mode: if old(self)@.mode == AppMode::Statistics {
                    AppMode::Normal
                } else {
                    AppMode::Statistics
                },
                ..old(self)@
            }),
    {
        if self.mode == AppMode::Statistics {
            self.mode = AppMode::Normal;
        } else {
            self.mode = AppMode::Statistics;
        }
    }

    /// Opens the message at the scroll position, if there is one, in the detail screen.
    pub fn open_detail_view(&mut self)
        requires
            old(self).inv(),
        ensures
            final(self).inv(),
            final(self)@ == detail_opened(old(self)@),
    {
        let filtered_messages = self.filtered_messages();
        if filtered_messages.len() > 0 {
            let selected_idx = self.scroll_offset as usize;
            if selected_idx < filtered_messages.len() {
                let m = filtered_messages[selected_idx].duplicate();
                proof {
                    lemma_filtered_wf(self@, selected_idx as int);
                }
                self.selected_message = Some(m);
                self.mode = AppMode::Detail;
            }
        }
    }

    /// Back to the normal list.
    pub fn close_detail_view(&mut self)
        requires
            old(self).inv(),
        ensures
            final(self).inv(),
            final(self)@ == (AppView { mode: AppMode::Normal, ..old(self)@ }),
    {
        self.mode = AppMode::Normal;
    }

    /// Shows or hides the time of day in front of each message.
    pub fn toggle_timestamps(&mut self)
        requires
            old(self).inv(),
        ensures
            final(self).inv(),
            final(self)@ == (AppView {
                show_timestamps: !old(self)@.show_timestamps,
                ..old(self)@
            }),
    {
        self.show_timestamps = !self.show_timestamps;
    }

    /// Removes `event_type` from the type filter when it is fully set,
    /// otherwise adds it.
    pub fn toggle_event_type_filter(&mut self, event_type: EventType)
        requires
            old(self).inv(),
        ensures
            final(self).inv(),
            final(self)@ == (AppView {
                filter_event_type: toggled_event(old(self)@.filter_event_type, event_type),
                ..old(self)@
            }),
    {
        if self.filter_event_type.contains(event_type) {
            self.filter_event_type.remove(event_type);
            // If no flags remain, set to NONE
            if self.filter_event_type.is_empty() {
                self.filter_event_type = EventType::none();
            }
        } else {
            // If NONE, replace instead of adding (this is first filter)
            if self.filter_event_type == EventType::none() {
                self.filter_event_type = event_type;
            } else {
                self.filter_event_type.insert(event_type);
            }
        }
    }

    /// Removes `direction` from the direction filter when it is fully set,
    /// otherwise adds it.
    pub fn toggle_direction_filter(&mut self, direction: Direction)
        requires
            old(self).inv(),
        ensures
            final(self).inv(),
            final(self)@ == (AppView {
                filter_direction: toggled_direction(old(self)@.filter_direction, direction),
                ..old(self)@
            }),
    {
        if self.filter_direction.contains(direction) {
            self.filter_direction.remove(direction);
            // If no flags remain, set to NONE
            if self.filter_direction.is_empty() {
                self.filter_direction = Direction::none();
            }
        } else {
            // If NONE, replace instead of adding (this is first filter)
            if self.filter_direction == Direction::none() {
                self.filter_direction = direction;
            } else {
                self.filter_direction.insert(direction);
            }
        }
    }

    pub fn set_direction_filter(&mut self, direction: Direction)
        requires
            old(self).inv(),
        ensures
            final(self).inv(),
            final(self)@ == (AppView { filter_direction: direction, ..old(self)@ }),
    {
        self.filter_direction = direction;
    }

    /// Removes every filter.
    pub fn clear_all_filters(&mut self)
        requires
            old(self).inv(),
        ensures
            final(self).inv(),
            final(self)@ == cleared(old(self)@),
    {
        self.filter_conn_type = None;
        self.filter_direction = Direction::none();
        self.filter_event_type = EventType::none();
        self.filter_peer_id = None;
        self.filter_text = None;
    }

    pub fn set_peer_id_filter(&mut self, peer_id: Option<u64>)
        requires
            old(self).inv(),
        ensures
            final(self).inv(),
            final(self)@ == (AppView { filter_peer_id: peer_id, ..old(self)@ }),
    {
        self.filter_peer_id = peer_id;
    }

    pub fn set_conn_type_filter(&mut self, conn_type: Option<String>)
        requires
            old(self).inv(),
        ensures
            final(self).inv(),
            final(self)@ == (AppView { filter_conn_type: opt_view(conn_type), ..old(self)@ }),
    {
        self.filter_conn_type = conn_type;
    }

    pub fn set_mode(&mut self, mode: AppMode)
        requires
            old(self).inv(),
        ensures
            final(self).inv(),
            final(self)@ == (AppView { mode, ..old(self)@ }),
    {
        self.mode = mode;
    }

    pub fn push_command_input(&mut self, c: char)
        requires
            old(self).inv(),
        ensures
            final(self).inv(),
            final(self)@ == (AppView {
                command_input: old(self)@.command_input.push(c),
                ..old(self)@
            }),
    {
        push_char(&mut self.command_input, c);
    }

    /// Removes the last typed character, if any.
    pub fn pop_command_input(&mut self)
        requires
            old(self).inv(),
        ensures
            final(self).inv(),
            final(self)@ == (AppView {
                command_input: if old(self)@.command_input.len() > 0 {
                    old(self)@.command_input.drop_last()
                } else {
                    old(self)@.command_input
                },
                ..old(self)@
            }),
    {
        pop_char(&mut self.command_input);
    }

    pub fn clear_command_input(&mut self)
        requires
            old(self).inv(),
        ensures
            final(self).inv(),
            final(self)@ == (AppView { command_input: Seq::<char>::empty(), ..old(self)@ }),
    {
        self.command_input = String::new();
    }

    /// The buffered messages that pass the filters, oldest first.
    pub fn filtered_messages(&self) -> (r: Vec<&LogMessage>)
        requires
            self.inv(),
        ensures
            r@.unref() == filtered(self@),
    {
        let ghost v = self@;
        let ghost pred = |m: LogMessage| passes(m, v);
        let mut out: Vec<&LogMessage> = Vec::new();
        let n = ring_len(&self.messages);
        for i in 0..n
            invariant
                v == self@,
                n == v.messages.len(),
                pred == (|m: LogMessage| passes(m, v)),
                out@.unref() == v.messages.take(i as int).filter(pred),
        {
            proof {
                reveal_with_fuel(Seq::<_>::filter, 1);
            }
            proof {
                vstd::arithmetic::div_mod::lemma_small_mod(i as nat, n as nat);
            }
            match ring_get(&self.messages, i) {
                Some(m) => {
                    assert(*m == v.messages[i as int]);
                    let keep = m.passes_filters(self);
                    if keep {
                        out.push(m);
                    }
                    assert(v.messages.take(i + 1).drop_last() == v.messages.take(i as int));
                    assert(out@.unref() =~= v.messages.take(i + 1).filter(pred));
                },
                None => {},
            }
        }
        assert(v.messages.take(n as int) == v.messages);
        out
    }

    /// Sets the search filter from `filter` (split at commas and spaces,
    /// lowercased; no filter when no term remains) and scrolls to the top.
    pub fn set_text_filter(&mut self, filter: Option<String>)
        requires
            old(self).inv(),
        ensures
            final(self).inv(),
            final(self)@ == (AppView {
                filter_text: text_filter_for(opt_view(filter)),
                scroll_offset: 0,
                ..old(self)@
            }),
    {
        if let Some(search_text) = filter {
            // Split by commas or spaces
            let terms = search_terms(search_text.as_str());
            if terms.len() == 0 {
                self.filter_text = None;
            } else {
                self.filter_text = Some(terms);
            }
        } else {
            self.filter_text = None;
        }
        // Reset to top after changing filter
        self.scroll_offset = 0;
    }

    /// Replaces the buffer by one of capacity `new_size` that holds the most
    /// recent messages that fit.
    fn resize_buffer(&mut self, new_size: usize)
        requires
            old(self).inv(),
            capacity_fits(new_size as nat),
        ensures
            final(self).inv(),
            final(self)@ == (AppView {
                messages: keep_last(old(self)@.messages, new_size as nat),
                max_messages: new_size,
                ..old(self)@
            }),
    {
        let ghost old_msgs = self@.messages;
        let mut new_buffer = ring_new(new_size);
        let len = ring_len(&self.messages);
        let msg_count = if len < new_size {
            len
        } else {
            new_size
        };
        let start_idx = len - msg_count;
        for i in 0..msg_count
            invariant
                old_msgs == self@.messages,
                len == old_msgs.len(),
                msg_count <= new_size,
                start_idx + msg_count == len,
                ring_capacity(new_buffer) == new_size as nat,
                ring_contents(new_buffer) == old_msgs.subrange(
                    start_idx as int,
                    start_idx + i,
                ),
        {
            proof {
                vstd::arithmetic::div_mod::lemma_small_mod((start_idx + i) as nat, len as nat);
            }
            if let Some(msg) = ring_get(&self.messages, start_idx + i) {
                let copy = msg.duplicate();
                ring_push(&mut new_buffer, copy);
                assert(ring_contents(new_buffer) =~= old_msgs.subrange(
                    start_idx as int,
                    start_idx + i + 1,
                ));
            }
        }
        proof {
            let k = keep_last(old_msgs, new_size as nat);
            assert(k =~= old_msgs.subrange(start_idx as int, len as int));
            let s = ring_contents(new_buffer);
            assert forall|j: int| 0 <= j < s.len() implies (#[trigger] s[j]).wf() by {
                assert(s[j] == old_msgs[start_idx + j]);
            }
        }
        self.messages = new_buffer;
        self.max_messages = new_size;
    }

    /// Carries out the typed command (see `interpret`) and empties the input.
    pub fn process_command(&mut self)
        requires
            old(self).inv(),
            command_fits(old(self)@),
        ensures
            final(self).inv(),
            final(self)@ == applied(
                AppView { command_input: Seq::<char>::empty(), ..old(self)@ },
                typed_command(old(self)@),
            ),
    {
        let cmd = parse_command(self.command_input.as_str());
        // Reset the command input
        self.command_input = String::new();
        match cmd {
            Command::Clear => {
                self.clear_all_filters();
            },
            Command::Resize(new_size) => {
                // Only resize if the size actually changed
                if new_size != self.max_messages {
                    self.resize_buffer(new_size);
                }
            },
            Command::SetPeer(peer_id) => {
                self.set_peer_id_filter(peer_id);
            },
            Command::SetConn(conn_type) => {
                self.set_conn_type_filter(conn_type);
            },
            Command::Nothing => {},
        }
    }

    /// Whether scrolling to the bottom can be done (`bottom_fits`).
    pub fn bottom_reachable(&self) -> (r: bool)
        requires
            self.inv(),
        ensures
            r == bottom_fits(self@),
    {
        let n = self.filtered_messages().len();
        n == 0 || n % 65536 != 0
    }

    /// Whether the typed command can be carried out (`command_fits`).
    pub fn command_allowed(&self) -> (r: bool)
        requires
            self.inv(),
        ensures
            r == command_fits(self@),
    {
        match parse_command(self.command_input.as_str()) {
            Command::Resize(n) => n == self.max_messages || n <= capacity_limit(),
            _ => true,
        }
    }

    /// Moves the scroll position to the last filtered message (or the top
    /// when none passes).
    pub fn scroll_to_bottom(&mut self)
        requires
            old(self).inv(),
            bottom_fits(old(self)@),
        ensures
            final(self).inv(),
            final(self)@ == (AppView { scroll_offset: bottom_offset(old(self)@), ..old(self)@ }),
    {
        let filtered_count = self.filtered_messages().len();
        if filtered_count > 0 {
            self.scroll_offset = ((filtered_count % 65536) as u16) - 1;
        } else {
            self.scroll_offset = 0;
        }
    }

    /// Switches autoscroll; switching it on goes to the bottom, switching it
    /// off keeps the position at the last filtered message.
    pub fn toggle_autoscroll(&mut self)
        requires
            old(self).inv(),
            !old(self)@.autoscroll ==> bottom_fits(old(self)@),
        ensures
            final(self).inv(),
            final(self)@ == autoscroll_toggled(old(self)@),
    {
        let ghost v = self@;
        self.autoscroll = !self.autoscroll;
        proof {
            lemma_filtered_same(v, self@);
        }
        if self.autoscroll {
            // When enabling autoscroll, immediately go to bottom
            self.scroll_to_bottom();
        } else {
            // When disabling autoscroll, keep the current position
            let filtered_count = self.filtered_messages().len();
            if filtered_count > 0 {
                self.scroll_offset = ((filtered_count - 1) % 65536) as u16;
            }
        }
    }

    /// Scrolls by `delta` within the filtered messages and turns autoscroll off
    /// (nothing happens for a zero `delta`).
    pub fn manual_scroll(&mut self, delta: i32)
        requires
            old(self).inv(),
            old(self)@.scroll_offset + delta <= i32::MAX,
        ensures
            final(self).inv(),
            final(self)@ == scrolled(old(self)@, delta),
    {
        if delta != 0 {
            let ghost v = self@;
            // Any manual scrolling disables autoscroll
            self.autoscroll = false;
            proof {
                lemma_filtered_same(v, self@);
            }
            let count = self.filtered_messages().len();
            let low: u64 = (count as u64) % 4294967296;
            let filtered_count: i32 = if low >= 2147483648 {
                (low as i64 - 4294967296) as i32
            } else {
                low as i32
            };
            if filtered_count > 0 {
                // Calculate new position
                let new_pos = self.scroll_offset as i32 + delta;
                let clamped = if new_pos < 0 {
                    0
                } else if new_pos > filtered_count - 1 {
                    filtered_count - 1
                } else {
                    new_pos
                };
                self.scroll_offset = (clamped % 65536) as u16;
            } else {
                self.scroll_offset = 0;
            }
        }
    }

    /// The filter status line: the active filters joined by ` | `, or
    /// `No filters active`.
    pub fn get_filter_status(&self) -> (r: String)
        ensures
            r@ == filter_status(self@),
    {
        let mut filter_parts: Vec<String> = Vec::new();

        // Event type
        if self.filter_event_type != EventType::none() {
            let mut types: Vec<String> = Vec::new();
            if self.filter_event_type.contains(EventType::message()) {
                types.push(owned("P2P"));
            }
            if self.filter_event_type.contains(EventType::connection()) {
                types.push(owned("Conn"));
            }
            if self.filter_event_type.contains(EventType::addrman()) {
                types.push(owned("Addr"));
            }
            if self.filter_event_type.contains(EventType::mempool()) {
                types.push(owned("Mempool"));
            }
            if self.filter_event_type.contains(EventType::validation()) {
                types.push(owned("Validation"));
            }
            let bits = self.filter_event_type.bits;
            proof {
                assert((bits & 1 == 1) == (bits & 1 != 0)) by (bit_vector);
                assert((bits & 2 == 2) == (bits & 2 != 0)) by (bit_vector);
                assert((bits & 4 == 4) == (bits & 4 != 0)) by (bit_vector);
                assert((bits & 8 == 8) == (bits & 8 != 0)) by (bit_vector);
                assert((bits & 16 == 16) == (bits & 16 != 0)) by (bit_vector);
            }
            assert(views(types@) =~= type_labels(bits));
            let mut part = owned("Type: ");
            let joined = join_strings(&types, ",");
            part.append(joined.as_str());
            filter_parts.push(part);
        }
        let ghost p1 = views(filter_parts@);
        // Direction
        if self.filter_direction != Direction::none() {
            let mut part = owned("Direction: ");
            part.append(self.filter_direction.name());
            filter_parts.push(part);
        }
        let ghost p2 = views(filter_parts@);
        assert(p2 == (if self.filter_direction.bits != 0 {
            p1.push("Direction: "@ + self.filter_direction.spec_name())
        } else {
            p1
        }));
        // Peer ID
        if let Some(peer_id) = self.filter_peer_id {
            let mut part = owned("Peer: ");
            let id = decimal_text(peer_id);
            part.append(id.as_str());
            filter_parts.push(part);
        }
        let ghost p3 = views(filter_parts@);
        assert(p3 == match self@.filter_peer_id {
            Some(p) => p2.push("Peer: "@ + decimal(p as nat)),
            None => p2,
        });
        // Connection type
        if let Some(conn_type) = &self.filter_conn_type {
            let mut part = owned("Conn: ");
            part.append(conn_type.as_str());
            filter_parts.push(part);
        }
        let ghost p4 = views(filter_parts@);
        assert(p4 == match self@.filter_conn_type {
            Some(c) => p3.push("Conn: "@ + c),
            None => p3,
        });
        // Text search filter
        if let Some(terms) = &self.filter_text {
            let mut part = owned("Search: '");
            if terms.len() == 1 {
                part.append(terms[0].as_str());
            } else {
                let joined = join_strings(terms, "' OR '");
                part.append(joined.as_str());
            }
            part.append("'");
            filter_parts.push(part);
        }
        assert(views(filter_parts@) =~= status_parts(self@));
        if filter_parts.len() == 0 {
            owned("No filters active")
        } else {
            join_strings(&filter_parts, " | ")
        }
    }
}

proof fn lemma_filtered_wf(v: AppView, i: int)
    requires
        view_ok(v),
        0 <= i < filtered(v).len(),
    ensures
        filtered(v)[i].wf(),
{
    let pred = |m: LogMessage| passes(m, v);
    let f = v.messages.filter(pred);
    assert(f.contains(f[i]));
    v.messages.lemma_filter_contains_rev(pred, f[i]);
    let j = choose|j: int| 0 <= j < v.messages.len() && v.messages[j] == f[i];
    assert(v.messages[j].wf());
}

} // verus!
