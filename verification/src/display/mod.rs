//! What the screens show: colours, titles, status lines and list contents,
//! computed from the viewer state. Drawing them is left to the terminal front end.
use vstd::prelude::*;

use crate::app::{filter_status, App, AppView};
use crate::models::{AppMode, Direction, EventType, LogMessage};
use crate::text::{chars_of, decimal, decimal_text_usize, owned, string_of_range};

pub mod detail;
pub mod stats;

verus! {

/// The colours the screens use.
#[derive(Clone, Copy, PartialEq, Eq, Structural, Debug)]
pub enum Hue {
    Black,
    Blue,
    Cyan,
    Green,
    LightBlue,
    LightRed,
    Magenta,
    White,
    Yellow,
}

/// The colour of a message in the list: P2P messages by direction (inbound
/// green, outbound cyan), other events by their first known type.
pub open spec fn spec_list_hue(m: LogMessage) -> Hue {
    if m.event_type.has(EventType::spec_message()) {
        if m.direction.has(Direction::spec_inbound()) {
            Hue::Green
        } else if m.direction.has(Direction::spec_outbound()) {
            Hue::Cyan
        } else {
            Hue::White
        }
    } else if m.event_type.has(EventType::spec_connection()) {
        Hue::Magenta
    } else if m.event_type.has(EventType::spec_addrman()) {
        Hue::Yellow
    } else if m.event_type.has(EventType::spec_mempool()) {
        Hue::LightBlue
    } else if m.event_type.has(EventType::spec_validation()) {
        Hue::LightRed
    } else {
        Hue::White
    }
}

/// The position of the last `]` in `s`, if any.
pub open spec fn last_bracket(s: Seq<char>) -> Option<int>
    decreases s.len(),
{
    if s.len() == 0 {
        None
    } else if s.last() == ']' {
        Some(s.len() - 1)
    } else {
        last_bracket(s.drop_last())
    }
}

/// A line split after its last `]`: the bracketed prefix and the rest.
pub open spec fn split_prefix_spec(s: Seq<char>) -> (Seq<char>, Seq<char>) {
    match last_bracket(s) {
        Some(i) => (s.take(i + 1), s.skip(i + 1)),
        None => (s, Seq::empty()),
    }
}

/// The list row to highlight: none for an empty list, else the scroll
/// position, but at most the last row (compared as `u16`).
pub open spec fn selection(scroll_offset: u16, count: nat) -> Option<nat> {
    if count == 0 {
        None
    } else {
        let max_index = ((count - 1) % 65536) as nat;
        Some(
            if scroll_offset < max_index {
                scroll_offset as nat
            } else {
                max_index
            },
        )
    }
}

/// The label of a mode in the title bar.
pub open spec fn spec_indicator(mode: AppMode) -> Seq<char> {
    match mode {
        AppMode::Normal => " NORMAL "@,
        AppMode::Command => " COMMAND "@,
        AppMode::Search => " SEARCH "@,
        AppMode::Statistics => " STATISTICS "@,
        AppMode::Detail => " DETAIL "@,
    }
}

/// The title of the message list.
pub open spec fn title_text(v: AppView) -> Seq<char> {
    "Peer Observer Observer "@ + spec_indicator(v.mode) + (if v.autoscroll {
        " [AUTOSCROLL] "@
    } else {
        Seq::empty()
    }) + (if v.show_timestamps {
        " [TIMESTAMPS] "@
    } else {
        Seq::empty()
    })
}

/// The status bar below the message list.
pub open spec fn status_text(v: AppView, filtered_count: nat) -> Seq<char> {
    filter_status(v) + " | "@ + decimal(filtered_count) + " in filter | "@ + decimal(
        v.messages.len(),
    ) + " in buffer | buffer capacity: "@ + decimal(v.max_messages as nat) + " | Total observed: "@
        + decimal(v.total_messages_observed as nat)
}

/// The key help shown in normal mode.
pub open spec fn normal_help() -> Seq<char> {
    "p=p2p_msg c=connection a=addrman m=mempool v=validation | i/o/b=P2P inbound/outbound/both | /=search | t=timestamps | r=scroll s=stats G=bottom | ENTER=view detail | :buffer N | 0=clear | q=quit"@
}

/// The bottom line of the list screen: the input line while typing, the key
/// help otherwise.
pub open spec fn footer_text(v: AppView) -> Seq<char> {
    match v.mode {
        AppMode::Command => ": "@ + v.command_input,
        AppMode::Search => "/"@ + v.command_input,
        AppMode::Normal => normal_help(),
        AppMode::Statistics => "You are in statistics mode. Press 's' to return to normal view."@,
        AppMode::Detail => "You are in detail view mode. Press Esc to return to normal view."@,
    }
}

/// The colour of the bottom line of the list screen.
pub open spec fn spec_footer_hue(mode: AppMode) -> Option<Hue> {
    match mode {
        AppMode::Command => Some(Hue::Yellow),
        AppMode::Search => Some(Hue::Green),
        _ => None,
    }
}

impl LogMessage {
    /// The colour of this message in the list.
    pub fn list_hue(&self) -> (r: Hue)
        ensures
            r == spec_list_hue(*self),
    {
        let event_type = self.event_type;
        if event_type.contains(EventType::message()) {
            // For P2P messages, color based on direction
            if self.direction.contains(Direction::inbound()) {
                Hue::Green
            } else if self.direction.contains(Direction::outbound()) {
                Hue::Cyan
            } else {
                Hue::White
            }
        } else if event_type.contains(EventType::connection()) {
            Hue::Magenta
        } else if event_type.contains(EventType::addrman()) {
            Hue::Yellow
        } else if event_type.contains(EventType::mempool()) {
            Hue::LightBlue
        } else if event_type.contains(EventType::validation()) {
            Hue::LightRed
        } else {
            Hue::White
        }
    }
}

impl AppMode {
    /// The label of this mode in the title bar.
    pub fn indicator(&self) -> (r: &'static str)
        ensures
            r@ == spec_indicator(*self),
    {
        match self {
            AppMode::Normal => " NORMAL ",
            AppMode::Command => " COMMAND ",
            AppMode::Search => " SEARCH ",
            AppMode::Statistics => " STATISTICS ",
            AppMode::Detail => " DETAIL ",
        }
    }

    /// The background and text colours of the mode label.
    pub fn indicator_hues(&self) -> (r: (Hue, Hue))
        ensures
            r == match *self {
                AppMode::Normal => (Hue::Blue, Hue::White),
                AppMode::Command => (Hue::Yellow, Hue::Black),
                AppMode::Search => (Hue::Green, Hue::Black),
                AppMode::Statistics => (Hue::Magenta, Hue::White),
                AppMode::Detail => (Hue::Cyan, Hue::Black),
            },
    {
        match self {
            AppMode::Normal => (Hue::Blue, Hue::White),
            AppMode::Command => (Hue::Yellow, Hue::Black),
            AppMode::Search => (Hue::Green, Hue::Black),
            AppMode::Statistics => (Hue::Magenta, Hue::White),
            AppMode::Detail => (Hue::Cyan, Hue::Black),
        }
    }

    /// The colour of the bottom line of the list screen, if it has one.
    pub fn footer_hue(&self) -> (r: Option<Hue>)
        ensures
            r == spec_footer_hue(*self),
    {
        match self {
            AppMode::Command => Some(Hue::Yellow),
            AppMode::Search => Some(Hue::Green),
            _ => None,
        }
    }
}

proof fn lemma_last_bracket(s: Seq<char>, i: int)
    requires
        -1 <= i < s.len(),
        forall|j: int| i < j < s.len() ==> #[trigger] s[j] != ']',
        i >= 0 ==> s[i] == ']',
    ensures
        last_bracket(s) == (if i >= 0 {
            Some(i)
        } else {
            None::<int>
        }),
    decreases s.len(),
{
    if s.len() > 0 && i < s.len() - 1 {
        let t = s.drop_last();
        assert forall|j: int| i < j < t.len() implies #[trigger] t[j] != ']' by {
            assert(t[j] == s[j]);
        }
        if i >= 0 {
            assert(t[i] == s[i]);
        }
        lemma_last_bracket(t, i);
    }
}

/// Splits a formatted line after its last `]`: the bracketed prefix (styled
/// like the event) and the rest; the whole line and nothing when there is no `]`.
pub fn split_prefix(formatted: &str) -> (r: (String, String))
    ensures
        (r.0@, r.1@) == split_prefix_spec(formatted@),
{
    let cs = chars_of(formatted);
    let n = cs.len();
    let mut i: usize = n;
    while i > 0 && cs[i - 1] != ']'
        invariant
            i <= n,
            n == cs@.len(),
            forall|j: int| i <= j < n ==> #[trigger] cs@[j] != ']',
        decreases i,
    {
        i = i - 1;
    }
    proof {
        lemma_last_bracket(cs@, i - 1);
    }
    if i > 0 {
        (string_of_range(cs.as_slice(), 0, i), string_of_range(cs.as_slice(), i, n))
    } else {
        assert(cs@.subrange(0, n as int) == cs@);
        (string_of_range(cs.as_slice(), 0, n), String::new())
    }
}

/// The list row to highlight for a scroll position and a list length.
pub fn list_selection(scroll_offset: u16, count: usize) -> (r: Option<usize>)
    ensures
        match selection(scroll_offset, count as nat) {
            Some(i) => r == Some(i as usize),
            None => r is None,
        },
{
    if count == 0 {
        None
    } else {
        // Clamp to valid range
        let max_index = ((count - 1) % 65536) as u16;
        let selected = if scroll_offset < max_index {
            scroll_offset
        } else {
            max_index
        };
        Some(selected as usize)
    }
}

impl App {
    /// The title of the message list.
    pub fn title(&self) -> (r: String)
        ensures
            r@ == title_text(self@),
    {
        let mut out = owned("Peer Observer Observer ");
        out.append(self.mode().indicator());
        if self.autoscroll() {
            out.append(" [AUTOSCROLL] ");
        }
        if self.show_timestamps() {
            out.append(" [TIMESTAMPS] ");
        }
        assert(out@ =~= title_text(self@));
        out
    }

    /// The status bar: filters, counts in the filter and the buffer, capacity
    /// and total observed.
    pub fn status_line(&self, filtered_count: usize) -> (r: String)
        requires
            self.inv(),
        ensures
            r@ == status_text(self@, filtered_count as nat),
    {
        let mut out = self.get_filter_status();
        out.append(" | ");
        out.append(decimal_text_usize(filtered_count).as_str());
        out.append(" in filter | ");
        let buffered = crate::ring::ring_len(self.messages());
        out.append(decimal_text_usize(buffered).as_str());
        out.append(" in buffer | buffer capacity: ");
        out.append(decimal_text_usize(self.max_messages()).as_str());
        out.append(" | Total observed: ");
        out.append(decimal_text_usize(self.total_messages_observed()).as_str());
        out
    }

    /// The bottom line of the list screen.
    pub fn footer(&self) -> (r: String)
        ensures
            r@ == footer_text(self@),
    {
        match self.mode() {
            AppMode::Command => {
                let mut out = owned(": ");
                out.append(self.command_input());
                out
            },
            AppMode::Search => {
                let mut out = owned("/");
                out.append(self.command_input());
                out
            },
            AppMode::Normal => owned(
                "p=p2p_msg c=connection a=addrman m=mempool v=validation | i/o/b=P2P inbound/outbound/both | /=search | t=timestamps | r=scroll s=stats G=bottom | ENTER=view detail | :buffer N | 0=clear | q=quit",
            ),
            AppMode::Statistics => owned(
                "You are in statistics mode. Press 's' to return to normal view.",
            ),
            AppMode::Detail => owned(
                "You are in detail view mode. Press Esc to return to normal view.",
            ),
        }
    }
}

} // verus!
