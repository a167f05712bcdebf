use vstd::prelude::*;

use crate::app::{passes, passes_p2p, App};
use crate::models::{Direction, EventType};
use crate::text::{contains_text, decimal, decimal_text, owned, text_equals, to_lower};
use crate::time::{clock_text, format_timestamp, now_nanos, valid_timestamp};

verus! {

/// One observed event, as shown in the list.
#[derive(Clone, Debug)]
pub struct LogMessage {
    // Common
    pub content: String,
    pub event_type: EventType,
    /// When the event was seen, in nanoseconds since the Unix epoch.
    pub timestamp: i128,
    // P2P messages only
    pub direction: Direction,
    pub peer_id: Option<u64>,
    pub conn_type: Option<String>,
    /// Message type from the metadata (e.g. "Inv", "Version").
    pub p2p_msg_type: Option<String>,
    /// Size, when available.
    pub msg_size: Option<u64>,
}

/// The text stored for an observed non-P2P event whose own text is missing.
pub open spec fn missing_event_text(event_type: EventType) -> Seq<char> {
    if event_type == EventType::spec_connection() {
        "unknown connection event"@
    } else if event_type == EventType::spec_addrman() {
        "unknown addrman event"@
    } else if event_type == EventType::spec_mempool() {
        "unknown mempool event"@
    } else {
        "unknown validation event"@
    }
}

/// One of the four kinds of non-P2P event the observer reports.
pub open spec fn is_observed_event_kind(event_type: EventType) -> bool {
    event_type == EventType::spec_connection() || event_type == EventType::spec_addrman()
        || event_type == EventType::spec_mempool() || event_type == EventType::spec_validation()
}

/// The connection type shown for a message: its own, or `unknown`.
pub open spec fn conn_type_text(c: Option<String>) -> Seq<char> {
    match c {
        Some(s) => s@,
        None => "unknown"@,
    }
}

/// The view of an optional string.
pub open spec fn opt_text(o: Option<String>) -> Option<Seq<char>> {
    match o {
        Some(s) => Some(s@),
        None => None,
    }
}

/// The peer id shown for a message: its own, or 0.
pub open spec fn peer_id_or_zero(p: Option<u64>) -> u64 {
    match p {
        Some(v) => v,
        None => 0,
    }
}

/// The one-line text of a message, with or without the time of day in front.
pub open spec fn formatted(m: LogMessage, show_timestamp: bool) -> Seq<char> {
    let stamp = "["@ + clock_text(m.timestamp as int) + "] "@;
    if m.event_type == EventType::spec_message() {
        let body = m.event_type.spec_prefix() + m.direction.spec_arrow() + " "@
            + m.direction.spec_text() + " id="@ + decimal(peer_id_or_zero(m.peer_id) as nat)
            + " (conn_type="@ + conn_type_text(m.conn_type) + "): "@ + m.content@;
        if show_timestamp {
            stamp + body
        } else {
            body
        }
    } else {
        let body = m.event_type.spec_prefix() + " "@ + m.content@;
        if show_timestamp {
            stamp + body
        } else {
            body
        }
    }
}

fn clone_opt_string(s: &Option<String>) -> (r: Option<String>)
    ensures
        r == *s,
{
    match s {
        Some(v) => Some(v.clone()),
        None => None,
    }
}

impl LogMessage {
    /// The timestamp is one that can be formatted.
    pub open spec fn wf(&self) -> bool {
        valid_timestamp(self.timestamp as int)
    }

    /// A P2P message seen now.
    pub fn new_p2p(
        content: String,
        direction: Direction,
        peer_id: u64,
        conn_type: String,
        msg_type: Option<String>,
        msg_size: Option<u64>,
    ) -> (r: LogMessage)
        ensures
            r.wf(),
            r.content == content,
            r.event_type == EventType::spec_message(),
            r.direction == direction,
            r.peer_id == Some(peer_id),
            r.conn_type == Some(conn_type),
            r.p2p_msg_type == msg_type,
            r.msg_size == msg_size,
    {
        LogMessage::new_p2p_at(now_nanos(), content, direction, peer_id, conn_type, msg_type, msg_size)
    }

    /// A P2P message seen at the instant `timestamp` (nanoseconds since the epoch).
    pub fn new_p2p_at(
        timestamp: i128,
        content: String,
        direction: Direction,
        peer_id: u64,
        conn_type: String,
        msg_type: Option<String>,
        msg_size: Option<u64>,
    ) -> (r: LogMessage)
        requires
            valid_timestamp(timestamp as int),
        ensures
            r.wf(),
            r.timestamp == timestamp,
            r.content == content,
            r.event_type == EventType::spec_message(),
            r.direction == direction,
            r.peer_id == Some(peer_id),
            r.conn_type == Some(conn_type),
            r.p2p_msg_type == msg_type,
            r.msg_size == msg_size,
    {
        LogMessage {
            content,
            event_type: EventType::message(),
            timestamp,
            direction,
            peer_id: Some(peer_id),
            conn_type: Some(conn_type),
            p2p_msg_type: msg_type,
            msg_size,
        }
    }

    /// A non-P2P event of the given type seen now.
    pub fn new_event(content: String, event_type: EventType) -> (r: LogMessage)
        ensures
            r.wf(),
            r.content == content,
            r.event_type == event_type,
            r.direction == Direction::spec_none(),
            r.peer_id is None,
            r.conn_type is None,
            r.p2p_msg_type is None,
            r.msg_size is None,
    {
        LogMessage::new_event_at(now_nanos(), content, event_type)
    }

    /// A non-P2P event of the given type seen at the instant `timestamp`.
    pub fn new_event_at(timestamp: i128, content: String, event_type: EventType) -> (r: LogMessage)
        requires
            valid_timestamp(timestamp as int),
        ensures
            r.wf(),
            r.timestamp == timestamp,
            r.content == content,
            r.event_type == event_type,
            r.direction == Direction::spec_none(),
            r.peer_id is None,
            r.conn_type is None,
            r.p2p_msg_type is None,
            r.msg_size is None,
    {
        LogMessage {
            content,
            event_type,
            timestamp,
            direction: Direction::none(),
            peer_id: None,
            conn_type: None,
            p2p_msg_type: None,
            msg_size: None,
        }
    }

    /// The message for an observed P2P message: inbound or outbound, its
    /// text (`unknown message` when it has none), peer, connection type,
    /// command as message type, and size.
    pub fn from_p2p_observation(
        content: Option<String>,
        inbound: bool,
        peer_id: u64,
        conn_type: String,
        command: String,
        size: u64,
    ) -> (r: LogMessage)
        ensures
            r.wf(),
            r.content@ == (match content {
                Some(c) => c@,
                None => "unknown message"@,
            }),
            r.event_type == EventType::spec_message(),
            r.direction == (if inbound {
                Direction::spec_inbound()
            } else {
                Direction::spec_outbound()
            }),
            r.peer_id == Some(peer_id),
            r.conn_type == Some(conn_type),
            opt_text(r.p2p_msg_type) == Some(command@),
            r.msg_size == Some(size),
    {
        let direction = if inbound {
            Direction::inbound()
        } else {
            Direction::outbound()
        };
        let text = match content {
            Some(c) => c,
            None => owned("unknown message"),
        };
        LogMessage::new_p2p(text, direction, peer_id, conn_type, Some(command), Some(size))
    }

    /// The message for an observed non-P2P event: its text, or
    /// `unknown ... event` when it has none.
    pub fn from_event_observation(content: Option<String>, event_type: EventType) -> (r: LogMessage)
        requires
            is_observed_event_kind(event_type),
        ensures
            r.wf(),
            r.content@ == (match content {
                Some(c) => c@,
                None => missing_event_text(event_type),
            }),
            r.event_type == event_type,
            r.direction == Direction::spec_none(),
            r.peer_id is None,
            r.conn_type is None,
            r.p2p_msg_type is None,
            r.msg_size is None,
    {
        let text = match content {
            Some(c) => c,
            None => {
                if event_type == EventType::connection() {
                    owned("unknown connection event")
                } else if event_type == EventType::addrman() {
                    owned("unknown addrman event")
                } else if event_type == EventType::mempool() {
                    owned("unknown mempool event")
                } else {
                    owned("unknown validation event")
                }
            },
        };
        LogMessage::new_event(text, event_type)
    }

    /// A copy of this message.
    pub fn duplicate(&self) -> (r: LogMessage)
        ensures
            r == *self,
    {
        LogMessage {
            content: self.content.clone(),
            event_type: self.event_type,
            timestamp: self.timestamp,
            direction: self.direction,
            peer_id: self.peer_id,
            conn_type: clone_opt_string(&self.conn_type),
            p2p_msg_type: clone_opt_string(&self.p2p_msg_type),
            msg_size: self.msg_size,
        }
    }

    /// The one-line text of the message, with the UTC time of day in front when asked.
    pub fn format(&self, show_timestamp: bool) -> (r: String)
        requires
            show_timestamp ==> self.wf(),
        ensures
            r@ == formatted(*self, show_timestamp),
    {
        let mut out = String::new();
        if show_timestamp {
            out.append("[");
            let t = format_timestamp(self.timestamp, "%T.%3f");
            out.append(t.as_str());
            out.append("] ");
        }
        out.append(self.event_type.prefix());
        if self.event_type == EventType::message() {
            out.append(self.direction.arrow());
            out.append(" ");
            out.append(self.direction.text());
            out.append(" id=");
            let id = match self.peer_id {
                Some(v) => v,
                None => 0,
            };
            let id_text = decimal_text(id);
            out.append(id_text.as_str());
            out.append(" (conn_type=");
            match &self.conn_type {
                Some(c) => out.append(c.as_str()),
                None => out.append("unknown"),
            }
            out.append("): ");
        } else {
            out.append(" ");
        }
        out.append(self.content.as_str());
        out
    }

    /// Whether the P2P-only filters of `app` (direction, peer, connection
    /// type) let this message through.
    pub fn passes_p2p_filters(&self, app: &App) -> (r: bool)
        ensures
            r == passes_p2p(*self, app@),
    {
        // The following filters only apply to p2p messages
        let direction_filter = app.direction_filter();
        if direction_filter != Direction::none() && !direction_filter.intersects(self.direction) {
            return false;
        }
        if let Some(peer_id_filter) = app.peer_id_filter() {
            match self.peer_id {
                Some(p) => {
                    if p != peer_id_filter {
                        return false;
                    }
                },
                None => {
                    return false;
                },
            }
        }
        if let Some(conn_type_filter) = app.conn_type_filter() {
            match &self.conn_type {
                Some(c) => {
                    if !text_equals(c.as_str(), conn_type_filter.as_str()) {
                        return false;
                    }
                },
                None => {
                    return false;
                },
            }
        }
        true
    }

    /// Whether all filters of `app` let this message through: the event
    /// type, the search terms (any one, case-insensitively), and for P2P
    /// messages the P2P filters.
    pub fn passes_filters(&self, app: &App) -> (r: bool)
        ensures
            r == passes(*self, app@),
    {
        // Event type
        let event_type_filter = app.event_type_filter();
        if event_type_filter != EventType::none() && !event_type_filter.contains(self.event_type) {
            return false;
        }
        // Manual text search
        if let Some(search_terms) = app.text_filter() {
            let content_lower = to_lower(self.content.as_str());
            let ghost terms = crate::text::views(search_terms@);
            let mut found = false;
            let n = search_terms.len();
            for i in 0..n
                invariant
                    n == search_terms@.len(),
                    terms == crate::text::views(search_terms@),
                    content_lower@ == crate::text::lowercase(self.content@),
                    found == exists|j: int|
                        0 <= j < i && crate::text::has_substring(
                            content_lower@,
                            #[trigger] terms[j],
                        ),
            {
                if contains_text(content_lower.as_str(), search_terms[i].as_str()) {
                    found = true;
                }
                assert(terms[i as int] == search_terms@[i as int]@);
            }
            if !found {
                return false;
            }
        }
        // P2P filters
        if self.event_type.contains(EventType::message()) {
            return self.passes_p2p_filters(app);
        }
        true
    }
}

} // verus!
