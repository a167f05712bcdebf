use tui::models::{AppMode, Direction, EventType, LogMessage};

fn event(content: &str, event_type: EventType) -> LogMessage {
    LogMessage {
        content: content.to_string(),
        event_type,
        timestamp: 0,
        direction: Direction::none(),
        peer_id: None,
        conn_type: None,
        p2p_msg_type: None,
        msg_size: None,
    }
}

#[test]
fn direction_names() {
    assert_eq!(Direction::both().name(), "Both");
    assert_eq!(Direction::inbound().name(), "Inbound");
    assert_eq!(Direction::outbound().name(), "Outbound");
    assert_eq!(Direction::none().name(), "None");
}

#[test]
fn direction_arrows_and_text() {
    assert_eq!(Direction::inbound().arrow(), "<--");
    assert_eq!(Direction::outbound().arrow(), "-->");
    assert_eq!(Direction::none().arrow(), "---");
    assert_eq!(Direction::both().arrow(), "<--");
    assert_eq!(Direction::inbound().text(), "from");
    assert_eq!(Direction::outbound().text(), "to");
    assert_eq!(Direction::none().text(), "with");
}

#[test]
fn event_prefixes() {
    assert_eq!(EventType::message().prefix(), "[p2p]");
    assert_eq!(EventType::connection().prefix(), "[connection]");
    assert_eq!(EventType::addrman().prefix(), "[addrman]");
    assert_eq!(EventType::mempool().prefix(), "[mempool]");
    assert_eq!(EventType::validation().prefix(), "[validation]");
    assert_eq!(EventType::none().prefix(), "[unknown]");
    let mut both = EventType::message();
    both.insert(EventType::connection());
    assert_eq!(both.prefix(), "[unknown]");
}

#[test]
fn format_event_without_timestamp() {
    let m = event("peer connected", EventType::connection());
    assert_eq!(m.format(false), "[connection] peer connected");
}

#[test]
fn format_event_with_timestamp() {
    let mut m = event("x", EventType::mempool());
    m.timestamp = 3_723_456_789_000; // 01:02:03.456
    assert_eq!(m.format(true), "[01:02:03.456] [mempool] x");
}

#[test]
fn mode_is_comparable() {
    assert!(AppMode::Normal == AppMode::Normal);
    assert!(AppMode::Normal != AppMode::Detail);
}

fn p2p(content: &str, direction: Direction, peer: u64, conn: &str, msg_type: Option<&str>, size: Option<u64>) -> LogMessage {
    LogMessage {
        content: content.to_string(),
        event_type: EventType::message(),
        timestamp: 0,
        direction,
        peer_id: Some(peer),
        conn_type: Some(conn.to_string()),
        p2p_msg_type: msg_type.map(|s| s.to_string()),
        msg_size: size,
    }
}

#[test]
fn format_p2p_without_timestamp() {
    let m = p2p("inv(1)", Direction::inbound(), 7, "OutboundFullRelay", Some("inv"), Some(61));
    assert_eq!(
        m.format(false),
        "[p2p]<-- from id=7 (conn_type=OutboundFullRelay): inv(1)"
    );
}

#[test]
fn format_p2p_with_timestamp_and_missing_fields() {
    let mut m = p2p("ping", Direction::outbound(), 0, "x", None, None);
    m.peer_id = None;
    m.conn_type = None;
    m.timestamp = -1; // one nanosecond before the epoch
    assert_eq!(
        m.format(true),
        "[23:59:59.999] [p2p]--> to id=0 (conn_type=unknown): ping"
    );
}

#[test]
fn debug_text_of_flags() {
    assert_eq!(EventType::none().debug_text(), "EventType(0x0)");
    assert_eq!(EventType::message().debug_text(), "EventType(MESSAGE)");
    let mut e = EventType::addrman();
    e.insert(EventType::validation());
    assert_eq!(e.debug_text(), "EventType(ADDRMAN | VALIDATION)");
    assert_eq!(EventType::from_bits_retain(0x41).debug_text(), "EventType(MESSAGE | 0x40)");
    assert_eq!(Direction::both().debug_text(), "Direction(INBOUND | OUTBOUND)");
    assert_eq!(Direction::none().debug_text(), "Direction(0x0)");
    assert_eq!(Direction::from_bits_retain(0x12).debug_text(), "Direction(OUTBOUND | 0x10)");
}

#[test]
fn flag_operations() {
    let mut d = Direction::both();
    assert!(d.contains(Direction::inbound()));
    d.remove(Direction::inbound());
    assert_eq!(d, Direction::outbound());
    assert!(!d.intersects(Direction::inbound()));
    assert!(Direction::none().is_empty());
    assert!(EventType::none().contains(EventType::none()));
    assert_eq!(EventType::validation().bits(), 0b1_0000);
}

#[test]
fn new_p2p_and_new_event() {
    let m = LogMessage::new_p2p(
        "verack".to_string(),
        Direction::outbound(),
        3,
        "Inbound".to_string(),
        Some("verack".to_string()),
        Some(24),
    );
    assert_eq!(m.event_type, EventType::message());
    assert_eq!(m.peer_id, Some(3));
    assert_eq!(m.conn_type.as_deref(), Some("Inbound"));
    assert_eq!(m.msg_size, Some(24));
    assert!(m.timestamp > 1_600_000_000_000_000_000);
    let e = LogMessage::new_event("block".to_string(), EventType::validation());
    assert_eq!(e.direction, Direction::none());
    assert!(e.peer_id.is_none() && e.conn_type.is_none() && e.p2p_msg_type.is_none());
}

#[test]
fn observations_fill_defaults() {
    let m = LogMessage::from_p2p_observation(None, true, 9, "Feeler".to_string(), "ping".to_string(), 8);
    assert_eq!(m.content, "unknown message");
    assert_eq!(m.direction, Direction::inbound());
    assert_eq!(m.p2p_msg_type.as_deref(), Some("ping"));
    assert_eq!(m.msg_size, Some(8));
    let o = LogMessage::from_p2p_observation(Some("pong".to_string()), false, 9, "Feeler".to_string(), "pong".to_string(), 8);
    assert_eq!(o.direction, Direction::outbound());
    assert_eq!(o.content, "pong");
    let e = LogMessage::from_event_observation(None, EventType::addrman());
    assert_eq!(e.content, "unknown addrman event");
    let e = LogMessage::from_event_observation(None, EventType::connection());
    assert_eq!(e.content, "unknown connection event");
    let e = LogMessage::from_event_observation(None, EventType::mempool());
    assert_eq!(e.content, "unknown mempool event");
    let e = LogMessage::from_event_observation(Some("tip".to_string()), EventType::validation());
    assert_eq!(e.content, "tip");
}

#[test]
fn duplicate_is_equal() {
    let m = p2p("a", Direction::inbound(), 1, "c", Some("t"), Some(2));
    let d = m.duplicate();
    assert_eq!(d.content, m.content);
    assert_eq!(d.p2p_msg_type, m.p2p_msg_type);
    assert_eq!(d.timestamp, m.timestamp);
}

#[test]
fn log_message_fits_buffer_allocation_bound() {
    // The buffer capacity limit assumes messages of at most 256 bytes.
    assert!(std::mem::size_of::<LogMessage>() <= 256);
}

#[test]
fn constructors_at_a_given_instant() {
    let t: i128 = 1_700_000_000_123_456_789;
    let m = LogMessage::new_p2p_at(
        t,
        "ping()".to_string(),
        Direction::outbound(),
        4,
        "outbound-full-relay".to_string(),
        Some("ping".to_string()),
        Some(8),
    );
    assert_eq!(m.timestamp, t);
    assert_eq!(m.content, "ping()");
    assert_eq!(m.event_type, EventType::message());
    assert_eq!(m.direction, Direction::outbound());
    assert_eq!(m.peer_id, Some(4));
    assert_eq!(m.conn_type.as_deref(), Some("outbound-full-relay"));
    assert_eq!(m.p2p_msg_type.as_deref(), Some("ping"));
    assert_eq!(m.msg_size, Some(8));

    let e = LogMessage::new_event_at(-5, "added".to_string(), EventType::addrman());
    assert_eq!(e.timestamp, -5);
    assert_eq!(e.content, "added");
    assert_eq!(e.event_type, EventType::addrman());
    assert_eq!(e.direction, Direction::none());
    assert!(e.peer_id.is_none() && e.conn_type.is_none());
    assert!(e.p2p_msg_type.is_none() && e.msg_size.is_none());
}
