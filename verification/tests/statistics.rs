use tui::models::statistics::command_name;
use tui::models::{Direction, EventType, LogMessage, Statistics};

fn p2p(content: &str, direction: Direction, msg_type: Option<&str>, size: Option<u64>) -> LogMessage {
    LogMessage {
        content: content.to_string(),
        event_type: EventType::message(),
        timestamp: 0,
        direction,
        peer_id: Some(1),
        conn_type: Some("inbound".to_string()),
        p2p_msg_type: msg_type.map(|s| s.to_string()),
        msg_size: size,
    }
}

fn event(event_type: EventType) -> LogMessage {
    LogMessage {
        content: "e".to_string(),
        event_type,
        timestamp: 0,
        direction: Direction::none(),
        peer_id: None,
        conn_type: None,
        p2p_msg_type: None,
        msg_size: None,
    }
}

fn count(table: &[(String, usize)], key: &str) -> Option<usize> {
    table.iter().find(|(k, _)| k == key).map(|(_, v)| *v)
}

fn bytes(table: &[(String, u64)], key: &str) -> Option<u64> {
    table.iter().find(|(k, _)| k == key).map(|(_, v)| *v)
}

#[test]
fn new_statistics_are_empty() {
    let s = Statistics::new();
    assert!(s.event_type_counts.is_empty());
    assert!(s.direction_counts.is_empty());
    assert!(s.p2p_message_counts.is_empty());
    assert!(s.p2p_message_bytes.is_empty());
}

#[test]
fn record_event_counts_types_directions_and_bytes() {
    let mut s = Statistics::new();
    s.record_event(&p2p("inv(2)", Direction::inbound(), Some("inv"), Some(61)));
    s.record_event(&p2p("inv(5)", Direction::outbound(), Some("inv"), Some(100)));
    s.record_event(&p2p("ping", Direction::inbound(), Some("ping"), None));
    s.record_event(&event(EventType::mempool()));
    assert_eq!(s.event_type_counts.get(&EventType::message().bits()), Some(&3));
    assert_eq!(s.event_type_counts.get(&EventType::mempool().bits()), Some(&1));
    assert_eq!(s.direction_counts.get(&Direction::inbound().bits()), Some(&2));
    assert_eq!(s.direction_counts.get(&Direction::outbound().bits()), Some(&1));
    assert_eq!(count(&s.p2p_message_counts, "inv"), Some(2));
    assert_eq!(count(&s.p2p_message_counts, "ping"), Some(1));
    assert_eq!(bytes(&s.p2p_message_bytes, "inv"), Some(161));
    assert_eq!(bytes(&s.p2p_message_bytes, "ping"), None);
    assert_eq!(s.p2p_message_counts.len(), 2);
}

#[test]
fn record_event_falls_back_to_text_before_bracket() {
    let mut s = Statistics::new();
    s.record_event(&p2p("addr[3 entries]", Direction::inbound(), None, Some(10)));
    s.record_event(&p2p("version(70016)", Direction::inbound(), None, None));
    s.record_event(&p2p("verack", Direction::inbound(), None, None));
    assert_eq!(count(&s.p2p_message_counts, "addr"), Some(1));
    assert_eq!(count(&s.p2p_message_counts, "version"), Some(1));
    assert_eq!(count(&s.p2p_message_counts, "verack"), Some(1));
    assert_eq!(bytes(&s.p2p_message_bytes, "addr"), Some(10));
}

#[test]
fn other_events_leave_p2p_counters_alone() {
    let mut s = Statistics::new();
    s.record_event(&event(EventType::connection()));
    s.record_event(&event(EventType::connection()));
    assert_eq!(s.event_type_counts.get(&EventType::connection().bits()), Some(&2));
    assert!(s.direction_counts.is_empty());
    assert!(s.p2p_message_counts.is_empty());
}

#[test]
fn command_name_cuts_at_first_bracket() {
    assert_eq!(command_name("inv(1)[x]"), "inv");
    assert_eq!(command_name("addr[1](x)"), "addr");
    assert_eq!(command_name("ping"), "ping");
    assert_eq!(command_name("(x)"), "");
    assert_eq!(command_name(""), "");
}

#[test]
fn can_record_detects_overflow() {
    let mut s = Statistics::new();
    let m = p2p("inv", Direction::inbound(), Some("inv"), Some(5));
    assert!(s.can_record(&m));
    s.event_type_counts.insert(EventType::message().bits(), usize::MAX);
    assert!(!s.can_record(&m));
    s.event_type_counts.insert(EventType::message().bits(), 0);
    s.p2p_message_bytes.push(("inv".to_string(), u64::MAX - 4));
    assert!(!s.can_record(&m));
}

#[test]
fn totals_over_a_series_of_recordings() {
    let series = vec![
        p2p("ping()", Direction::inbound(), None, Some(8)),
        event(EventType::connection()),
        p2p("inv[2]", Direction::outbound(), Some("inv"), Some(61)),
        event(EventType::mempool()),
        p2p("ping()", Direction::outbound(), None, None),
    ];
    let mut s = Statistics::new();
    for m in &series {
        assert!(s.can_record(m));
        s.record_event(m);
    }
    let p2p_seen = series.iter().filter(|m| m.event_type.contains(EventType::message())).count();
    assert_eq!(s.event_type_counts.values().sum::<usize>(), series.len());
    assert_eq!(s.direction_counts.values().sum::<usize>(), p2p_seen);
    assert_eq!(s.p2p_message_counts.iter().map(|(_, c)| *c).sum::<usize>(), p2p_seen);
    assert!(s.event_type_counts.values().all(|c| *c > 0));
    assert!(s.direction_counts.values().all(|c| *c > 0));
    assert!(s.p2p_message_counts.iter().all(|(_, c)| *c > 0));
    for (k, _) in &s.p2p_message_bytes {
        assert!(count(&s.p2p_message_counts, k).is_some());
    }
    assert_eq!(bytes(&s.p2p_message_bytes, "ping"), Some(8));
    assert_eq!(count(&s.p2p_message_counts, "ping"), Some(2));
}
