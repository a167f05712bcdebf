use tui::app::App;
use tui::display::detail::lines_of;
use tui::display::stats::sort_by_count_desc;
use tui::display::{list_selection, split_prefix, Hue};
use tui::models::{AppMode, Direction, EventType, LogMessage};

fn p2p(content: &str, direction: Direction, msg_type: Option<&str>, size: Option<u64>) -> LogMessage {
    LogMessage {
        content: content.to_string(),
        event_type: EventType::message(),
        timestamp: 0,
        direction,
        peer_id: Some(5),
        conn_type: Some("feeler".to_string()),
        p2p_msg_type: msg_type.map(|s| s.to_string()),
        msg_size: size,
    }
}

fn event(content: &str, event_type: EventType) -> LogMessage {
    LogMessage {
        content: content.to_string(),
        event_type,
        timestamp: 0,
        direction: Direction::none(),
        peer_id: None,
        conn_type: None,
        p2p_msg_type: None,
        msg_size: None,
    }
}

#[test]
fn hues_follow_type_and_direction() {
    assert_eq!(p2p("x", Direction::inbound(), None, None).list_hue(), Hue::Green);
    assert_eq!(p2p("x", Direction::outbound(), None, None).list_hue(), Hue::Cyan);
    assert_eq!(p2p("x", Direction::none(), None, None).list_hue(), Hue::White);
    assert_eq!(event("x", EventType::connection()).list_hue(), Hue::Magenta);
    assert_eq!(event("x", EventType::addrman()).list_hue(), Hue::Yellow);
    assert_eq!(event("x", EventType::mempool()).list_hue(), Hue::LightBlue);
    assert_eq!(event("x", EventType::validation()).list_hue(), Hue::LightRed);
    assert_eq!(event("x", EventType::none()).list_hue(), Hue::White);
}

#[test]
fn split_after_last_bracket() {
    let (a, b) = split_prefix("[p2p]<-- from id=1 (conn_type=x): inv[2] tail");
    assert_eq!(a, "[p2p]<-- from id=1 (conn_type=x): inv[2]");
    assert_eq!(b, " tail");
    let (a, b) = split_prefix("no brackets");
    assert_eq!(a, "no brackets");
    assert_eq!(b, "");
    let (a, b) = split_prefix("[mempool]");
    assert_eq!(a, "[mempool]");
    assert_eq!(b, "");
}

#[test]
fn selection_is_clamped() {
    assert_eq!(list_selection(3, 0), None);
    assert_eq!(list_selection(3, 10), Some(3));
    assert_eq!(list_selection(30, 10), Some(9));
    assert_eq!(list_selection(0, 1), Some(0));
}

#[test]
fn title_status_and_footer() {
    let mut app = App::new();
    assert_eq!(app.title(), "Peer Observer Observer  NORMAL  [AUTOSCROLL] ");
    app.toggle_timestamps();
    app.toggle_autoscroll();
    assert_eq!(app.title(), "Peer Observer Observer  NORMAL  [TIMESTAMPS] ");
    app.push_message(event("x", EventType::mempool()));
    app.increment_total_messages();
    assert_eq!(
        app.status_line(1),
        "No filters active | 1 in filter | 1 in buffer | buffer capacity: 10000 | Total observed: 1"
    );
    assert!(app.footer().starts_with("p=p2p_msg c=connection"));
    app.set_mode(AppMode::Command);
    app.push_command_input('b');
    assert_eq!(app.footer(), ": b");
    assert_eq!(AppMode::Command.footer_hue(), Some(Hue::Yellow));
    app.set_mode(AppMode::Search);
    assert_eq!(app.footer(), "/b");
    assert_eq!(AppMode::Search.indicator(), " SEARCH ");
    assert_eq!(AppMode::Normal.indicator_hues(), (Hue::Blue, Hue::White));
    assert_eq!(AppMode::Normal.footer_hue(), None);
}

#[test]
fn lines_like_str_lines() {
    assert_eq!(lines_of(""), Vec::<String>::new());
    assert_eq!(lines_of("a\nb"), vec!["a", "b"]);
    assert_eq!(lines_of("a\r\nb\n"), vec!["a", "b"]);
    assert_eq!(lines_of("\n\nx"), vec!["", "", "x"]);
    for s in ["one\ntwo\r\n\nthree", "x\n", "\n", "no newline"] {
        let expected: Vec<String> = s.lines().map(|l| l.to_string()).collect();
        assert_eq!(lines_of(s), expected);
    }
}

#[test]
fn detail_rows_of_a_p2p_message() {
    let mut m = p2p("inv\n  hash", Direction::inbound(), Some("inv"), Some(61));
    m.timestamp = 1_000_000_000;
    let rows = m.detail_rows();
    let rows: Vec<(&str, &str)> = rows.iter().map(|(a, b)| (a.as_str(), b.as_str())).collect();
    assert_eq!(
        rows,
        vec![
            ("Message Details", ""),
            ("", ""),
            ("Timestamp: ", "1970-01-01 00:00:01.000"),
            ("Event Type: ", "EventType(MESSAGE)"),
            ("Direction: ", "Direction(INBOUND)"),
            ("Peer ID: ", "5"),
            ("Connection Type: ", "feeler"),
            ("Message Type: ", "inv"),
            ("Size: ", "61 bytes"),
            ("", ""),
            ("Content:", ""),
            ("", ""),
            ("", "inv"),
            ("", "  hash"),
        ]
    );
}

#[test]
fn detail_rows_of_an_empty_event() {
    let m = event("", EventType::mempool());
    let rows = m.detail_rows();
    assert_eq!(rows.len(), 8);
    assert_eq!(rows[3].1, "EventType(MEMPOOL)");
    assert_eq!(rows[7], (String::new(), "[Empty content]".to_string()));
}

#[test]
fn sorting_by_count() {
    let rows = vec![("a", 1), ("b", 5), ("c", 3), ("d", 5)];
    let sorted = sort_by_count_desc(rows);
    assert_eq!(sorted, vec![("b", 5), ("d", 5), ("c", 3), ("a", 1)]);
    let empty: Vec<(u8, usize)> = Vec::new();
    assert!(sort_by_count_desc(empty).is_empty());
}

#[test]
fn sizes_in_binary_units() {
    let mut app = App::new();
    assert!(app.receive_message(p2p("big", Direction::inbound(), Some("big"), Some(1536))));
    assert!(app.receive_message(p2p("kib", Direction::inbound(), Some("kib"), Some(1024))));
    assert!(app.receive_message(p2p("none", Direction::inbound(), Some("none"), Some(0))));
    let rows = app.statistics().p2p_rows();
    let text = |name: &str| rows.iter().find(|r| r.message_type == name).unwrap().size_text.clone();
    assert_eq!(text("big"), "1.50 KiB");
    assert_eq!(text("kib"), "1 KiB");
    assert_eq!(text("none"), "0 B");
    assert_eq!(
        app.stats_summary().unwrap(),
        "Total messages: 3 | Unique P2P message types: 3 | Total bytes: 2.50 KiB"
    );
}

#[test]
fn statistics_rows() {
    let mut app = App::new();
    let msgs = vec![
        p2p("inv", Direction::inbound(), Some("inv"), Some(100)),
        p2p("inv", Direction::outbound(), Some("inv"), Some(100)),
        p2p("ping", Direction::inbound(), Some("ping"), None),
        event("c", EventType::connection()),
    ];
    for m in msgs {
        assert!(app.receive_message(m));
    }
    let stats = app.statistics();
    let types = stats.event_type_rows();
    assert_eq!(types, vec![(EventType::message(), 3), (EventType::connection(), 1)]);
    assert_eq!(types[0].0.stats_label(), "P2P Message");
    assert_eq!(types[1].0.stats_hue(), Hue::Magenta);
    let dirs = stats.direction_rows();
    assert_eq!(dirs, vec![(Direction::inbound(), 2), (Direction::outbound(), 1)]);
    assert_eq!(dirs[1].0.stats_hue(), Hue::Cyan);
    assert_eq!(stats.p2p_total(), Some(3));
    assert_eq!(stats.p2p_bytes_total(), Some(200));
    let rows = stats.p2p_rows();
    assert_eq!(rows.len(), 2);
    assert_eq!(rows[0].message_type, "inv");
    assert_eq!(rows[0].count, 2);
    assert_eq!(rows[0].bytes, 200);
    assert_eq!(rows[0].size_text, "200 B");
    assert_eq!(rows[1].message_type, "ping");
    assert_eq!(rows[1].bytes, 0);
    assert_eq!(app.buffered_bytes(), Some(200));
    assert_eq!(
        app.stats_summary().unwrap(),
        "Total messages: 4 | Unique P2P message types: 2 | Total bytes: 200 B"
    );
}
