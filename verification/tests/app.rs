use tui::app::keys::{Key, KeyOutcome};
use tui::app::App;
use tui::models::{AppMode, Direction, EventType, LogMessage};

fn event(content: &str, event_type: EventType) -> LogMessage {
    LogMessage {
        content: content.to_string(),
        event_type,
        timestamp: 0,
        direction: Direction::none(),
        peer_id: None,
        conn_type: None,
        p2p_msg_type: None,
        msg_size: None,
    }
}

fn p2p(content: &str, direction: Direction, peer: u64, conn: &str) -> LogMessage {
    LogMessage {
        content: content.to_string(),
        event_type: EventType::message(),
        timestamp: 0,
        direction,
        peer_id: Some(peer),
        conn_type: Some(conn.to_string()),
        p2p_msg_type: None,
        msg_size: None,
    }
}

fn contents(app: &App) -> Vec<String> {
    app.filtered_messages().iter().map(|m| m.content.clone()).collect()
}

fn type_command(app: &mut App, text: &str) {
    app.clear_command_input();
    for c in text.chars() {
        app.push_command_input(c);
    }
}

#[test]
fn new_app_defaults() {
    let app = App::new();
    assert!(app.autoscroll());
    assert_eq!(app.command_input(), "");
    assert_eq!(app.max_messages(), 10000);
    assert_eq!(app.scroll_offset(), 0);
    assert!(!app.show_timestamps());
    assert_eq!(app.total_messages_observed(), 0);
    assert_eq!(app.event_type_filter(), EventType::none());
    assert_eq!(app.direction_filter(), Direction::none());
    assert_eq!(app.peer_id_filter(), None);
    assert!(app.conn_type_filter().is_none());
    assert!(app.text_filter().is_none());
    assert!(app.selected_message().is_none());
    assert!(*app.mode() == AppMode::Normal);
    assert_eq!(app.get_filter_status(), "No filters active");
}

#[test]
fn event_type_filter_toggles() {
    let mut app = App::new();
    app.push_message(event("a", EventType::connection()));
    app.push_message(event("b", EventType::mempool()));
    app.push_message(event("c", EventType::addrman()));
    app.toggle_event_type_filter(EventType::connection());
    assert_eq!(contents(&app), vec!["a"]);
    app.toggle_event_type_filter(EventType::mempool());
    assert_eq!(contents(&app), vec!["a", "b"]);
    assert_eq!(app.get_filter_status(), "Type: Conn,Mempool");
    app.toggle_event_type_filter(EventType::mempool());
    app.toggle_event_type_filter(EventType::connection());
    assert_eq!(app.event_type_filter(), EventType::none());
    assert_eq!(contents(&app), vec!["a", "b", "c"]);
}

#[test]
fn direction_filter_only_hides_p2p() {
    let mut app = App::new();
    app.push_message(p2p("in", Direction::inbound(), 1, "x"));
    app.push_message(p2p("out", Direction::outbound(), 2, "y"));
    app.push_message(event("conn", EventType::connection()));
    app.toggle_direction_filter(Direction::inbound());
    assert_eq!(contents(&app), vec!["in", "conn"]);
    assert_eq!(app.get_filter_status(), "Direction: Inbound");
    app.toggle_direction_filter(Direction::outbound());
    assert_eq!(app.direction_filter(), Direction::both());
    assert_eq!(contents(&app), vec!["in", "out", "conn"]);
    app.set_direction_filter(Direction::outbound());
    assert_eq!(contents(&app), vec!["out", "conn"]);
}

#[test]
fn peer_and_conn_filters() {
    let mut app = App::new();
    app.push_message(p2p("one", Direction::inbound(), 1, "feeler"));
    app.push_message(p2p("two", Direction::inbound(), 2, "inbound"));
    app.set_peer_id_filter(Some(2));
    assert_eq!(contents(&app), vec!["two"]);
    app.set_peer_id_filter(None);
    app.set_conn_type_filter(Some("feeler".to_string()));
    assert_eq!(contents(&app), vec!["one"]);
    assert_eq!(app.get_filter_status(), "Conn: feeler");
    app.clear_all_filters();
    assert_eq!(contents(&app), vec!["one", "two"]);
}

#[test]
fn text_filter_matches_any_term_case_insensitively() {
    let mut app = App::new();
    app.push_message(event("Block Connected", EventType::validation()));
    app.push_message(event("tx added", EventType::mempool()));
    app.push_message(event("other", EventType::addrman()));
    app.manual_scroll(2);
    app.set_text_filter(Some("BLOCK, tx".to_string()));
    assert_eq!(app.scroll_offset(), 0);
    assert_eq!(
        app.text_filter().as_ref().unwrap(),
        &vec!["block".to_string(), "tx".to_string()]
    );
    assert_eq!(contents(&app), vec!["Block Connected", "tx added"]);
    assert_eq!(app.get_filter_status(), "Search: 'block' OR 'tx'");
    app.set_text_filter(Some(" ,, ".to_string()));
    assert!(app.text_filter().is_none());
    app.set_text_filter(Some("other".to_string()));
    assert_eq!(app.get_filter_status(), "Search: 'other'");
    app.set_text_filter(None);
    assert!(app.text_filter().is_none());
}

#[test]
fn filter_status_lists_all_filters() {
    let mut app = App::new();
    app.toggle_event_type_filter(EventType::message());
    app.toggle_event_type_filter(EventType::validation());
    app.set_direction_filter(Direction::both());
    app.set_peer_id_filter(Some(42));
    app.set_conn_type_filter(Some("inbound".to_string()));
    assert_eq!(
        app.get_filter_status(),
        "Type: P2P,Validation | Direction: Both | Peer: 42 | Conn: inbound"
    );
}

#[test]
fn commands_set_and_clear_filters() {
    let mut app = App::new();
    type_command(&mut app, "  PEER 17 ");
    app.process_command();
    assert_eq!(app.peer_id_filter(), Some(17));
    assert_eq!(app.command_input(), "");
    type_command(&mut app, "peer none");
    app.process_command();
    assert_eq!(app.peer_id_filter(), None);
    type_command(&mut app, "peer abc");
    app.process_command();
    assert_eq!(app.peer_id_filter(), None);
    type_command(&mut app, "conn Feeler");
    app.process_command();
    assert_eq!(app.conn_type_filter().as_deref(), Some("feeler"));
    type_command(&mut app, "conn none");
    app.process_command();
    assert!(app.conn_type_filter().is_none());
    app.set_peer_id_filter(Some(3));
    type_command(&mut app, "clear");
    app.process_command();
    assert_eq!(app.peer_id_filter(), None);
    type_command(&mut app, "unknown thing");
    app.process_command();
    assert_eq!(app.get_filter_status(), "No filters active");
}

#[test]
fn buffer_command_resizes_keeping_recent_messages() {
    let mut app = App::new();
    for i in 0..600 {
        app.push_message(event(&format!("m{}", i), EventType::mempool()));
    }
    type_command(&mut app, "buffer 10");
    app.process_command();
    assert_eq!(app.max_messages(), 500);
    let all = contents(&app);
    assert_eq!(all.len(), 500);
    assert_eq!(all[0], "m100");
    assert_eq!(all[499], "m599");
    type_command(&mut app, "buffer 0");
    app.process_command();
    assert_eq!(app.max_messages(), 500);
    type_command(&mut app, "buffer +700");
    app.process_command();
    assert_eq!(app.max_messages(), 700);
    assert_eq!(contents(&app).len(), 500);
    type_command(&mut app, "buffer x");
    app.process_command();
    assert_eq!(app.max_messages(), 700);
}

#[test]
fn buffer_drops_oldest_when_full() {
    let mut app = App::new();
    type_command(&mut app, "buffer 500");
    app.process_command();
    for i in 0..502 {
        app.push_message(event(&format!("m{}", i), EventType::mempool()));
    }
    let all = contents(&app);
    assert_eq!(all.len(), 500);
    assert_eq!(all[0], "m2");
}

#[test]
fn scrolling_stays_within_list() {
    let mut app = App::new();
    for i in 0..5 {
        app.push_message(event(&format!("m{}", i), EventType::mempool()));
    }
    app.scroll_to_bottom();
    assert_eq!(app.scroll_offset(), 4);
    app.manual_scroll(10);
    assert_eq!(app.scroll_offset(), 4);
    assert!(!app.autoscroll());
    app.manual_scroll(-2);
    assert_eq!(app.scroll_offset(), 2);
    app.manual_scroll(-10);
    assert_eq!(app.scroll_offset(), 0);
    app.manual_scroll(0);
    assert_eq!(app.scroll_offset(), 0);
    app.toggle_autoscroll();
    assert!(app.autoscroll());
    assert_eq!(app.scroll_offset(), 4);
    app.toggle_autoscroll();
    assert!(!app.autoscroll());
    assert_eq!(app.scroll_offset(), 4);
}

#[test]
fn scrolling_an_empty_list() {
    let mut app = App::new();
    app.manual_scroll(3);
    assert_eq!(app.scroll_offset(), 0);
    app.scroll_to_bottom();
    assert_eq!(app.scroll_offset(), 0);
}

#[test]
fn detail_view_opens_selected_message() {
    let mut app = App::new();
    app.open_detail_view();
    assert!(*app.mode() == AppMode::Normal);
    app.push_message(event("first", EventType::mempool()));
    app.push_message(event("second", EventType::mempool()));
    app.manual_scroll(1);
    app.open_detail_view();
    assert!(*app.mode() == AppMode::Detail);
    assert_eq!(app.selected_message().as_ref().unwrap().content, "second");
    app.close_detail_view();
    assert!(*app.mode() == AppMode::Normal);
}

#[test]
fn toggles_flip_back() {
    let mut app = App::new();
    app.toggle_timestamps();
    assert!(app.show_timestamps());
    app.toggle_timestamps();
    assert!(!app.show_timestamps());
    app.toggle_statistics_mode();
    assert!(*app.mode() == AppMode::Statistics);
    app.toggle_statistics_mode();
    assert!(*app.mode() == AppMode::Normal);
}

#[test]
fn command_input_editing() {
    let mut app = App::new();
    app.push_command_input('a');
    app.push_command_input('b');
    app.pop_command_input();
    assert_eq!(app.command_input(), "a");
    app.pop_command_input();
    app.pop_command_input();
    assert_eq!(app.command_input(), "");
    app.set_mode(AppMode::Search);
    assert!(*app.mode() == AppMode::Search);
}

#[test]
fn keys_drive_the_modes() {
    let mut app = App::new();
    app.push_message(p2p("in", Direction::inbound(), 1, "x"));
    app.push_message(p2p("out", Direction::outbound(), 2, "y"));
    assert_eq!(app.handle_key(Key::Char('i')), KeyOutcome::Continue);
    assert_eq!(contents(&app), vec!["in"]);
    app.handle_key(Key::Char('b'));
    assert_eq!(app.direction_filter(), Direction::both());
    app.handle_key(Key::Char('b'));
    assert_eq!(app.direction_filter(), Direction::none());
    app.handle_key(Key::Char(':'));
    assert!(*app.mode() == AppMode::Command);
    for c in "peer 2".chars() {
        app.handle_key(Key::Char(c));
    }
    app.handle_key(Key::Enter);
    assert!(*app.mode() == AppMode::Normal);
    assert_eq!(app.peer_id_filter(), Some(2));
    app.handle_key(Key::Char('0'));
    app.handle_key(Key::Char('/'));
    for c in "OUT".chars() {
        app.handle_key(Key::Char(c));
    }
    app.handle_key(Key::Backspace);
    app.handle_key(Key::Char('T'));
    app.handle_key(Key::Enter);
    assert_eq!(contents(&app), vec!["out"]);
    app.handle_key(Key::Char('/'));
    app.handle_key(Key::Esc);
    assert!(app.text_filter().is_none());
    app.handle_key(Key::Char('s'));
    assert!(*app.mode() == AppMode::Statistics);
    assert_eq!(app.handle_key(Key::Char('q')), KeyOutcome::Continue);
    assert!(*app.mode() == AppMode::Normal);
    app.handle_key(Key::Home);
    app.handle_key(Key::Enter);
    assert!(*app.mode() == AppMode::Detail);
    app.handle_key(Key::Esc);
    assert_eq!(app.handle_key(Key::Char('q')), KeyOutcome::Quit);
}

#[test]
fn receive_counts_records_buffers_and_follows() {
    let mut app = App::new();
    for i in 0..3 {
        assert!(app.receive_message(event(&format!("m{}", i), EventType::mempool())));
    }
    assert_eq!(app.total_messages_observed(), 3);
    assert_eq!(app.scroll_offset(), 2);
    assert_eq!(
        app.statistics().event_type_counts.get(&EventType::mempool().bits()),
        Some(&3)
    );
    app.increment_total_messages();
    assert_eq!(app.total_messages_observed(), 4);
    app.record_statistics(&event("x", EventType::addrman()));
    assert_eq!(
        app.statistics().event_type_counts.get(&EventType::addrman().bits()),
        Some(&1)
    );
}

#[test]
fn escape_leaves_command_line_empty() {
    let mut app = App::new();
    app.handle_key(Key::Char(':'));
    for c in "peer 5".chars() {
        app.handle_key(Key::Char(c));
    }
    app.handle_key(Key::Esc);
    assert!(*app.mode() == AppMode::Normal);
    assert_eq!(app.command_input(), "");
    assert_eq!(app.peer_id_filter(), None);
}

#[test]
fn toggling_a_type_twice_restores_the_filter() {
    let mut app = App::new();
    app.toggle_event_type_filter(EventType::mempool());
    let before = app.event_type_filter();
    app.toggle_event_type_filter(EventType::addrman());
    app.toggle_event_type_filter(EventType::addrman());
    assert_eq!(app.event_type_filter(), before);
    app.toggle_direction_filter(Direction::outbound());
    app.toggle_direction_filter(Direction::outbound());
    assert_eq!(app.direction_filter(), Direction::none());
}
