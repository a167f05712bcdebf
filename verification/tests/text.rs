use tui::app::command::{parse_command, Command};
use tui::text::{
    chars_of, decimal_text, hex_text_u8, join_strings, pad_left, pad_right, search_terms, string_of, text_equals,
};

#[test]
fn decimal_and_hex() {
    assert_eq!(decimal_text(0), "0");
    assert_eq!(decimal_text(9), "9");
    assert_eq!(decimal_text(10), "10");
    assert_eq!(decimal_text(u64::MAX), u64::MAX.to_string());
    assert_eq!(hex_text_u8(0), "0");
    assert_eq!(hex_text_u8(0x40), "40");
    assert_eq!(hex_text_u8(0xfe), "fe");
}

#[test]
fn parsing_numbers_in_commands() {
    assert!(matches!(parse_command("buffer 600"), Command::Resize(600)));
    assert!(matches!(parse_command("buffer +700"), Command::Resize(700)));
    assert!(matches!(parse_command("buffer +"), Command::Nothing));
    assert!(matches!(parse_command("buffer -1"), Command::Nothing));
    assert!(matches!(parse_command("buffer 1x"), Command::Nothing));
    assert!(matches!(parse_command("peer 18446744073709551615"), Command::SetPeer(Some(u64::MAX))));
    assert!(matches!(parse_command("peer 18446744073709551616"), Command::Nothing));
}

#[test]
fn text_helpers() {
    assert!(text_equals("none", "none"));
    assert!(!text_equals("none", "non"));
    assert_eq!(string_of(&chars_of("héllo")), "héllo");
    assert_eq!(search_terms("ÄB"), vec!["äb"]);
}

#[test]
fn splitting_search_terms() {
    assert_eq!(search_terms("Inv,PING  tx"), vec!["inv", "ping", "tx"]);
    assert!(search_terms(" , ").is_empty());
    assert!(search_terms("").is_empty());
    assert_eq!(search_terms("a"), vec!["a"]);
}

#[test]
fn joining() {
    let parts = vec!["a".to_string(), "b".to_string(), "c".to_string()];
    assert_eq!(join_strings(&parts, " | "), "a | b | c");
    assert_eq!(join_strings(&Vec::new(), ","), "");
}

#[test]
fn parsing_commands() {
    assert!(matches!(parse_command(" CLEAR "), Command::Clear));
    assert!(matches!(parse_command("buffer 20"), Command::Resize(500)));
    assert!(matches!(parse_command("buffer   800 "), Command::Resize(800)));
    assert!(matches!(parse_command("buffer 0"), Command::Nothing));
    assert!(matches!(parse_command("buffer"), Command::Nothing));
    assert!(matches!(parse_command("peer 12"), Command::SetPeer(Some(12))));
    assert!(matches!(parse_command("peer NONE"), Command::SetPeer(None)));
    assert!(matches!(parse_command("peer x"), Command::Nothing));
    assert!(matches!(parse_command("conn none"), Command::SetConn(None)));
    match parse_command("conn Block-Relay-Only") {
        Command::SetConn(Some(t)) => assert_eq!(t, "block-relay-only"),
        _ => panic!("expected a connection type"),
    }
    assert!(matches!(parse_command("quit"), Command::Nothing));
}

#[test]
fn padding_to_a_width() {
    assert_eq!(pad_right("ping", 8), format!("{:<8}", "ping"));
    assert_eq!(pad_right("ping", 8), "ping    ");
    assert_eq!(pad_right("é√", 4), "é√  ");
    assert_eq!(pad_right("toolongvalue", 4), "toolongvalue");
    assert_eq!(pad_left("42", 8), format!("{:>8}", "42"));
    assert_eq!(pad_left("1.5 KiB", 11), "    1.5 KiB");
    assert_eq!(pad_left("abc", 0), "abc");
    assert_eq!(pad_right("", 3), "   ");
}

#[test]
fn commands_are_trimmed_of_unicode_white_space() {
    assert!(matches!(parse_command("\u{3000}clear\u{2009}\n"), Command::Clear));
    assert!(matches!(parse_command("\u{a0}buffer\u{2003}900\t"), Command::Nothing));
    assert!(matches!(parse_command("buffer \u{85}900"), Command::Resize(900)));
}
