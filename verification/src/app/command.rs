//! The `:` commands of the viewer.
use vstd::prelude::*;

use crate::text::{
    chars_of, has_prefix, lowercase, parse_u64, parse_unsigned, parse_usize, same_chars,
    starts_with, string_of_range, text_equals, to_lower, trim, trimmed,
};

verus! {

/// What a typed command asks for.
pub enum Command {
    /// `clear`: remove every filter.
    Clear,
    /// `buffer N`: keep this many messages.
    Resize(usize),
    /// `peer ID` or `peer none`.
    SetPeer(Option<u64>),
    /// `conn TYPE` or `conn none`.
    SetConn(Option<String>),
    /// Anything else.
    Nothing,
}

/// A command as plain values.
pub enum CommandView {
    Clear,
    Resize(usize),
    SetPeer(Option<u64>),
    SetConn(Option<Seq<char>>),
    Nothing,
}

impl View for Command {
    type V = CommandView;

    open spec fn view(&self) -> CommandView {
        match self {
            Command::Clear => CommandView::Clear,
            Command::Resize(n) => CommandView::Resize(*n),
            Command::SetPeer(p) => CommandView::SetPeer(*p),
            Command::SetConn(c) => CommandView::SetConn(
                match c {
                    Some(s) => Some(s@),
                    None => None,
                },
            ),
            Command::Nothing => CommandView::Nothing,
        }
    }
}

/// The smallest buffer size a `buffer` command sets.
pub const MIN_BUFFER_SIZE: usize = 500;

/// What the (trimmed, lowercased) command text `cmd` asks for:
/// - `clear`;
/// - `buffer N` with N a positive number: a buffer of N messages, at least 500;
/// - `peer ID` with ID a number, or `peer none`;
/// - `conn TYPE`, or `conn none`;
/// - otherwise nothing.
pub open spec fn interpret(cmd: Seq<char>) -> CommandView {
    if cmd == "clear"@ {
        CommandView::Clear
    } else if has_prefix(cmd, "buffer "@) {
        match parse_unsigned(trimmed(cmd.skip("buffer "@.len() as int)), usize::MAX as nat) {
            Some(n) => if n > 0 {
                CommandView::Resize(
                    if n < MIN_BUFFER_SIZE {
                        MIN_BUFFER_SIZE
                    } else {
                        n as usize
                    },
                )
            } else {
                CommandView::Nothing
            },
            None => CommandView::Nothing,
        }
    } else if has_prefix(cmd, "peer "@) {
        let rest = trimmed(cmd.skip("peer "@.len() as int));
        match parse_unsigned(rest, u64::MAX as nat) {
            Some(p) => CommandView::SetPeer(Some(p as u64)),
            None => if rest == "none"@ {
                CommandView::SetPeer(None)
            } else {
                CommandView::Nothing
            },
        }
    } else if has_prefix(cmd, "conn "@) {
        let rest = trimmed(cmd.skip("conn "@.len() as int));
        if rest == "none"@ {
            CommandView::SetConn(None)
        } else {
            CommandView::SetConn(Some(rest))
        }
    } else {
        CommandView::Nothing
    }
}

/// Reads a typed command: trimmed, lowercased, then interpreted.
pub fn parse_command(input: &str) -> (r: Command)
    ensures
        r@ == interpret(lowercase(trimmed(input@))),
{
    let t = trim(input);
    let cmd = to_lower(t);
    let cs = chars_of(cmd.as_str());
    let n = cs.len();

    let clear = chars_of("clear");
    if same_chars(cs.as_slice(), clear.as_slice()) {
        return Command::Clear;
    }
    let buffer = chars_of("buffer ");
    if starts_with(cs.as_slice(), buffer.as_slice()) {
        let rest = string_of_range(cs.as_slice(), buffer.len(), n);
        assert(rest@ == cs@.skip("buffer "@.len() as int));
        let limit_str = trim(rest.as_str());
        match parse_usize(limit_str) {
            Some(limit) => {
                if limit > 0 {
                    let new_size = if limit < MIN_BUFFER_SIZE {
                        MIN_BUFFER_SIZE
                    } else {
                        limit
                    };
                    return Command::Resize(new_size);
                }
                return Command::Nothing;
            },
            None => {
                return Command::Nothing;
            },
        }
    }
    let peer = chars_of("peer ");
    if starts_with(cs.as_slice(), peer.as_slice()) {
        let rest = string_of_range(cs.as_slice(), peer.len(), n);
        assert(rest@ == cs@.skip("peer "@.len() as int));
        let peer_id_str = trim(rest.as_str());
        match parse_u64(peer_id_str) {
            Some(peer_id) => {
                return Command::SetPeer(Some(peer_id));
            },
            None => {
                if text_equals(peer_id_str, "none") {
                    return Command::SetPeer(None);
                }
                return Command::Nothing;
            },
        }
    }
    let conn = chars_of("conn ");
    if starts_with(cs.as_slice(), conn.as_slice()) {
        let rest = string_of_range(cs.as_slice(), conn.len(), n);
        assert(rest@ == cs@.skip("conn "@.len() as int));
        let conn_type = trim(rest.as_str());
        if text_equals(conn_type, "none") {
            return Command::SetConn(None);
        }
        return Command::SetConn(Some(crate::text::owned(conn_type)));
    }
    Command::Nothing
}

} // verus!
