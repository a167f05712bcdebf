//! The detail screen of one message.
use vstd::prelude::*;

use crate::models::direction::direction_debug_text;
use crate::models::event_type::event_debug_text;
use crate::models::{EventType, LogMessage};
use crate::text::{chars_of, decimal, decimal_text, owned, string_of_range};
use crate::time::{format_timestamp, timestamp_text};

verus! {

/// The runs of `s` between line feeds, empty runs included.
pub open spec fn newline_pieces(s: Seq<char>) -> Seq<Seq<char>>
    decreases s.len(),
{
    if s.len() == 0 {
        seq![Seq::empty()]
    } else if s.last() == '\n' {
        newline_pieces(s.drop_last()).push(Seq::empty())
    } else {
        let p = newline_pieces(s.drop_last());
        p.update(p.len() - 1, p.last().push(s.last()))
    }
}

/// A line without the carriage return that ended it, if any.
pub open spec fn strip_cr(l: Seq<char>) -> Seq<char> {
    if l.len() > 0 && l.last() == '\r' {
        l.drop_last()
    } else {
        l
    }
}

/// The lines of `s` as `str::lines` yields them: split at `\n`, a `\r`
/// before the `\n` dropped, and no empty line after a final `\n`.
pub open spec fn text_lines(s: Seq<char>) -> Seq<Seq<char>> {
    let ps = newline_pieces(s);
    let done = ps.drop_last().map_values(|l: Seq<char>| strip_cr(l));
    if ps.last().len() == 0 {
        done
    } else {
        done.push(ps.last())
    }
}

/// The views of a list of (bold label, plain text) rows.
pub open spec fn rows_view(v: Seq<(String, String)>) -> Seq<(Seq<char>, Seq<char>)> {
    v.map_values(|p: (String, String)| (p.0@, p.1@))
}

/// The `strftime` format of the full timestamp.
pub open spec fn full_pattern() -> Seq<char> {
    "%Y-%m-%d %H:%M:%S.%3f"@
}

/// The P2P-only rows of the detail screen.
pub open spec fn p2p_detail(m: LogMessage) -> Seq<(Seq<char>, Seq<char>)> {
    let a = seq![("Direction: "@, direction_debug_text(m.direction.bits))];
    let b = match m.peer_id {
        Some(p) => a.push(("Peer ID: "@, decimal(p as nat))),
        None => a,
    };
    let c = match m.conn_type {
        Some(t) => b.push(("Connection Type: "@, t@)),
        None => b,
    };
    let d = match m.p2p_msg_type {
        Some(t) => c.push(("Message Type: "@, t@)),
        None => c,
    };
    match m.msg_size {
        Some(z) => d.push(("Size: "@, decimal(z as nat) + " bytes"@)),
        None => d,
    }
}

/// The rows of the detail screen: (bold label, plain text).
pub open spec fn detail_spec(m: LogMessage) -> Seq<(Seq<char>, Seq<char>)> {
    let e: Seq<char> = Seq::empty();
    let head = seq![
        ("Message Details"@, e),
        (e, e),
        ("Timestamp: "@, timestamp_text(m.timestamp, full_pattern())),
        ("Event Type: "@, event_debug_text(m.event_type.bits)),
    ];
    let p2p = if m.event_type.has(EventType::spec_message()) {
        p2p_detail(m)
    } else {
        Seq::empty()
    };
    let tail = seq![(e, e), ("Content:"@, e), (e, e)];
    let body = if text_lines(m.content@).len() == 0 {
        seq![(e, "[Empty content]"@)]
    } else {
        text_lines(m.content@).map_values(|l: Seq<char>| (e, l))
    };
    head + p2p + tail + body
}

/// The lines of `text`, as `str::lines` yields them.
pub fn lines_of(text: &str) -> (r: Vec<String>)
    ensures
        crate::text::views(r@) == text_lines(text@),
{
    let cs = chars_of(text);
    let n = cs.len();
    let ghost strip = |l: Seq<char>| strip_cr(l);
    let mut out: Vec<String> = Vec::new();
    let mut start: usize = 0;
    let ghost mut done: Seq<Seq<char>> = seq![];
    assert(cs@.take(0) =~= Seq::<char>::empty());
    assert(cs@.subrange(0, 0) =~= Seq::<char>::empty());
    for i in 0..n
        invariant
            n == cs@.len(),
            start <= i,
            newline_pieces(cs@.take(i as int)) == done.push(cs@.subrange(start as int, i as int)),
            crate::text::views(out@) == done.map_values(strip),
            strip == (|l: Seq<char>| strip_cr(l)),
    {
        let ghost prefix = cs@.take(i + 1);
        assert(prefix.drop_last() == cs@.take(i as int));
        assert(prefix.last() == cs@[i as int]);
        if cs[i] == '\n' {
            let ghost piece = cs@.subrange(start as int, i as int);
            let end = if i > start && cs[i - 1] == '\r' {
                i - 1
            } else {
                i
            };
            let line = string_of_range(cs.as_slice(), start, end);
            assert(line@ == strip_cr(piece));
            let ghost before = crate::text::views(out@);
            out.push(line);
            proof {
                assert(crate::text::views(out@) =~= before.push(strip(piece)));
                assert(done.push(piece).map_values(strip) =~= done.map_values(strip).push(
                    strip(piece),
                ));
                done = done.push(piece);
                assert(cs@.subrange(i + 1, i + 1) =~= Seq::<char>::empty());
            }
            start = i + 1;
        } else {
            proof {
                let p = newline_pieces(cs@.take(i as int));
                assert(p.len() - 1 == done.len());
                assert(cs@.subrange(start as int, i + 1) =~= cs@.subrange(start as int, i as int).push(
                    cs@[i as int],
                ));
                assert(newline_pieces(prefix) =~= done.push(cs@.subrange(start as int, i + 1)));
            }
        }
    }
    let ghost last = cs@.subrange(start as int, n as int);
    proof {
        assert(cs@.take(n as int) == cs@);
        let ps = newline_pieces(cs@);
        assert(ps.drop_last() =~= done);
        assert(ps.last() == last);
    }
    if start < n {
        let ghost before = crate::text::views(out@);
        let line = string_of_range(cs.as_slice(), start, n);
        out.push(line);
        assert(crate::text::views(out@) =~= before.push(last));
    }
    out
}

impl LogMessage {
    /// The rows of the detail screen for this message: a header, the
    /// timestamp, the event type, for P2P messages the direction, peer,
    /// connection type, message type and size that are known, then the
    /// content line by line (`[Empty content]` when it has no line).
    pub fn detail_rows(&self) -> (r: Vec<(String, String)>)
        requires
            self.wf(),
        ensures
            rows_view(r@) == detail_spec(*self),
    {
        let ghost e: Seq<char> = Seq::empty();
        let mut rows: Vec<(String, String)> = Vec::new();
        rows.push((owned("Message Details"), String::new()));
        rows.push((String::new(), String::new()));
        rows.push((owned("Timestamp: "), format_timestamp(self.timestamp, "%Y-%m-%d %H:%M:%S.%3f")));
        rows.push((owned("Event Type: "), self.event_type.debug_text()));
        let ghost head = rows_view(rows@);
        assert(head =~= seq![
            ("Message Details"@, e),
            (e, e),
            ("Timestamp: "@, timestamp_text(self.timestamp, full_pattern())),
            ("Event Type: "@, event_debug_text(self.event_type.bits)),
        ]);
        if self.event_type.contains(EventType::message()) {
            rows.push((owned("Direction: "), self.direction.debug_text()));
            let ghost a = rows_view(rows@);
            if let Some(peer_id) = self.peer_id {
                rows.push((owned("Peer ID: "), decimal_text(peer_id)));
            }
            let ghost b = rows_view(rows@);
            assert(b == match self.peer_id {
                Some(p) => a.push(("Peer ID: "@, decimal(p as nat))),
                None => a,
            });
            if let Some(conn_type) = &self.conn_type {
                rows.push((owned("Connection Type: "), conn_type.clone()));
            }
            let ghost c = rows_view(rows@);
            assert(c == match self.conn_type {
                Some(t) => b.push(("Connection Type: "@, t@)),
                None => b,
            });
            if let Some(msg_type) = &self.p2p_msg_type {
                rows.push((owned("Message Type: "), msg_type.clone()));
            }
            let ghost d = rows_view(rows@);
            assert(d == match self.p2p_msg_type {
                Some(t) => c.push(("Message Type: "@, t@)),
                None => c,
            });
            if let Some(size) = self.msg_size {
                let mut text = decimal_text(size);
                text.append(" bytes");
                rows.push((owned("Size: "), text));
            }
            assert(rows_view(rows@) =~= head + p2p_detail(*self));
        } else {
            assert(rows_view(rows@) =~= head + Seq::empty());
        }
        let ghost mid = rows_view(rows@);
        rows.push((String::new(), String::new()));
        rows.push((owned("Content:"), String::new()));
        rows.push((String::new(), String::new()));
        let ghost with_tail = rows_view(rows@);
        assert(with_tail =~= mid + seq![(e, e), ("Content:"@, e), (e, e)]);
        let content_lines = lines_of(self.content.as_str());
        if content_lines.len() == 0 {
            rows.push((String::new(), owned("[Empty content]")));
            assert(rows_view(rows@) =~= with_tail + seq![(e, "[Empty content]"@)]);
        } else {
            let n = content_lines.len();
            let ghost lines = text_lines(self.content@);
            for i in 0..n
                invariant
                    n == content_lines@.len(),
                    e == Seq::<char>::empty(),
                    crate::text::views(content_lines@) == lines,
                    rows_view(rows@) == with_tail + lines.take(i as int).map_values(
                        |l: Seq<char>| (e, l),
                    ),
            {
                let ghost before = rows_view(rows@);
                let blank = String::new();
                let line = content_lines[i].clone();
                assert(line@ == content_lines@[i as int]@);
                rows.push((blank, line));
                assert(rows@.last() == (blank, line));
                assert(lines[i as int] == content_lines@[i as int]@);

                assert(lines.take(i + 1).map_values(|l: Seq<char>| (e, l)) =~= lines.take(
                    i as int,
                ).map_values(|l: Seq<char>| (e, l)).push((e, lines[i as int])));
                assert(rows_view(rows@) =~= before.push((e, lines[i as int])));
            }
            assert(lines.take(n as int) == lines);
        }
        assert(rows_view(rows@) =~= detail_spec(*self));
        rows
    }
}

} // verus!
