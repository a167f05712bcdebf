//! What each key does in each mode.
use vstd::prelude::*;

use crate::app::{
    autoscroll_toggled, bottom_fits, bottom_offset, cleared, command_fits, detail_opened,
    applied, scrolled, text_filter_for, toggled_direction, toggled_event,
    typed_command, App, AppView,
};
use crate::models::{AppMode, Direction, EventType};

verus! {

/// A key press, as the viewer distinguishes them.
#[derive(Clone, Copy, PartialEq, Eq, Structural, Debug)]
pub enum Key {
    Char(char),
    Enter,
    Esc,
    Backspace,
    Up,
    Down,
    PageUp,
    PageDown,
    Home,
    End,
    Other,
}

/// What came of a key press.
#[derive(Clone, Copy, PartialEq, Eq, Structural, Debug)]
pub enum KeyOutcome {
    /// The key was handled; keep running.
    Continue,
    /// The user asked to quit.
    Quit,
    /// The key asks for a step whose arithmetic would overflow (scrolling to
    /// the bottom of a multiple of 65536 messages) or for a buffer too large to
    /// allocate; nothing was changed.
    Refused,
}

/// The state with the given mode and an empty input line.
pub open spec fn entered(v: AppView, mode: AppMode) -> AppView {
    AppView { mode, command_input: Seq::<char>::empty(), ..v }
}

/// The state with the statistics screen switched.
pub open spec fn stats_toggled(v: AppView) -> AppView {
    AppView {
        mode: if v.mode == AppMode::Statistics {
            AppMode::Normal
        } else {
            AppMode::Statistics
        },
        ..v
    }
}

/// The state after scrolling to the bottom.
pub open spec fn at_bottom(v: AppView) -> AppView {
    AppView { scroll_offset: bottom_offset(v), ..v }
}

/// The key cannot be carried out without overflowing or over-allocating.
pub open spec fn key_refused(v: AppView, key: Key) -> bool {
    match v.mode {
        AppMode::Normal => match key {
            Key::Char('r') => !v.autoscroll && !bottom_fits(v),
            Key::Char('G') | Key::End => !bottom_fits(v),
            _ => false,
        },
        AppMode::Command => key == Key::Enter && !command_fits(v),
        _ => false,
    }
}

/// The key quits the viewer.
pub open spec fn key_quits(v: AppView, key: Key) -> bool {
    v.mode == AppMode::Normal && key == Key::Char('q')
}

/// The state after a key that is neither refused nor quitting.
pub open spec fn after_key(v: AppView, key: Key) -> AppView {
    match v.mode {
        AppMode::Normal => match key {
            Key::Char(':') => entered(v, AppMode::Command),
            Key::Char('/') => entered(v, AppMode::Search),
            Key::Enter => detail_opened(v),
            Key::Char('p') => AppView {
                filter_event_type: toggled_event(v.filter_event_type, EventType::spec_message()),
                ..v
            },
            Key::Char('c') => AppView {
                filter_event_type: toggled_event(v.filter_event_type, EventType::spec_connection()),
                ..v
            },
            Key::Char('a') => AppView {
                filter_event_type: toggled_event(v.filter_event_type, EventType::spec_addrman()),
                ..v
            },
            Key::Char('m') => AppView {
                filter_event_type: toggled_event(v.filter_event_type, EventType::spec_mempool()),
                ..v
            },
            Key::Char('v') => AppView {
                filter_event_type: toggled_event(v.filter_event_type, EventType::spec_validation()),
                ..v
            },
            Key::Char('i') => AppView {
                filter_direction: toggled_direction(v.filter_direction, Direction::spec_inbound()),
                ..v
            },
            Key::Char('o') => AppView {
                filter_direction: toggled_direction(v.filter_direction, Direction::spec_outbound()),
                ..v
            },
            Key::Char('b') => AppView {
                filter_direction: if v.filter_direction == Direction::spec_both() {
                    Direction::spec_none()
                } else {
                    Direction::spec_both()
                },
                ..v
            },
            Key::Char('0') => cleared(v),
            Key::Char('r') => autoscroll_toggled(v),
            Key::Char('s') => stats_toggled(v),
            Key::Char('t') => AppView { show_timestamps: !v.show_timestamps, ..v },
            Key::Char('G') | Key::End => at_bottom(v),
            Key::Up | Key::Char('k') => scrolled(v, -1i32),
            Key::Down | Key::Char('j') => scrolled(v, 1i32),
            Key::PageUp => scrolled(v, -10i32),
            Key::PageDown => scrolled(v, 10i32),
            Key::Home => scrolled(v, -(v.scroll_offset as i32) as i32),
            _ => v,
        },
        AppMode::Command => match key {
            Key::Esc => entered(v, AppMode::Normal),
            Key::Enter => AppView {
                mode: AppMode::Normal,
                ..applied(
                    AppView { command_input: Seq::<char>::empty(), ..v },
                    typed_command(v),
                )
            },
            Key::Backspace => AppView {
                command_input: if v.command_input.len() > 0 {
                    v.command_input.drop_last()
                } else {
                    v.command_input
                },
                ..v
            },
            Key::Char(c) => AppView { command_input: v.command_input.push(c), ..v },
            _ => v,
        },
        AppMode::Search => match key {
            Key::Esc => AppView {
                filter_text: None,
                scroll_offset: 0,
                ..entered(v, AppMode::Normal)
            },
            Key::Enter => AppView {
                filter_text: if v.command_input.len() == 0 {
                    None
                } else {
                    text_filter_for(Some(v.command_input))
                },
                scroll_offset: 0,
                mode: AppMode::Normal,
                ..v
            },
            Key::Backspace => AppView {
                command_input: if v.command_input.len() > 0 {
                    v.command_input.drop_last()
                } else {
                    v.command_input
                },
                ..v
            },
            Key::Char(c) => AppView { command_input: v.command_input.push(c), ..v },
            _ => v,
        },
        AppMode::Statistics => match key {
            Key::Char('s') | Key::Char('q') | Key::Esc => stats_toggled(v),
            _ => v,
        },
        AppMode::Detail => match key {
            Key::Esc | Key::Char('q') => AppView { mode: AppMode::Normal, ..v },
            _ => v,
        },
    }
}

impl App {
    /// Handles one key press in the current mode.
    pub fn handle_key(&mut self, key: Key) -> (r: KeyOutcome)
        requires
            old(self).inv(),
        ensures
            final(self).inv(),
            key_quits(old(self)@, key) ==> r == KeyOutcome::Quit && final(self)@ == old(self)@,
            key_refused(old(self)@, key) ==> r == KeyOutcome::Refused && final(self)@ == old(
                self,
            )@,
            !key_quits(old(self)@, key) && !key_refused(old(self)@, key) ==> r
                == KeyOutcome::Continue && final(self)@ == after_key(old(self)@, key),
    {
        match self.mode() {
            AppMode::Normal => self.handle_normal_key(key),
            AppMode::Command => self.handle_input_key(key, false),
            AppMode::Search => self.handle_input_key(key, true),
            AppMode::Statistics => {
                match key {
                    Key::Char('s') | Key::Char('q') | Key::Esc => self.toggle_statistics_mode(),
                    _ => {},
                }
                KeyOutcome::Continue
            },
            AppMode::Detail => {
                match key {
                    Key::Esc | Key::Char('q') => self.close_detail_view(),
                    _ => {},
                }
                KeyOutcome::Continue
            },
        }
    }

    fn handle_normal_key(&mut self, key: Key) -> (r: KeyOutcome)
        requires
            old(self).inv(),
            old(self)@.mode == AppMode::Normal,
        ensures
            final(self).inv(),
            key_quits(old(self)@, key) ==> r == KeyOutcome::Quit && final(self)@ == old(self)@,
            key_refused(old(self)@, key) ==> r == KeyOutcome::Refused && final(self)@ == old(
                self,
            )@,
            !key_quits(old(self)@, key) && !key_refused(old(self)@, key) ==> r
                == KeyOutcome::Continue && final(self)@ == after_key(old(self)@, key),
    {
        match key {
            Key::Char('q') => {
                return KeyOutcome::Quit;
            },
            Key::Char(':') => {
                self.set_mode(AppMode::Command);
                self.clear_command_input();
            },
            Key::Char('/') => {
                self.set_mode(AppMode::Search);
                self.clear_command_input();
            },
            Key::Enter => self.open_detail_view(),
            Key::Char('p') => self.toggle_event_type_filter(EventType::message()),
            Key::Char('c') => self.toggle_event_type_filter(EventType::connection()),
            Key::Char('a') => self.toggle_event_type_filter(EventType::addrman()),
            Key::Char('m') => self.toggle_event_type_filter(EventType::mempool()),
            Key::Char('v') => self.toggle_event_type_filter(EventType::validation()),
            Key::Char('i') => self.toggle_direction_filter(Direction::inbound()),
            Key::Char('o') => self.toggle_direction_filter(Direction::outbound()),
            Key::Char('b') => {
                if self.direction_filter() == Direction::both() {
                    self.set_direction_filter(Direction::none());
                } else {
                    self.set_direction_filter(Direction::both());
                }
            },
            Key::Char('0') => self.clear_all_filters(),
            Key::Char('r') => {
                if !self.autoscroll() && !self.bottom_reachable() {
                    return KeyOutcome::Refused;
                }
                self.toggle_autoscroll();
            },
            Key::Char('s') => self.toggle_statistics_mode(),
            Key::Char('t') => self.toggle_timestamps(),
            Key::Char('G') | Key::End => {
                if !self.bottom_reachable() {
                    return KeyOutcome::Refused;
                }
                self.scroll_to_bottom();
            },
            Key::Up | Key::Char('k') => self.manual_scroll(-1),
            Key::Down | Key::Char('j') => self.manual_scroll(1),
            Key::PageUp => self.manual_scroll(-10),
            Key::PageDown => self.manual_scroll(10),
            Key::Home => {
                let offset = self.scroll_offset();
                self.manual_scroll(-(offset as i32));
            },
            _ => {},
        }
        KeyOutcome::Continue
    }

    fn handle_input_key(&mut self, key: Key, search: bool) -> (r: KeyOutcome)
        requires
            old(self).inv(),
            old(self)@.mode == (if search {
                AppMode::Search
            } else {
                AppMode::Command
            }),
        ensures
            final(self).inv(),
            key_refused(old(self)@, key) ==> r == KeyOutcome::Refused && final(self)@ == old(
                self,
            )@,
            !key_refused(old(self)@, key) ==> r == KeyOutcome::Continue && final(self)@
                == after_key(old(self)@, key),
    {
        match key {
            Key::Esc => {
                self.set_mode(AppMode::Normal);
                self.clear_command_input();
                if search {
                    self.set_text_filter(None);
                }
            },
            Key::Enter => {
                if search {
                    // Apply the text filter
                    let search_text = crate::text::owned(self.command_input());
                    if search_text.as_str().unicode_len() == 0 {
                        self.set_text_filter(None);
                    } else {
                        self.set_text_filter(Some(search_text));
                    }
                } else {
                    if !self.command_allowed() {
                        return KeyOutcome::Refused;
                    }
                    self.process_command();
                }
                self.set_mode(AppMode::Normal);
            },
            Key::Backspace => self.pop_command_input(),
            Key::Char(c) => self.push_command_input(c),
            _ => {},
        }
        KeyOutcome::Continue
    }
}

} // verus!
