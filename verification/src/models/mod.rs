use vstd::prelude::*;

pub mod direction;
pub mod event_type;
pub mod log_message;
pub mod statistics;

pub use direction::Direction;
pub use event_type::EventType;
pub use log_message::LogMessage;
pub use statistics::Statistics;

verus! {

/// What the viewer is doing: which screen is shown and where keys go.
#[derive(Clone, Copy, PartialEq, Eq, Structural, Debug)]
pub enum AppMode {
    Normal,
    Command,
    Search,
    Statistics,
    Detail,
}

} // verus!
