//! Library core of a terminal viewer for peer-observer events: the message
//! models, the filters, the statistics, the viewer state and its commands.
use vstd::prelude::*;

pub mod app;
pub mod display;
pub mod laws;
pub mod models;
pub mod ring;
pub mod text;
pub mod time;

verus! {

} // verus!
