//! What the calendar endpoint shows.

use vstd::prelude::*;

verus! {

/// One entry of a family's calendar summary.
#[derive(Debug, Clone)]
pub struct CalendarSummaryView {
    pub id: String,
    pub title: String,
    pub time: String,
    pub person: String,
    pub calendar_color: String,
    pub visibility: String,
    pub attendees: Vec<String>,
}

} // verus!
