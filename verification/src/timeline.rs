//! The timeline of the web interface: how long the page waits for the
//! timeline library to appear, and the items it shows.

use vstd::prelude::*;

verus! {

/// How many times the page waits again for the timeline library before it
/// goes on without it.
pub const TIMELINE_MAX_RETRIES: u32 = 20;

/// What the page does after checking for the timeline library.
#[derive(Debug, Clone, Copy, PartialEq, Eq, Structural)]
pub enum WaitStep {
    /// Go on and build the timeline (the library is there, or waiting is over).
    Proceed,
    /// Wait a little and check again.
    Retry,
}

/// The step after a check that found the library `available` or not, when
/// `attempts` retries were made already.
pub fn timeline_wait_step(available: bool, attempts: u32) -> (res: WaitStep)
    ensures
        res == WaitStep::Proceed <==> (available || attempts > TIMELINE_MAX_RETRIES),
{
    if available || attempts > TIMELINE_MAX_RETRIES {
        WaitStep::Proceed
    } else {
        WaitStep::Retry
    }
}

/// One item of the timeline.
#[derive(Debug, Clone)]
pub struct TimelineItem {
    pub id: String,
    pub content: String,
    /// `Some("background")` for a background area.
    pub kind: Option<String>,
    pub start: String,
    pub end: Option<String>,
}

/// The text of an optional string.
pub open spec fn opt_text(o: Option<String>) -> Option<Seq<char>> {
    match o {
        Some(s) => Some(s@),
        None => None,
    }
}

/// `item` has the given fields.
pub open spec fn item_is(
    item: TimelineItem,
    id: Seq<char>,
    content: Seq<char>,
    kind: Option<Seq<char>>,
    start: Seq<char>,
    end: Option<Seq<char>>,
) -> bool {
    &&& item.id@ == id
    &&& item.content@ == content
    &&& opt_text(item.kind) == kind
    &&& item.start@ == start
    &&& opt_text(item.end) == end
}

/// The items the timeline shows: two dated items and two background
/// periods.
pub fn timeline_items() -> (res: Vec<TimelineItem>)
    ensures
        res@.len() == 4,
        item_is(res@[0], "1"@, "item 1"@, None, "2014-04-20"@, None),
        item_is(res@[1], "2"@, "item 2"@, None, "2014-04-14"@, None),
        item_is(
            res@[2],
            "bg1"@,
            "Period A"@,
            Some("background"@),
            "2014-04-10"@,
            Some("2014-04-16"@),
        ),
        item_is(
            res@[3],
            "bg2"@,
            "Period B"@,
            Some("background"@),
            "2014-04-18"@,
            Some("2014-04-25"@),
        ),
{
    let mut items: Vec<TimelineItem> = Vec::new();
    items.push(
        TimelineItem {
            id: String::from_str("1"),
            content: String::from_str("item 1"),
            kind: None,
            start: String::from_str("2014-04-20"),
            end: None,
        },
    );
    items.push(
        TimelineItem {
            id: String::from_str("2"),
            content: String::from_str("item 2"),
            kind: None,
            start: String::from_str("2014-04-14"),
            end: None,
        },
    );
    items.push(
        TimelineItem {
            id: String::from_str("bg1"),
            content: String::from_str("Period A"),
            kind: Some(String::from_str("background")),
            start: String::from_str("2014-04-10"),
            end: Some(String::from_str("2014-04-16")),
        },
    );
    items.push(
        TimelineItem {
            id: String::from_str("bg2"),
            content: String::from_str("Period B"),
            kind: Some(String::from_str("background")),
            start: String::from_str("2014-04-18"),
            end: Some(String::from_str("2014-04-25")),
        },
    );
    items
}

} // verus!
