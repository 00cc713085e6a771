//! Events of a call log and the errors met while reading them.

use vstd::prelude::*;

verus! {

/// Whether an event opens or closes a call.
#[derive(Clone, Copy, Debug, PartialEq, Eq, Structural)]
pub enum EventKind {
    Start,
    End,
}

/// The label that names `kind` in a log line.
pub open spec fn kind_label(kind: EventKind) -> Seq<char> {
    match kind {
        EventKind::Start => seq!['S', 't', 'a', 'r', 't'],
        EventKind::End => seq!['E', 'n', 'd'],
    }
}

/// The kind that `label` names, if it names one.
pub open spec fn kind_of_label(label: Seq<char>) -> Option<EventKind> {
    if label == kind_label(EventKind::Start) {
        Some(EventKind::Start)
    } else if label == kind_label(EventKind::End) {
        Some(EventKind::End)
    } else {
        None
    }
}

impl EventKind {
    /// The label that names this kind in a log line.
    pub fn as_str(&self) -> (r: &'static str)
        ensures
            r@ == kind_label(*self),
    {
        proof {
            reveal_strlit("Start");
            reveal_strlit("End");
        }
        match self {
            EventKind::Start => "Start",
            EventKind::End => "End",
        }
    }
}

/// One `Start` or `End` record of the log.
///
/// `timestamp` is the text that the trace shows for the record's time.
#[derive(Debug)]
pub struct Event {
    pub timestamp: String,
    pub name: String,
    pub kind: EventKind,
}

/// The mathematical value of an [`Event`].
pub ghost struct EventView {
    pub timestamp: Seq<char>,
    pub name: Seq<char>,
    pub kind: EventKind,
}

impl View for Event {
    type V = EventView;

    open spec fn view(&self) -> EventView {
        EventView { timestamp: self.timestamp@, name: self.name@, kind: self.kind }
    }
}

/// The views of a sequence of events.
pub open spec fn events_view(v: Seq<Event>) -> Seq<EventView> {
    v.map_values(|e: Event| e@)
}

/// The kinds of a sequence of events, in order.
pub open spec fn kinds_of(evs: Seq<EventView>) -> Seq<EventKind> {
    evs.map_values(|e: EventView| e.kind)
}

/// Why a log could not be read; `line` counts the log's lines from 0.
#[derive(Clone, Copy, Debug, PartialEq, Eq, Structural)]
pub enum ParseError {
    /// The line does not split into exactly three fields.
    MalformedLine { line: usize },
    /// The first field is not a number.
    BadTimestamp { line: usize },
    /// The third field is neither `Start` nor `End`.
    BadEventKind { line: usize },
}

} // verus!
