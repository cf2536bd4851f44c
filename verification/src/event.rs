//! What a session reports.

use vstd::prelude::*;

verus! {

/// Something that a session reports.
#[derive(Debug, Clone, PartialEq, Eq)]
pub enum AsrEvent {
    /// The session is open and configured.
    Connected,
    /// Everything recognized so far, with the part that may still change.
    Interim(String),
    /// Everything recognized so far that will not change.
    Definite(String),
    /// The transcript.
    Final(String),
    /// The service reported an error.
    Error(String),
    /// The connection ended, with a reason if one was given.
    Closed(Option<String>),
}

/// What an `AsrEvent` says.
pub enum EventView {
    Connected,
    Interim(Seq<char>),
    Definite(Seq<char>),
    Final(Seq<char>),
    Error(Seq<char>),
    Closed(Option<Seq<char>>),
}

impl View for AsrEvent {
    type V = EventView;

    open spec fn view(&self) -> EventView {
        match self {
            AsrEvent::Connected => EventView::Connected,
            AsrEvent::Interim(text) => EventView::Interim(text@),
            AsrEvent::Definite(text) => EventView::Definite(text@),
            AsrEvent::Final(text) => EventView::Final(text@),
            AsrEvent::Error(message) => EventView::Error(message@),
            AsrEvent::Closed(Some(reason)) => EventView::Closed(Some(reason@)),
            AsrEvent::Closed(None) => EventView::Closed(None),
        }
    }
}

/// What a list of events says.
pub open spec fn event_views(events: Seq<AsrEvent>) -> Seq<EventView> {
    events.map_values(|event: AsrEvent| event@)
}

} // verus!
