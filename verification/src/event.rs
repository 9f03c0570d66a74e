//! The event model shared by the recorder and the player.

use vstd::prelude::*;

verus! {

/// The kind of an event.
#[derive(Clone, Copy, Debug, PartialEq, Eq, Structural)]
pub enum EventCode {
    Output,
    Input,
    Resize,
    Marker,
}

/// What an event carries: bytes for output and input, a terminal geometry
/// for a resize, nothing for a marker.
#[derive(Debug)]
pub enum Payload {
    Output(Vec<u8>),
    Input(Vec<u8>),
    Resize(u16, u16),
    Marker,
}

/// One timestamped event of a session. `time` counts microseconds since the
/// start of the session.
#[derive(Debug)]
pub struct Event {
    pub time: u64,
    pub payload: Payload,
}

/// Mathematical model of a [`Payload`].
pub enum PayloadView {
    Output(Seq<u8>),
    Input(Seq<u8>),
    Resize(u16, u16),
    Marker,
}

/// Mathematical model of an [`Event`].
pub struct EventView {
    pub time: u64,
    pub payload: PayloadView,
}

impl View for Payload {
    type V = PayloadView;

    open spec fn view(&self) -> PayloadView {
        match *self {
            Payload::Output(data) => PayloadView::Output(data@),
            Payload::Input(data) => PayloadView::Input(data@),
            Payload::Resize(cols, rows) => PayloadView::Resize(cols, rows),
            Payload::Marker => PayloadView::Marker,
        }
    }
}

impl View for Event {
    type V = EventView;

    open spec fn view(&self) -> EventView {
        EventView { time: self.time, payload: self.payload@ }
    }
}

impl PayloadView {
    /// The kind of event that carries this payload.
    pub open spec fn code(self) -> EventCode {
        match self {
            PayloadView::Output(_) => EventCode::Output,
            PayloadView::Input(_) => EventCode::Input,
            PayloadView::Resize(_, _) => EventCode::Resize,
            PayloadView::Marker => EventCode::Marker,
        }
    }

    /// The bytes that a terminal receives when this payload is replayed:
    /// the data of an output event, nothing for any other kind.
    pub open spec fn replayed(self) -> Seq<u8> {
        match self {
            PayloadView::Output(data) => data,
            _ => Seq::empty(),
        }
    }
}

/// The models of a sequence of events, in order.
pub open spec fn views(events: Seq<Event>) -> Seq<EventView> {
    events.map_values(|e: Event| e@)
}

/// The model of an event that may be missing.
pub open spec fn event_view(event: Option<Event>) -> Option<EventView> {
    match event {
        Some(e) => Some(e@),
        None => None,
    }
}

/// The timestamps of a sequence of events, in order.
pub open spec fn times(events: Seq<EventView>) -> Seq<u64> {
    events.map_values(|e: EventView| e.time)
}

/// `times` never steps backwards.
pub open spec fn non_decreasing(times: Seq<u64>) -> bool {
    forall|i: int, j: int| 0 <= i <= j < times.len() ==> times[i] <= times[j]
}

/// Everything a terminal receives when `events` are replayed in order.
pub open spec fn replayed_bytes(events: Seq<EventView>) -> Seq<u8>
    decreases events.len(),
{
    if events.len() == 0 {
        Seq::empty()
    } else {
        replayed_bytes(events.drop_last()) + events.last().payload.replayed()
    }
}

impl Payload {
    /// The kind of event that carries this payload.
    pub fn code(&self) -> (code: EventCode)
        ensures
            code == self@.code(),
    {
        match self {
            Payload::Output(_) => EventCode::Output,
            Payload::Input(_) => EventCode::Input,
            Payload::Resize(_, _) => EventCode::Resize,
            Payload::Marker => EventCode::Marker,
        }
    }
}

impl Event {
    /// The kind of this event.
    pub fn code(&self) -> (code: EventCode)
        ensures
            code == self@.payload.code(),
    {
        self.payload.code()
    }
}

} // verus!
