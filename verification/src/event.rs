//! The canonical event: the structured result of decoding one captured
//! input event, ready to be serialized for the wire.

use vstd::prelude::*;

verus! {

/// The payload of a canonical event, keyed by the event's kind. Mouse
/// coordinates are carried as the decimal text the capture layer printed;
/// key and button names are carried verbatim.
pub enum EventData {
    MouseMove { x_text: String, y_text: String },
    KeyPress { key: String },
    KeyRelease { key: String },
    ButtonPress { button: String },
    ButtonRelease { button: String },
}

/// One successfully decoded capture: the moment it happened, the optional
/// event name, and the kind-specific payload.
pub struct CanonicalEvent {
    /// Milliseconds since the Unix epoch.
    pub time_ms: u128,
    /// The event's name, absent when the capture layer reported none.
    pub name: Option<String>,
    /// The kind-specific payload.
    pub data: EventData,
}

/// The mathematical shape of an event payload.
pub ghost enum EventDataView {
    MouseMove { x_text: Seq<char>, y_text: Seq<char> },
    KeyPress { key: Seq<char> },
    KeyRelease { key: Seq<char> },
    ButtonPress { button: Seq<char> },
    ButtonRelease { button: Seq<char> },
}

/// The mathematical shape of a canonical event.
pub ghost struct CanonicalEventView {
    pub time_ms: nat,
    pub name: Option<Seq<char>>,
    pub data: EventDataView,
}

impl View for EventData {
    type V = EventDataView;

    open spec fn view(&self) -> EventDataView {
        match self {
            EventData::MouseMove { x_text, y_text } => EventDataView::MouseMove {
                x_text: x_text@,
                y_text: y_text@,
            },
            EventData::KeyPress { key } => EventDataView::KeyPress { key: key@ },
            EventData::KeyRelease { key } => EventDataView::KeyRelease { key: key@ },
            EventData::ButtonPress { button } => EventDataView::ButtonPress { button: button@ },
            EventData::ButtonRelease { button } => EventDataView::ButtonRelease { button: button@ },
        }
    }
}

impl View for CanonicalEvent {
    type V = CanonicalEventView;

    open spec fn view(&self) -> CanonicalEventView {
        CanonicalEventView {
            time_ms: self.time_ms as nat,
            name: match self.name {
                Some(s) => Some(s@),
                None => None,
            },
            data: self.data@,
        }
    }
}

} // verus!
