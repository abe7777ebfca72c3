//! Bidirectional translation between a platform input-event stream and a
//! stable wire protocol.
//!
//! The capture side decodes the textual rendering of an observed hardware
//! event into a canonical message and serializes it for an ordered sink; the
//! injection side resolves a compact numeric action code to a platform event
//! value ready for injection. The key and button code tables tying the two
//! sides to the host are a published, append-only contract.

pub mod capture;
pub mod codes;
pub mod event;
pub mod parse;
pub mod synth;
pub mod text;
pub mod wire;

pub use codes::button_from_u8;
pub use codes::key_from_u32;
pub use codes::ButtonSymbol;
pub use codes::KeySymbol;
pub use capture::process_events;
pub use event::CanonicalEvent;
pub use event::EventData;
pub use parse::parse_event;
pub use synth::event_type_from_int;
pub use synth::PlatformEvent;
pub use wire::parse_event_string;
pub use wire::serialize_event;
