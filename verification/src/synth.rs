//! The event synthesizer: from a compact numeric action code to the
//! platform event to inject.

use vstd::prelude::*;

use crate::codes::button_from_u8;
use crate::codes::button_symbol_of;
use crate::codes::key_from_u32;
use crate::codes::key_symbol_of;
use crate::codes::ButtonSymbol;
use crate::codes::KeySymbol;

verus! {

/// The resolved platform action, ready for injection. Mouse coordinates
/// are carried as the 64-bit patterns of the host's coordinate numbers,
/// passed through untouched; the adapter that talks to the platform turns
/// them back into numbers.
#[derive(Clone, Copy, Debug, PartialEq, Eq, Structural)]
pub enum PlatformEvent {
    ButtonPress(ButtonSymbol),
    ButtonRelease(ButtonSymbol),
    KeyPress(KeySymbol),
    KeyRelease(KeySymbol),
    MouseMove { x_bits: u64, y_bits: u64 },
}

/// A coordinate that was not supplied defaults to the origin.
pub open spec fn coord_or_origin(c: Option<u64>) -> u64 {
    match c {
        Some(b) => b,
        None => 0,
    }
}

/// The published dispatch on the action's type code: 0 and 1 press and
/// release a button, 2 and 3 press and release a key, 4 moves the mouse
/// with absent coordinates defaulting to the origin, and every other code
/// resolves to nothing.
pub open spec fn resolve_of(
    event_type: u8,
    value: u32,
    mouse_x: Option<u64>,
    mouse_y: Option<u64>,
) -> Option<PlatformEvent> {
    if event_type == 0 {
        Some(PlatformEvent::ButtonPress(button_symbol_of(value as u8)))
    } else if event_type == 1 {
        Some(PlatformEvent::ButtonRelease(button_symbol_of(value as u8)))
    } else if event_type == 2 {
        Some(PlatformEvent::KeyPress(key_symbol_of(value)))
    } else if event_type == 3 {
        Some(PlatformEvent::KeyRelease(key_symbol_of(value)))
    } else if event_type == 4 {
        Some(
            PlatformEvent::MouseMove {
                x_bits: coord_or_origin(mouse_x),
                y_bits: coord_or_origin(mouse_y),
            },
        )
    } else {
        None
    }
}

/// Resolves an action code to the platform event it names, or to nothing
/// when the type code is outside the published dispatch. A button code is
/// taken from the low byte of `value`, as published.
pub fn event_type_from_int(
    event_type: u8,
    value: u32,
    mouse_x: Option<u64>,
    mouse_y: Option<u64>,
) -> (r: Option<PlatformEvent>)
    ensures
        r == resolve_of(event_type, value, mouse_x, mouse_y),
{
    match event_type {
        0 => Some(PlatformEvent::ButtonPress(button_from_u8(value as u8))),
        1 => Some(PlatformEvent::ButtonRelease(button_from_u8(value as u8))),
        2 => Some(PlatformEvent::KeyPress(key_from_u32(value))),
        3 => Some(PlatformEvent::KeyRelease(key_from_u32(value))),
        4 => Some(
            PlatformEvent::MouseMove {
                x_bits: match mouse_x {
                    Some(b) => b,
                    None => 0,
                },
                y_bits: match mouse_y {
                    Some(b) => b,
                    None => 0,
                },
            },
        ),
        _ => None,
    }
}

/// A mouse-move action with one coordinate absent still resolves, the
/// missing coordinate defaulting to the origin.
pub proof fn lemma_resolve_defaults_missing_coordinate(value: u32, y_bits: u64)
    ensures
        resolve_of(4, value, None, Some(y_bits)) == Some(
            PlatformEvent::MouseMove { x_bits: 0, y_bits },
        ),
        resolve_of(4, value, Some(y_bits), None) == Some(
            PlatformEvent::MouseMove { x_bits: y_bits, y_bits: 0 },
        ),
{
}

/// An action whose type code is outside the published dispatch resolves to
/// nothing, whatever its other fields hold.
pub proof fn lemma_resolve_unknown_type_yields_nothing(
    event_type: u8,
    value: u32,
    mouse_x: Option<u64>,
    mouse_y: Option<u64>,
)
    requires
        event_type > 4,
    ensures
        resolve_of(event_type, value, mouse_x, mouse_y) is None,
{
}

} // verus!
