use input_wire::event_type_from_int;
use input_wire::ButtonSymbol;
use input_wire::KeySymbol;
use input_wire::PlatformEvent;

#[test]
fn each_published_type_code_dispatches() {
    assert_eq!(
        event_type_from_int(0, 0, None, None),
        Some(PlatformEvent::ButtonPress(ButtonSymbol::Left))
    );
    assert_eq!(
        event_type_from_int(1, 7, None, None),
        Some(PlatformEvent::ButtonRelease(ButtonSymbol::Unknown(7)))
    );
    assert_eq!(
        event_type_from_int(2, 76, None, None),
        Some(PlatformEvent::KeyPress(KeySymbol::KeyA))
    );
    assert_eq!(
        event_type_from_int(3, 999, None, None),
        Some(PlatformEvent::KeyRelease(KeySymbol::Unknown(999)))
    );
}

#[test]
fn button_code_is_taken_from_the_low_byte() {
    assert_eq!(
        event_type_from_int(0, 256, None, None),
        Some(PlatformEvent::ButtonPress(ButtonSymbol::Left))
    );
    assert_eq!(
        event_type_from_int(1, 258, None, None),
        Some(PlatformEvent::ButtonRelease(ButtonSymbol::Middle))
    );
}

#[test]
fn missing_mouse_coordinate_defaults_to_the_origin() {
    let y = 2.5f64.to_bits();
    assert_eq!(
        event_type_from_int(4, 0, None, Some(y)),
        Some(PlatformEvent::MouseMove { x_bits: 0, y_bits: y })
    );
    assert_eq!(f64::from_bits(0), 0.0);
    let x = 1.5f64.to_bits();
    assert_eq!(
        event_type_from_int(4, 0, Some(x), None),
        Some(PlatformEvent::MouseMove { x_bits: x, y_bits: 0 })
    );
    assert_eq!(
        event_type_from_int(4, 0, Some(x), Some(y)),
        Some(PlatformEvent::MouseMove { x_bits: x, y_bits: y })
    );
}

#[test]
fn unknown_type_code_resolves_to_nothing() {
    assert_eq!(event_type_from_int(5, 0, None, None), None);
    assert_eq!(event_type_from_int(99, 3, Some(1), Some(2)), None);
    assert_eq!(event_type_from_int(255, u32::MAX, None, None), None);
}
