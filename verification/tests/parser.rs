use input_wire::event::EventData;
use input_wire::parse::parse_event;
use input_wire::parse_event_string;
use input_wire::serialize_event;
use input_wire::CanonicalEvent;

#[test]
fn mouse_move_round_trip() {
    let raw = "Event { time: SystemTime { tv_sec: 100, tv_nsec: 500000000 }, \
               name: None, event_type: MouseMove { x: 1.5, y: 2.5 } }";
    assert_eq!(
        parse_event_string(raw),
        Some(
            "{\"time\":100500,\"name\":null,\"type\":\"MouseMove\",\
             \"data\":{\"x\":1.5,\"y\":2.5},\"auto_builded\":true}"
                .to_string()
        )
    );
}

#[test]
fn key_press_with_name() {
    let raw = "Event { time: SystemTime { tv_sec: 0, tv_nsec: 0 }, \
               name: \"Hello\", event_type: KeyPress(KeyA) }";
    assert_eq!(
        parse_event_string(raw),
        Some(
            "{\"time\":0,\"name\":\"Hello\",\"type\":\"KeyPress\",\"data\":{\"key\":\"KeyA\"}}"
                .to_string()
        )
    );
}

#[test]
fn key_release_and_button_events() {
    let raw = "tv_sec: 1, tv_nsec: 2000000, name: None, event_type: KeyRelease(ShiftLeft)";
    assert_eq!(
        parse_event_string(raw),
        Some(
            "{\"time\":1002,\"name\":null,\"type\":\"KeyRelease\",\
             \"data\":{\"key\":\"ShiftLeft\"}}"
                .to_string()
        )
    );
    let raw = "tv_sec: 3, tv_nsec: 999999, name: None, event_type: ButtonPress(Left)";
    assert_eq!(
        parse_event_string(raw),
        Some(
            "{\"time\":3000,\"name\":null,\"type\":\"ButtonPress\",\
             \"data\":{\"button\":\"Left\"}}"
                .to_string()
        )
    );
    let raw = "tv_sec: 3, tv_nsec: 1000000, name: None, event_type: ButtonRelease(Middle)";
    assert_eq!(
        parse_event_string(raw),
        Some(
            "{\"time\":3001,\"name\":null,\"type\":\"ButtonRelease\",\
             \"data\":{\"button\":\"Middle\"}}"
                .to_string()
        )
    );
}

#[test]
fn missing_timestamp_yields_nothing() {
    assert_eq!(parse_event_string("name: None, event_type: KeyPress(KeyA)"), None);
    assert_eq!(parse_event_string("tv_sec: , tv_nsec: 5, name: None, event_type: KeyPress(A)"), None);
}

#[test]
fn missing_name_yields_nothing() {
    assert_eq!(
        parse_event_string("tv_sec: 0, tv_nsec: 0, event_type: KeyPress(KeyA)"),
        None
    );
}

#[test]
fn unsupported_event_kind_yields_nothing() {
    assert_eq!(
        parse_event_string(
            "tv_sec: 0, tv_nsec: 0, name: None, event_type: Wheel { delta_x: 0, delta_y: 1 }"
        ),
        None
    );
    assert_eq!(parse_event_string(""), None);
}

#[test]
fn malformed_coordinate_spoils_the_decode() {
    assert_eq!(
        parse_event_string(
            "tv_sec: 0, tv_nsec: 0, name: None, event_type: MouseMove { x: 1.2.3, y: 4.0 }"
        ),
        None
    );
    assert_eq!(
        parse_event_string(
            "tv_sec: 0, tv_nsec: 0, name: None, event_type: MouseMove { x: ., y: 4.0 } KeyPress(A)"
        ),
        None
    );
}

#[test]
fn out_of_range_time_fields_yield_nothing() {
    assert_eq!(
        parse_event_string(
            "tv_sec: 99999999999999999999, tv_nsec: 0, name: None, event_type: KeyPress(KeyA)"
        ),
        None
    );
    assert_eq!(
        parse_event_string(
            "tv_sec: 0, tv_nsec: 5000000000, name: None, event_type: KeyPress(KeyA)"
        ),
        None
    );
}

#[test]
fn largest_second_count_still_decodes() {
    let raw = "tv_sec: 18446744073709551615, tv_nsec: 999999999, \
               name: None, event_type: KeyPress(KeyA)";
    assert_eq!(
        parse_event_string(raw),
        Some(format!(
            "{{\"time\":{},\"name\":null,\"type\":\"KeyPress\",\"data\":{{\"key\":\"KeyA\"}}}}",
            18446744073709551615u128 * 1000 + 999
        ))
    );
}

#[test]
fn a_failed_timestamp_head_is_skipped_for_a_later_one() {
    let raw = "tv_sec: abc, tv_nsec: 1, tv_sec: 7, tv_nsec: 8, name: None, event_type: KeyPress(Dot)";
    assert_eq!(
        parse_event_string(raw),
        Some(
            "{\"time\":7000,\"name\":null,\"type\":\"KeyPress\",\"data\":{\"key\":\"Dot\"}}"
                .to_string()
        )
    );
}

#[test]
fn mouse_move_takes_priority_over_key_text() {
    let raw = "tv_sec: 5, tv_nsec: 0, name: None, \
               event_type: MouseMove { x: 1.0, y: 2.0 } KeyPress(KeyA)";
    assert_eq!(
        parse_event_string(raw),
        Some(
            "{\"time\":5000,\"name\":null,\"type\":\"MouseMove\",\
             \"data\":{\"x\":1.0,\"y\":2.0},\"auto_builded\":true}"
                .to_string()
        )
    );
}

#[test]
fn name_is_unquoted_and_trimmed() {
    let raw = "tv_sec: 0, tv_nsec: 0, name: \" Hi \", event_type: KeyPress(KeyA)";
    assert_eq!(
        parse_event_string(raw),
        Some(
            "{\"time\":0,\"name\":\"Hi\",\"type\":\"KeyPress\",\"data\":{\"key\":\"KeyA\"}}"
                .to_string()
        )
    );
}

#[test]
fn empty_name_value_stays_an_empty_string() {
    let raw = "tv_sec: 0, tv_nsec: 0, name: , event_type: KeyPress(KeyA)";
    assert_eq!(
        parse_event_string(raw),
        Some(
            "{\"time\":0,\"name\":\"\",\"type\":\"KeyPress\",\"data\":{\"key\":\"KeyA\"}}"
                .to_string()
        )
    );
}

#[test]
fn name_with_special_characters_is_escaped() {
    let raw = "tv_sec: 0, tv_nsec: 0, name: \"A\"B\", event_type: KeyPress(KeyA)";
    assert_eq!(
        parse_event_string(raw),
        Some(
            "{\"time\":0,\"name\":\"A\\\"B\",\"type\":\"KeyPress\",\"data\":{\"key\":\"KeyA\"}}"
                .to_string()
        )
    );
    let raw = "tv_sec: 0, tv_nsec: 0, name: \"A\tB\u{1}\", event_type: KeyPress(KeyA)";
    assert_eq!(
        parse_event_string(raw),
        Some(
            "{\"time\":0,\"name\":\"A\\tB\\u0001\",\"type\":\"KeyPress\",\
             \"data\":{\"key\":\"KeyA\"}}"
                .to_string()
        )
    );
}

#[test]
fn structured_decode_exposes_the_fields() {
    let raw = "Event { time: SystemTime { tv_sec: 2, tv_nsec: 7000000 }, \
               name: \"n\", event_type: KeyPress(KeyZ) }";
    let e = parse_event(raw).expect("well-formed capture text must decode");
    assert_eq!(e.time_ms, 2007);
    assert_eq!(e.name.as_deref(), Some("n"));
    match &e.data {
        EventData::KeyPress { key } => assert_eq!(key, "KeyZ"),
        _ => panic!("wrong kind decoded"),
    }
}

#[test]
fn serializing_a_constructed_event() {
    let e = CanonicalEvent {
        time_ms: 42,
        name: Some("h\u{e9}llo".to_string()),
        data: EventData::ButtonRelease { button: "Left".to_string() },
    };
    assert_eq!(
        serialize_event(&e),
        "{\"time\":42,\"name\":\"h\u{e9}llo\",\"type\":\"ButtonRelease\",\
         \"data\":{\"button\":\"Left\"}}"
    );
    let e = CanonicalEvent {
        time_ms: 0,
        name: None,
        data: EventData::MouseMove { x_text: "10".to_string(), y_text: "0.5".to_string() },
    };
    assert_eq!(
        serialize_event(&e),
        "{\"time\":0,\"name\":null,\"type\":\"MouseMove\",\
         \"data\":{\"x\":10,\"y\":0.5},\"auto_builded\":true}"
    );
}
