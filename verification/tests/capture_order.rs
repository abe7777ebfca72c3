use input_wire::capture::process_events;

#[test]
fn messages_keep_the_order_of_the_observed_events() {
    let raws = vec![
        "tv_sec: 1, tv_nsec: 0, name: None, event_type: KeyPress(KeyA)".to_string(),
        "garbage the capture layer printed".to_string(),
        "tv_sec: 2, tv_nsec: 0, name: None, event_type: KeyRelease(KeyA)".to_string(),
        "tv_sec: x, tv_nsec: 0, name: None, event_type: KeyPress(KeyB)".to_string(),
        "tv_sec: 3, tv_nsec: 0, name: None, event_type: ButtonPress(Right)".to_string(),
    ];
    let out = process_events(&raws);
    assert_eq!(
        out,
        vec![
            "{\"time\":1000,\"name\":null,\"type\":\"KeyPress\",\"data\":{\"key\":\"KeyA\"}}"
                .to_string(),
            "{\"time\":2000,\"name\":null,\"type\":\"KeyRelease\",\"data\":{\"key\":\"KeyA\"}}"
                .to_string(),
            "{\"time\":3000,\"name\":null,\"type\":\"ButtonPress\",\"data\":{\"button\":\"Right\"}}"
                .to_string(),
        ]
    );
}

#[test]
fn a_batch_with_no_decodable_event_yields_no_messages() {
    let raws = vec!["".to_string(), "name: None, event_type".to_string()];
    let out = process_events(&raws);
    assert!(out.is_empty());
}
