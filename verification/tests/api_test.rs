use kanban_orchestrator::api::event_id_text;

#[test]
fn event_id_is_shown_as_uuid() {
    let bytes: Vec<u8> = vec![
        0x55, 0x0e, 0x84, 0x00, 0xe2, 0x9b, 0x41, 0xd4, 0xa7, 0x16, 0x44, 0x66, 0x55, 0x44, 0x00,
        0x00,
    ];
    assert_eq!(event_id_text(&bytes), "550e8400-e29b-41d4-a716-446655440000");
}

#[test]
fn event_id_of_wrong_length_is_unknown() {
    assert_eq!(event_id_text(&vec![1, 2, 3]), "unknown");
    assert_eq!(event_id_text(&vec![]), "unknown");
}
