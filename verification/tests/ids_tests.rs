use habit_slot::ids::{id_to_string, parse_id};

#[test]
fn identifier_text_is_hyphenated_lower_hex() {
    let id: u128 = 0x0123_4567_89ab_cdef_fedc_ba98_7654_3210;
    let text = id_to_string(id);
    assert_eq!(text, "01234567-89ab-cdef-fedc-ba9876543210");
    assert_eq!(parse_id(&text), Some(id));
    assert_eq!(id_to_string(0), "00000000-0000-0000-0000-000000000000");
    assert_eq!(parse_id("not an id"), None);
}
