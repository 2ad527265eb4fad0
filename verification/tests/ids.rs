use openwhatsapp::ids::{id_text, new_id, parse_id};

#[test]
fn id_text_is_hyphenated_lowercase_hex() {
    assert_eq!(
        id_text(0x0123_4567_89ab_cdef_0123_4567_89ab_cdef),
        "01234567-89ab-cdef-0123-456789abcdef"
    );
    assert_eq!(id_text(0), "00000000-0000-0000-0000-000000000000");
}

#[test]
fn ids_parse_back_from_their_text() {
    let id = new_id();

    assert_eq!(parse_id(&id_text(id)), Some(id));
    assert_eq!(parse_id("0123456789ABCDEF0123456789abcdef"), Some(0x0123_4567_89ab_cdef_0123_4567_89ab_cdef));
    assert_eq!(parse_id("nope"), None);
}

#[test]
fn different_ids_have_different_texts() {
    assert_ne!(id_text(1), id_text(1 << 64));
    assert_eq!(id_text(u128::MAX), "ffffffff-ffff-ffff-ffff-ffffffffffff");
}

#[test]
fn parse_id_accepts_the_uuid_formats() {
    let v: u128 = 0x550e8400_e29b_41d4_a716_446655440000;
    assert_eq!(parse_id("550e8400-e29b-41d4-a716-446655440000"), Some(v));
    assert_eq!(parse_id("550E8400-E29B-41D4-A716-446655440000"), Some(v));
    assert_eq!(parse_id("550e8400e29b41d4a716446655440000"), Some(v));
    assert_eq!(parse_id("{550e8400-e29b-41d4-a716-446655440000}"), Some(v));
    assert_eq!(parse_id("URN:uuid:550e8400-e29b-41d4-a716-446655440000"), Some(v));
    assert_eq!(parse_id("550e8400-e29b-41d4-a716-44665544000g"), None);
    assert_eq!(parse_id("550e8400-e29b-41d4-a716_446655440000"), None);
    assert_eq!(parse_id("550e8400-e29b"), None);
    assert_eq!(parse_id(""), None);
}
