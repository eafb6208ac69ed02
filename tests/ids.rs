use event_log_tsv::{uuid_from_text, uuid_to_text};

#[test]
fn uuid_canonical_form_is_read() {
    assert_eq!(
        uuid_from_text("a1a2a3a4-b1b2-c1c2-d1d2-d3d4d5d6d7d8"),
        Some(0xa1a2a3a4b1b2c1c2d1d2d3d4d5d6d7d8u128)
    );
    assert_eq!(
        uuid_from_text("A1A2A3A4-B1B2-C1C2-D1D2-D3D4D5D6D7D8"),
        Some(0xa1a2a3a4b1b2c1c2d1d2d3d4d5d6d7d8u128)
    );
}

#[test]
fn uuid_other_forms_are_refused() {
    assert_eq!(uuid_from_text("a1a2a3a4b1b2c1c2d1d2d3d4d5d6d7d8"), None);
    assert_eq!(uuid_from_text("{a1a2a3a4-b1b2-c1c2-d1d2-d3d4d5d6d7d8}"), None);
    assert_eq!(uuid_from_text("urn:uuid:a1a2a3a4-b1b2-c1c2-d1d2-d3d4d5d6d7d8"), None);
    assert_eq!(uuid_from_text("g1a2a3a4-b1b2-c1c2-d1d2-d3d4d5d6d7d8"), None);
    assert_eq!(uuid_from_text(""), None);
}

#[test]
fn uuid_text_is_lower_case_hyphenated() {
    assert_eq!(
        uuid_to_text(0xa1a2a3a4b1b2c1c2d1d2d3d4d5d6d7d8u128),
        "a1a2a3a4-b1b2-c1c2-d1d2-d3d4d5d6d7d8"
    );
    assert_eq!(uuid_to_text(0), "00000000-0000-0000-0000-000000000000");
}
