use dominion::protocol::Tag;

#[test]
fn join_tag_encodes_little_endian() {
    assert_eq!(Tag::Join.into_bytes(), [1, 0, 0, 0]);
}

#[test]
fn join_tag_decodes() {
    assert_eq!(Tag::try_from_bytes([1, 0, 0, 0]), Ok(Tag::Join));
}

#[test]
fn unknown_tag_is_rejected_with_its_value() {
    assert_eq!(Tag::try_from_bytes([0, 0, 0, 0]), Err(0));
    assert_eq!(Tag::try_from_bytes([0, 1, 0, 0]), Err(256));
    assert_eq!(Tag::try_from_bytes([1, 0, 0, 1]), Err(16777217));
    assert_eq!(Tag::try_from_bytes([255, 255, 255, 255]), Err(u32::MAX));
}

#[test]
fn tag_round_trip() {
    assert_eq!(Tag::try_from_bytes(Tag::Join.into_bytes()), Ok(Tag::Join));
}
