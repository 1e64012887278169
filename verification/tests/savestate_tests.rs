use gbc::savestate::{frame, unframe, MAGIC, VERSION};

#[test]
fn rejects_bad_header() {
    assert!(unframe(&[0, 1, 2, 3, 4, 5, 6, 7]).is_none());
    assert!(unframe(&[]).is_none());
}

#[test]
fn frame_prefixes_magic_and_version() {
    let out = frame(&[0xAA, 0xBB]);
    assert_eq!(out, vec![0x53, 0x43, 0x42, 0x47, 0x01, 0x00, 0x00, 0x00, 0xAA, 0xBB]);
    assert_eq!(&out[0..4], &MAGIC.to_le_bytes());
    assert_eq!(&out[4..8], &VERSION.to_le_bytes());
}

#[test]
fn frame_then_unframe_gives_payload_back() {
    let payload = vec![1u8, 2, 3, 4, 5, 6, 7, 8, 9];
    let framed = frame(&payload);
    assert_eq!(unframe(&framed), Some(payload));
    assert_eq!(unframe(&frame(&[])), Some(vec![]));
}

#[test]
fn rejects_wrong_version() {
    let mut framed = frame(&[1, 2, 3]);
    framed[4] = 2;
    assert!(unframe(&framed).is_none());
    let mut framed = frame(&[1, 2, 3]);
    framed[0] = 0;
    assert!(unframe(&framed).is_none());
}
