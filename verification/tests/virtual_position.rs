use noodles_codecs::virtual_position::{compressed_offset, make, uncompressed_offset};

#[test]
fn test_compressed_offset() {
    assert_eq!(compressed_offset(88384945211), 1348647);
    assert_eq!(compressed_offset(188049630896), 2869409);
    assert_eq!(compressed_offset(26155658182977), 399103671);
}

#[test]
fn test_uncompressed_offset() {
    assert_eq!(uncompressed_offset(88384945211), 15419);
    assert_eq!(uncompressed_offset(188049630896), 42672);
    assert_eq!(uncompressed_offset(26155658182977), 321);
}

#[test]
fn test_make_round_trip() {
    let vp: u64 = 88384945211;
    assert_eq!(make(compressed_offset(vp), uncompressed_offset(vp)), vp);
    assert_eq!(make(1348647, 15419), vp);
}
