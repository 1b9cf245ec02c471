use noodles_codecs::error::DecodeError;
use noodles_codecs::tag_type::{parse_type, Type};

#[test]
fn test_parse_type() {
    assert_eq!(parse_type(&b"i"[..]), Ok(Type::Int32));

    assert!(matches!(parse_type(&b""[..]), Err(DecodeError::UnexpectedEof)));

    assert!(matches!(parse_type(&b"n"[..]), Err(DecodeError::InvalidData)));
}

#[test]
fn test_parse_type_all_codes() {
    assert_eq!(parse_type(&b"A"[..]), Ok(Type::Character));
    assert_eq!(parse_type(&b"f"[..]), Ok(Type::Float));
    assert_eq!(parse_type(&b"Z"[..]), Ok(Type::String));
    assert_eq!(parse_type(&b"H"[..]), Ok(Type::Hex));
    assert_eq!(parse_type(&b"B"[..]), Ok(Type::Array));
}
