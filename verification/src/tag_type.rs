//! The type code of a SAM record data field value.

use vstd::prelude::*;
use crate::error::DecodeError;

verus! {

/// A SAM record data field value type.
#[derive(Clone, Copy, Debug, PartialEq, Eq, Structural)]
pub enum Type {
    Character,
    Int32,
    Float,
    String,
    Hex,
    Array,
}

/// The value type a type-code byte stands for, if any.
pub open spec fn spec_type_of_byte(b: u8) -> Option<Type> {
    if b == 0x41 {
        Option::Some(Type::Character)
    } else if b == 0x69 {
        Option::Some(Type::Int32)
    } else if b == 0x66 {
        Option::Some(Type::Float)
    } else if b == 0x5a {
        Option::Some(Type::String)
    } else if b == 0x48 {
        Option::Some(Type::Hex)
    } else if b == 0x42 {
        Option::Some(Type::Array)
    } else {
        Option::None
    }
}

/// Parses a value type from the first byte of `src`; the caller consumes
/// that one byte on success or on an invalid code.
///
/// An empty input is an unexpected end of stream; an unassigned code byte
/// is invalid data.
pub fn parse_type(src: &[u8]) -> (res: Result<Type, DecodeError>)
    ensures
        src@.len() == 0 ==> res == Err::<Type, DecodeError>(DecodeError::UnexpectedEof),
        src@.len() > 0 ==> match spec_type_of_byte(src@[0]) {
            Option::Some(t) => res == Ok::<Type, DecodeError>(t),
            Option::None => res == Err::<Type, DecodeError>(DecodeError::InvalidData),
        },
{
    if src.len() == 0 {
        return Err(DecodeError::UnexpectedEof);
    }

    let n = src[0];

    match n {
        0x41 => Ok(Type::Character),
        0x69 => Ok(Type::Int32),
        0x66 => Ok(Type::Float),
        0x5a => Ok(Type::String),
        0x48 => Ok(Type::Hex),
        0x42 => Ok(Type::Array),
        _ => Err(DecodeError::InvalidData),
    }
}

} // verus!
