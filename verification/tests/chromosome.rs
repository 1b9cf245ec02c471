use noodles_codecs::chromosome::{is_valid_name, parse_chromosome, Chromosome, ParseError};
use noodles_codecs::error::DecodeError;

#[test]
fn test_parse_chromosome() {
    let mut chromosome = Chromosome::Name(String::from("."));

    parse_chromosome("sq0", &mut chromosome).unwrap();
    assert_eq!(chromosome, Chromosome::Name(String::from("sq0")));

    parse_chromosome("<sq0>", &mut chromosome).unwrap();
    assert_eq!(chromosome, Chromosome::Symbol(String::from("sq0")));

    assert!(matches!(
        parse_chromosome("", &mut chromosome),
        Err(DecodeError::InvalidData),
    ));
}

#[test]
fn test_is_valid_name() {
    assert!(is_valid_name("sq0"));

    assert!(!is_valid_name(""));
    assert!(!is_valid_name("sq 0"));
    assert!(!is_valid_name("sq[0]"));
    assert!(!is_valid_name(">sq0"));
    assert!(!is_valid_name("*sq0"));
    assert!(!is_valid_name("=sq0"));
}

#[test]
fn test_fmt() {
    assert_eq!(Chromosome::Name(String::from("sq0")).to_text(), "sq0");
    assert_eq!(Chromosome::Symbol(String::from("sq0")).to_text(), "<sq0>");
}

#[test]
fn test_from_str() {
    assert_eq!("sq0".parse(), Ok(Chromosome::Name(String::from("sq0"))));
    assert_eq!("<sq0>".parse(), Ok(Chromosome::Symbol(String::from("sq0"))));

    assert_eq!("".parse::<Chromosome>(), Err(ParseError::Empty));
    assert_eq!(".".parse::<Chromosome>(), Err(ParseError::Missing));
    assert_eq!("sq 0".parse::<Chromosome>(), Err(ParseError::Invalid));
    assert_eq!("sq[0]".parse::<Chromosome>(), Err(ParseError::Invalid));
    assert_eq!(">sq0".parse::<Chromosome>(), Err(ParseError::Invalid));
    assert_eq!("*sq0".parse::<Chromosome>(), Err(ParseError::Invalid));
    assert_eq!("=sq0".parse::<Chromosome>(), Err(ParseError::Invalid));
}
