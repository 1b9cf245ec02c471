//! VCF record chromosome (`CHROM`) values and their parsers.

use vstd::prelude::*;
use crate::error::DecodeError;

verus! {

/// The raw text of a missing field.
pub open spec fn spec_missing_field() -> Seq<char> {
    seq!['.']
}

/// A VCF record chromosome (`CHROM`).
#[derive(Clone, Debug)]
pub enum Chromosome {
    /// A reference sequence name.
    Name(String),
    /// A symbol, written `<...>` in the raw text.
    Symbol(String),
}

/// An error returned when a raw chromosome fails to parse.
#[derive(Clone, Copy, Debug, PartialEq, Eq, Structural)]
pub enum ParseError {
    /// The input is empty.
    Empty,
    /// The input is the missing-field marker.
    Missing,
    /// The input is invalid.
    Invalid,
}

impl PartialEq for Chromosome {
    fn eq(&self, other: &Chromosome) -> (r: bool) {
        match (self, other) {
            (Chromosome::Name(a), Chromosome::Name(b)) => *a == *b,
            (Chromosome::Symbol(a), Chromosome::Symbol(b)) => *a == *b,
            _ => false,
        }
    }
}

impl vstd::std_specs::cmp::PartialEqSpecImpl for Chromosome {
    open spec fn obeys_eq_spec() -> bool {
        true
    }

    open spec fn eq_spec(&self, other: &Chromosome) -> bool {
        match (self, other) {
            (Chromosome::Name(a), Chromosome::Name(b)) => a@ == b@,
            (Chromosome::Symbol(a), Chromosome::Symbol(b)) => a@ == b@,
            _ => false,
        }
    }
}

impl Eq for Chromosome {}

/// Whether a character may appear in a reference sequence name.
pub open spec fn spec_is_valid_name_char(c: char) -> bool {
    &&& 0x21 <= c as u32
    &&& c as u32 <= 0x7e
    &&& c != '\\'
    &&& c != ','
    &&& c != '"'
    &&& c != '`'
    &&& c != '\''
    &&& c != '('
    &&& c != ')'
    &&& c != '['
    &&& c != ']'
    &&& c != '{'
    &&& c != '}'
    &&& c != '<'
    &&& c != '>'
}

/// Whether a string is a well-formed reference sequence name: nonempty,
/// not starting with `*` or `=`, made of valid name characters only.
pub open spec fn spec_is_valid_name(s: Seq<char>) -> bool {
    &&& s.len() > 0
    &&& s[0] != '*'
    &&& s[0] != '='
    &&& forall|i: int| 0 <= i < s.len() ==> spec_is_valid_name_char(#[trigger] s[i])
}

/// Whether the raw text has the `<...>` shape of a symbol.
pub open spec fn spec_is_symbol_text(s: Seq<char>) -> bool {
    s.len() >= 2 && s[0] == '<' && s[s.len() - 1] == '>'
}

/// Checks one character of a reference sequence name.
pub fn is_valid_name_char(c: char) -> (r: bool)
    ensures
        r == spec_is_valid_name_char(c),
{
    let n = c as u32;
    n >= 0x21 && n <= 0x7e && c != '\\' && c != ',' && c != '"' && c != '`' && c != '\''
        && c != '(' && c != ')' && c != '[' && c != ']' && c != '{' && c != '}' && c != '<'
        && c != '>'
}

/// Checks a whole reference sequence name.
pub fn is_valid_name(s: &str) -> (r: bool)
    ensures
        r == spec_is_valid_name(s@),
{
    let len = s.unicode_len();

    if len == 0 {
        return false;
    }

    let c0 = s.get_char(0);

    if c0 == '*' || c0 == '=' || !is_valid_name_char(c0) {
        return false;
    }

    let mut i: usize = 1;

    while i < len
        invariant
            1 <= i <= len,
            len == s@.len(),
            s@[0] != '*' && s@[0] != '=',
            forall|j: int| 0 <= j < i ==> spec_is_valid_name_char(#[trigger] s@[j]),
        decreases len - i,
    {
        if !is_valid_name_char(s.get_char(i)) {
            return false;
        }
        i = i + 1;
    }

    true
}

impl Chromosome {
    /// Parses a raw `CHROM` field.
    ///
    /// An empty input and the missing-field marker are rejected with their
    /// own errors; `<...>` yields a symbol carrying the inner text; any
    /// other input must be a valid reference sequence name.
    pub fn parse(s: &str) -> (res: Result<Chromosome, ParseError>)
        ensures
            ({
                let cs = s@;
                if cs.len() == 0 {
                    res == Err::<Chromosome, ParseError>(ParseError::Empty)
                } else if cs == spec_missing_field() {
                    res == Err::<Chromosome, ParseError>(ParseError::Missing)
                } else if spec_is_symbol_text(cs) {
                    res matches Ok(Chromosome::Symbol(t)) && t@ == cs.subrange(
                        1,
                        cs.len() - 1,
                    )
                } else if spec_is_valid_name(cs) {
                    res matches Ok(Chromosome::Name(n)) && n@ == cs
                } else {
                    res == Err::<Chromosome, ParseError>(ParseError::Invalid)
                }
            }),
    {
        let len = s.unicode_len();

        if len == 0 {
            return Err(ParseError::Empty);
        }

        if len == 1 && s.get_char(0) == '.' {
            proof {
                assert(s@ =~= spec_missing_field());
            }
            return Err(ParseError::Missing);
        }

        assert(s@ != spec_missing_field());

        if len >= 2 && s.get_char(0) == '<' && s.get_char(len - 1) == '>' {
            let t = s.substring_char(1, len - 1);
            return Ok(Chromosome::Symbol(t.to_owned()));
        }

        if is_valid_name(s) {
            Ok(Chromosome::Name(s.to_owned()))
        } else {
            Err(ParseError::Invalid)
        }
    }

    /// The raw text of the chromosome: the name itself, or the symbol
    /// wrapped in angle brackets.
    pub fn to_text(&self) -> (r: String)
        ensures
            match self {
                Chromosome::Name(n) => r@ == n@,
                Chromosome::Symbol(sym) => r@ == seq!['<'] + sym@ + seq!['>'],
            },
    {
        match self {
            Chromosome::Name(name) => name.clone(),
            Chromosome::Symbol(sym) => {
                proof {
                    reveal_strlit("<");
                    reveal_strlit(">");
                }
                let mut out = String::from_str("<");
                out.append(sym.as_str());
                out.append(">");
                proof {
                    assert(out@ =~= seq!['<'] + sym@ + seq!['>']);
                }
                out
            },
        }
    }
}

impl core::str::FromStr for Chromosome {
    type Err = ParseError;

    fn from_str(s: &str) -> Result<Chromosome, ParseError> {
        Chromosome::parse(s)
    }
}

/// Parses a raw `CHROM` field into a caller-owned scratch value, reusing it
/// when it already holds the parsed text.
///
/// Unlike [`Chromosome::parse`], this record-reader variant accepts the
/// missing-field marker as a name, and it accepts any input that the
/// scratch value already equals as a name.
pub fn parse_chromosome(s: &str, chromosome: &mut Chromosome) -> (res: Result<
    (),
    DecodeError,
>)
    ensures
        ({
            let cs = s@;
            if spec_is_symbol_text(cs) {
                &&& res == Ok::<(), DecodeError>(())
                &&& *final(chromosome) matches Chromosome::Symbol(t) && t@ == cs.subrange(
                    1,
                    cs.len() - 1,
                )
            } else if (*old(chromosome) matches Chromosome::Name(n) && n@ == cs) {
                res == Ok::<(), DecodeError>(()) && *final(chromosome) == *old(chromosome)
            } else if spec_is_valid_name(cs) {
                &&& res == Ok::<(), DecodeError>(())
                &&& *final(chromosome) matches Chromosome::Name(n) && n@ == cs
            } else {
                res == Err::<(), DecodeError>(DecodeError::InvalidData)
                    && *final(chromosome) == *old(chromosome)
            }
        }),
{
    let len = s.unicode_len();

    if len >= 2 && s.get_char(0) == '<' && s.get_char(len - 1) == '>' {
        let t = s.substring_char(1, len - 1);
        *chromosome = Chromosome::Symbol(t.to_owned());
        return Ok(());
    }

    let already_named = match &*chromosome {
        Chromosome::Name(name) => *name == s.to_owned(),
        Chromosome::Symbol(_) => false,
    };

    if already_named {
        return Ok(());
    }

    if is_valid_name(s) {
        *chromosome = Chromosome::Name(s.to_owned());
        Ok(())
    } else {
        Err(DecodeError::InvalidData)
    }
}

} // verus!
