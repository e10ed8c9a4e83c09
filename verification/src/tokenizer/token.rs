//! Tokens: a location plus one of five kinds of token data.  The
//! predicates at the end say how a token relates to the source text it was
//! read from; the token stream guarantees them for every token it emits.

use vstd::prelude::*;
use vstd::string::StrSliceExecFns;
use super::location::Location;

verus! {

#[derive(Debug)]
pub enum TokenData {
    Identifier(String),
    NumericLiteral(String),
    Symbol(String),
    Indentation(String),
    EndOfFile,
}

#[derive(Debug)]
pub struct Token {
    pub location: Location,
    pub data: TokenData,
}

impl TokenData {
    /// The text this token stands for; the end-of-file token renders as a
    /// single space.
    pub open spec fn spec_text(&self) -> Seq<char> {
        match self {
            TokenData::Identifier(s) => s@,
            TokenData::NumericLiteral(s) => s@,
            TokenData::Symbol(s) => s@,
            TokenData::Indentation(s) => s@,
            TokenData::EndOfFile => seq![' '],
        }
    }

    pub fn extract_text(&self) -> (r: &str)
        ensures
            r@ == self.spec_text(),
    {
        match self {
            TokenData::Identifier(s) => s.as_str(),
            TokenData::NumericLiteral(s) => s.as_str(),
            TokenData::Symbol(s) => s.as_str(),
            TokenData::Indentation(s) => s.as_str(),
            TokenData::EndOfFile => {
                proof {
                    reveal_strlit(" ");
                    assert(" "@ =~= seq![' ']);
                }
                " "
            },
        }
    }

    /// An identical copy.
    pub fn duplicate(&self) -> (r: TokenData)
        ensures
            r == *self,
    {
        match self {
            TokenData::Identifier(s) => TokenData::Identifier(s.clone()),
            TokenData::NumericLiteral(s) => TokenData::NumericLiteral(s.clone()),
            TokenData::Symbol(s) => TokenData::Symbol(s.clone()),
            TokenData::Indentation(s) => TokenData::Indentation(s.clone()),
            TokenData::EndOfFile => TokenData::EndOfFile,
        }
    }
}

impl Token {
    pub fn new(location: Location, data: TokenData) -> (r: Self)
        ensures
            r.location == location,
            r.data == data,
    {
        Token { location, data }
    }

    pub open spec fn spec_text(&self) -> Seq<char> {
        self.data.spec_text()
    }

    pub fn extract_text(&self) -> (r: &str)
        ensures
            r@ == self.spec_text(),
    {
        self.data.extract_text()
    }

    /// An identical copy.
    pub fn duplicate(&self) -> (r: Token)
        ensures
            r == *self,
    {
        Token { location: self.location.duplicate(), data: self.data.duplicate() }
    }

    /// Whether this token's text is exactly `s`.
    pub fn text_is(&self, s: &str) -> (r: bool)
        ensures
            r == (self.spec_text() == s@),
    {
        str_eq(self.extract_text(), s)
    }
}

/// Character-by-character equality of two string slices.
pub fn str_eq(a: &str, b: &str) -> (r: bool)
    ensures
        r == (a@ == b@),
{
    let na = a.unicode_len();
    let nb = b.unicode_len();
    if na != nb {
        return false;
    }
    let mut i: usize = 0;
    while i < na
        invariant
            na == a@.len(),
            na == b@.len(),
            i <= na,
            forall|j: int| 0 <= j < i ==> a@[j] == b@[j],
        decreases na - i,
    {
        if a.get_char(i) != b.get_char(i) {
            return false;
        }
        i = i + 1;
    }
    proof {
        assert(a@ =~= b@);
    }
    true
}

/// A token read from `src` occupies the characters at its recorded index:
/// its text is the slice of the source beginning there.  The end-of-file
/// token occupies no characters.
pub open spec fn matches_source(t: Token, src: Seq<char>) -> bool {
    !(t.data is EndOfFile) ==> {
        let text = t.spec_text();
        &&& text.len() >= 1
        &&& t.location.index + text.len() <= src.len()
        &&& src.subrange(t.location.index as int, t.location.index + text.len()) == text
    }
}

/// An indentation token stands directly after a newline, consists of
/// spaces and carriage returns only, and is followed by the start of a
/// non-blank line (or by the end of the source).
pub open spec fn indentation_shaped(t: Token, src: Seq<char>) -> bool {
    t.data is Indentation ==> {
        let text = t.spec_text();
        let end = t.location.index + text.len();
        &&& t.location.index >= 1
        &&& end <= src.len()
        &&& src[t.location.index - 1] == '\n'
        &&& forall|i: int| 0 <= i < text.len() ==> text[i] == ' ' || text[i] == '\r'
        &&& end == src.len() || (src[end] != ' ' && src[end] != '\r' && src[end] != '\n')
    }
}

} // verus!
