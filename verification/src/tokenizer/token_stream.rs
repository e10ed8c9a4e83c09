//! The tokenizer proper.  `TokenStream` pulls characters from a
//! `LocationTrack` and produces tokens one at a time, ending with exactly
//! one end-of-file token.  Every token it hands out matches the source at
//! its recorded index (`matches_source`), indentation tokens stand only at
//! the starts of non-blank lines (`indentation_shaped`), and successive
//! tokens never overlap.

use vstd::prelude::*;
use super::location::LocationTrack;
use super::token::Token;
use super::token::TokenData;
use super::token::matches_source;
use super::token::indentation_shaped;
use crate::error::GenericError;

verus! {

/// A letter or underscore: what may begin an identifier.
pub open spec fn spec_ident_start(c: char) -> bool {
    ('a' <= c && c <= 'z') || ('A' <= c && c <= 'Z') || c == '_'
}

/// What may continue an identifier.
pub open spec fn spec_ident_continue(c: char) -> bool {
    spec_ident_start(c) || spec_digit(c)
}

pub open spec fn spec_digit(c: char) -> bool {
    '0' <= c && c <= '9'
}

fn is_ident_start(c: char) -> (r: bool)
    ensures
        r == spec_ident_start(c),
{
    ('a' <= c && c <= 'z') || ('A' <= c && c <= 'Z') || c == '_'
}

fn is_ident_continue(c: char) -> (r: bool)
    ensures
        r == spec_ident_continue(c),
{
    is_ident_start(c) || is_digit(c)
}

fn is_digit(c: char) -> (r: bool)
    ensures
        r == spec_digit(c),
{
    '0' <= c && c <= '9'
}

/// A space, carriage return, or newline.
pub open spec fn spec_blank(c: char) -> bool {
    c == ' ' || c == '\r' || c == '\n'
}

/// The characters of `src` from `lo` (inclusive) to `hi` (exclusive)
/// carry no token: scanning them from the given state (inside a comment
/// or not) meets only whitespace and comments.  A comment runs from
/// `//` to the next newline or the end of the range.
pub open spec fn gap_state_ok(src: Seq<char>, lo: int, hi: int, in_comment: bool) -> bool
    decreases hi - lo,
{
    if lo >= hi {
        true
    } else if in_comment {
        if src[lo] == '\n' {
            gap_state_ok(src, lo + 1, hi, false)
        } else {
            gap_state_ok(src, lo + 1, hi, true)
        }
    } else if spec_blank(src[lo]) {
        gap_state_ok(src, lo + 1, hi, false)
    } else if src[lo] == '/' && lo + 1 < hi && src[lo + 1] == '/' {
        gap_state_ok(src, lo + 2, hi, true)
    } else {
        false
    }
}

/// The characters between two tokens are only whitespace and comments.
pub open spec fn gap_ok(src: Seq<char>, lo: int, hi: int) -> bool {
    gap_state_ok(src, lo, hi, false)
}

/// A run of blanks is a gap.
proof fn lemma_gap_blanks(src: Seq<char>, lo: int, hi: int)
    requires
        forall|i: int| lo <= i < hi ==> spec_blank(#[trigger] src[i]),
    ensures
        gap_ok(src, lo, hi),
    decreases hi - lo,
{
    if lo < hi {
        lemma_gap_blanks(src, lo + 1, hi);
    }
}

/// Inside a comment, any newline-free run is swallowed.
proof fn lemma_gap_in_comment(src: Seq<char>, lo: int, hi: int)
    requires
        forall|i: int| lo <= i < hi ==> #[trigger] src[i] != '\n',
    ensures
        gap_state_ok(src, lo, hi, true),
    decreases hi - lo,
{
    if lo < hi {
        lemma_gap_in_comment(src, lo + 1, hi);
    }
}

/// A comment (`//` then anything newline-free) is a gap.
proof fn lemma_gap_comment(src: Seq<char>, lo: int, hi: int)
    requires
        lo + 2 <= hi <= src.len(),
        src[lo] == '/',
        src[lo + 1] == '/',
        forall|i: int| lo + 2 <= i < hi ==> #[trigger] src[i] != '\n',
    ensures
        gap_ok(src, lo, hi),
{
    lemma_gap_in_comment(src, lo + 2, hi);
}

/// Scanning that accepts a range from outside a comment also accepts it
/// from inside one: the comment state only swallows more.
proof fn lemma_gap_weaken(src: Seq<char>, lo: int, hi: int)
    requires
        gap_state_ok(src, lo, hi, false),
    ensures
        gap_state_ok(src, lo, hi, true),
    decreases hi - lo,
{
    if lo < hi {
        if spec_blank(src[lo]) {
            lemma_gap_weaken(src, lo + 1, hi);
        } else {
            assert(src[lo] == '/' && lo + 1 < hi && src[lo + 1] == '/');
            lemma_gap_in_comment_prefix(src, lo + 1, hi);
        }
    }
}

/// From inside a comment, stepping over a newline-free prefix into a
/// state that still scans as a comment keeps the whole range accepted.
proof fn lemma_gap_in_comment_prefix(src: Seq<char>, lo: int, hi: int)
    requires
        lo < hi,
        src[lo] != '\n',
        gap_state_ok(src, lo + 1, hi, true),
    ensures
        gap_state_ok(src, lo, hi, true),
{
}

/// Two adjacent gaps make one gap.
proof fn lemma_gap_compose(src: Seq<char>, a: int, b: int, c: int)
    requires
        a <= b <= c,
        gap_ok(src, a, b),
        gap_ok(src, b, c),
    ensures
        gap_ok(src, a, c),
{
    lemma_gap_compose_state(src, a, b, c, false);
}

/// As `lemma_gap_compose`, from either starting state.
proof fn lemma_gap_compose_state(src: Seq<char>, a: int, b: int, c: int, st: bool)
    requires
        a <= b <= c,
        gap_state_ok(src, a, b, st),
        gap_ok(src, b, c),
    ensures
        gap_state_ok(src, a, c, st),
    decreases b - a,
{
    if a >= b {
        if st {
            lemma_gap_weaken(src, b, c);
        }
    } else if st {
        lemma_gap_compose_state(src, a + 1, b, c, src[a as int] != '\n');
    } else if spec_blank(src[a]) {
        lemma_gap_compose_state(src, a + 1, b, c, false);
    } else {
        assert(src[a] == '/' && a + 1 < b && src[a + 1] == '/');
        lemma_gap_compose_state(src, a + 2, b, c, true);
    }
}

/// Round-trip shape of a whole token sequence read from `src`: every
/// token's text is the source slice at its recorded index, successive
/// tokens never overlap, everything before, between and after the tokens
/// is whitespace or comment text (`gap_ok`), indentation tokens stand
/// only at the starts of non-blank lines, and the end-of-file token is
/// unique, last, and placed at the end of the source.
pub open spec fn stream_well_formed(toks: Seq<Token>, src: Seq<char>) -> bool {
    &&& forall|i: int| 0 <= i < toks.len() ==> matches_source(#[trigger] toks[i], src)
    &&& forall|i: int| 0 <= i < toks.len() ==> indentation_shaped(#[trigger] toks[i], src)
    &&& forall|i: int| 0 <= i && i + 1 < toks.len() ==> #[trigger] toks[i].location.index
        + toks[i].spec_text().len() <= toks[i + 1].location.index
    &&& toks.len() >= 1 ==> toks.last().data is EndOfFile
    &&& forall|i: int| 0 <= i < toks.len() - 1 ==> !(#[trigger] toks[i].data is EndOfFile)
    &&& toks.len() >= 1 ==> gap_ok(src, 0, toks[0].location.index as int)
    &&& forall|i: int|
        0 <= i && i + 1 < toks.len() ==> gap_ok(
            src,
            #[trigger] toks[i].location.index + toks[i].spec_text().len(),
            toks[i + 1].location.index as int,
        )
    &&& toks.len() >= 1 ==> toks.last().location.index == src.len()
}

/// In a well-formed token sequence, an indentation token stands exactly
/// at the start of a non-blank line: directly after a newline, made of
/// spaces and carriage returns, with the line's first dark character (or
/// the end of the source) right after it.
pub proof fn lemma_indentation_at_line_starts(toks: Seq<Token>, src: Seq<char>, i: int)
    requires
        stream_well_formed(toks, src),
        0 <= i < toks.len(),
        toks[i].data is Indentation,
    ensures
        toks[i].location.index >= 1,
        src[toks[i].location.index - 1] == '\n',
        forall|j: int|
            0 <= j < toks[i].spec_text().len() ==> toks[i].spec_text()[j] == ' '
                || toks[i].spec_text()[j] == '\r',
{
    assert(indentation_shaped(toks[i], src));
}

pub struct TokenStream {
    pub location_stream: LocationTrack,
    pub cached_next_token: Option<Token>,
    pub sent_eof: bool,
    pub errors: Vec<GenericError>,
}

impl TokenStream {
    /// The characters being tokenized.
    pub open spec fn chars(&self) -> Seq<char> {
        self.location_stream.chars()
    }

    /// Where the next token to be produced can start at the earliest.
    pub open spec fn next_start(&self) -> int {
        match self.cached_next_token {
            Some(t) => t.location.index as int,
            None => self.location_stream.pos as int,
        }
    }

    /// The end-of-file token has been produced and delivered: the stream
    /// is exhausted.
    pub open spec fn eof_done(&self) -> bool {
        self.sent_eof && self.cached_next_token is None
    }

    pub open spec fn wf(&self) -> bool {
        &&& self.location_stream.wf()
        &&& match self.cached_next_token {
            Some(t) => {
                &&& matches_source(t, self.chars())
                &&& indentation_shaped(t, self.chars())
                &&& !(t.data is EndOfFile) ==> t.location.index + t.spec_text().len()
                    == self.location_stream.pos
                &&& t.data is EndOfFile ==> self.sent_eof
                    && t.location.index == self.chars().len()
                &&& self.sent_eof ==> t.data is EndOfFile
            },
            None => true,
        }
        &&& self.sent_eof ==> self.location_stream.pos == self.chars().len()
    }

    pub fn from_source_owned(data: &str, name: &str) -> (r: TokenStream)
        ensures
            r.wf(),
            r.chars() == data@,
            !r.sent_eof,
            r.cached_next_token is None,
            r.next_start() == 0,
    {
        Self::new(LocationTrack::new(data, name))
    }

    pub fn from_source(data: &str, name: &str) -> (r: TokenStream)
        ensures
            r.wf(),
            r.chars() == data@,
            !r.sent_eof,
            r.cached_next_token is None,
            r.next_start() == 0,
    {
        Self::new(LocationTrack::new(data, name))
    }

    pub fn new(location_stream: LocationTrack) -> (r: TokenStream)
        requires
            location_stream.wf(),
        ensures
            r.wf(),
            r.location_stream == location_stream,
            !r.sent_eof,
            r.cached_next_token is None,
    {
        TokenStream {
            location_stream,
            cached_next_token: None,
            sent_eof: false,
            errors: Vec::new(),
        }
    }

    /// Scan one token starting at the cursor, skipping whitespace,
    /// comments and blank lines on the way.
    fn produce(&mut self) -> (r: Option<Token>)
        requires
            old(self).wf(),
            old(self).cached_next_token is None,
            !old(self).sent_eof,
        ensures
            final(self).wf(),
            final(self).cached_next_token is None,
            final(self).chars() == old(self).chars(),
            final(self).sent_eof == (r matches Some(t) && t.data is EndOfFile),
            old(self).errors@.len() <= final(self).errors@.len(),
            final(self).errors@.subrange(0, old(self).errors@.len() as int) == old(self).errors@,
            match r {
                Some(t) => {
                    &&& matches_source(t, old(self).chars())
                    &&& indentation_shaped(t, old(self).chars())
                    &&& gap_ok(
                        old(self).chars(),
                        old(self).location_stream.pos as int,
                        t.location.index as int,
                    )
                    &&& !(t.data is EndOfFile) ==> old(self).location_stream.pos
                        <= t.location.index
                        && t.location.index + t.spec_text().len()
                            == final(self).location_stream.pos
                    &&& t.data is EndOfFile ==> !old(self).sent_eof
                        && t.location.index == old(self).chars().len()
                },
                None => final(self).eof_done(),
            },
    {
        let ghost src = self.chars();
        let n = self.location_stream.nchars;
        loop
            invariant
                self.wf(),
                self.cached_next_token is None,
                src == old(self).chars(),
                self.chars() == src,
                n == src.len(),
                !self.sent_eof,
                !old(self).sent_eof,
                self.errors == old(self).errors,
                old(self).location_stream.pos <= self.location_stream.pos,
                gap_ok(
                    src,
                    old(self).location_stream.pos as int,
                    self.location_stream.pos as int,
                ),
            decreases n - self.location_stream.pos,
        {
            let c = match self.location_stream.peek() {
                Some(c) => c,
                None => {
                    self.sent_eof = true;
                    let location = self.location_stream.next_location();
                    return Some(Token::new(location, TokenData::EndOfFile));
                },
            };
            let start = self.location_stream.pos;
            let location = self.location_stream.next_location();
            if is_ident_start(c) {
                self.location_stream.consume();
                self.consume_while_identifier();
                let text = self.location_stream.get_slice(start, self.location_stream.pos);
                return Some(Token::new(location, TokenData::Identifier(text)));
            } else if is_digit(c) {
                self.consume_while_number();
                let text = self.location_stream.get_slice(start, self.location_stream.pos);
                return Some(Token::new(location, TokenData::NumericLiteral(text)));
            } else if c == '/' {
                self.location_stream.consume();
                if self.location_stream.peek() == Some('/') {
                    // A comment: skip to the end of the line.
                    self.location_stream.consume();
                    let ghost after_slashes = self.location_stream.pos as int;
                    loop
                        invariant
                            self.wf(),
                            self.cached_next_token is None,
                            src == old(self).chars(),
                            self.chars() == src,
                            n == src.len(),
                            !self.sent_eof,
                            old(self).location_stream.pos <= start,
                            after_slashes == start + 2,
                            after_slashes <= self.location_stream.pos,
                            start < after_slashes,
                            src[start as int] == '/',
                            src[start + 1] == '/',
                            self.errors == old(self).errors,
                            gap_ok(src, old(self).location_stream.pos as int, start as int),
                            forall|i: int|
                                after_slashes <= i < self.location_stream.pos
                                    ==> #[trigger] src[i] != '\n',
                        decreases n - self.location_stream.pos,
                    {
                        match self.location_stream.peek() {
                            Some(c2) => {
                                if c2 == '\n' {
                                    break;
                                }
                                self.location_stream.consume();
                            },
                            None => { break; },
                        }
                    }
                    proof {
                        lemma_gap_comment(
                            src,
                            start as int,
                            self.location_stream.pos as int,
                        );
                        lemma_gap_compose(
                            src,
                            old(self).location_stream.pos as int,
                            start as int,
                            self.location_stream.pos as int,
                        );
                    }
                } else {
                    let text = self.location_stream.get_slice(start, self.location_stream.pos);
                    return Some(Token::new(location, TokenData::Symbol(text)));
                }
            } else if c == '!' || c == '<' || c == '>' || c == '=' {
                self.location_stream.consume();
                if self.location_stream.peek() == Some('=') {
                    self.location_stream.consume();
                }
                let text = self.location_stream.get_slice(start, self.location_stream.pos);
                return Some(Token::new(location, TokenData::Symbol(text)));
            } else if c == '(' || c == ')' || c == '[' || c == ']' || c == '.' || c == ','
                || c == '+' || c == '-' || c == '*' {
                self.location_stream.consume();
                let text = self.location_stream.get_slice(start, self.location_stream.pos);
                return Some(Token::new(location, TokenData::Symbol(text)));
            } else if c == ' ' || c == '\r' {
                self.location_stream.consume();
                proof {
                    lemma_gap_blanks(src, start as int, start + 1);
                    lemma_gap_compose(
                        src,
                        old(self).location_stream.pos as int,
                        start as int,
                        start + 1,
                    );
                }
            } else if c == '\n' {
                self.location_stream.consume();
                let token = self.measure_indentation(Ghost(src));
                proof {
                    let lo = old(self).location_stream.pos as int;
                    let upto = match &token {
                        Some(t) => t.location.index as int,
                        None => self.location_stream.pos as int,
                    };
                    assert forall|i: int| start <= i < upto implies spec_blank(
                        #[trigger] src[i],
                    ) by {}
                    lemma_gap_blanks(src, start as int, upto);
                    lemma_gap_compose(src, lo, start as int, upto);
                }
                if let Some(t) = token {
                    return Some(t);
                }
            } else {
                // A character outside the recognized alphabet: record a
                // diagnostic, hand it on as a symbol, and continue.
                self.location_stream.consume();
                let text = self.location_stream.get_slice(start, self.location_stream.pos);
                let token = Token::new(location, TokenData::Symbol(text));
                let ghost prev_errors = self.errors@;
                self.errors.push(GenericError::error(
                    token.duplicate(),
                    "unrecognized character".to_owned(),
                ));
                proof {
                    assert(self.errors@.subrange(0, prev_errors.len() as int) =~= prev_errors);
                }
                return Some(token);
            }
        }
    }

    /// After a newline: skip blank lines, measure the indentation of the
    /// last line begun, and emit it as a token if it is not empty.
    fn measure_indentation(&mut self, Ghost(src): Ghost<Seq<char>>) -> (r: Option<Token>)
        requires
            old(self).wf(),
            old(self).cached_next_token is None,
            !old(self).sent_eof,
            old(self).chars() == src,
            old(self).location_stream.pos >= 1,
            src[old(self).location_stream.pos - 1] == '\n',
        ensures
            final(self).wf(),
            final(self).cached_next_token is None,
            final(self).sent_eof == old(self).sent_eof,
            final(self).errors == old(self).errors,
            final(self).chars() == src,
            old(self).location_stream.pos <= final(self).location_stream.pos,
            match r {
                Some(t) => {
                    &&& t.data is Indentation
                    &&& matches_source(t, src)
                    &&& indentation_shaped(t, src)
                    &&& old(self).location_stream.pos <= t.location.index
                    &&& t.location.index + t.spec_text().len() == final(self).location_stream.pos
                    &&& forall|i: int|
                        old(self).location_stream.pos <= i < t.location.index ==> spec_blank(
                            #[trigger] src[i],
                        )
                },
                None => forall|i: int|
                    old(self).location_stream.pos <= i < final(self).location_stream.pos
                        ==> spec_blank(#[trigger] src[i]),
            },
    {
        let n = self.location_stream.nchars;
        let ghost entry_pos = self.location_stream.pos as int;
        let mut mark = self.location_stream.pos;
        let mut mark_location = self.location_stream.next_location();
        loop
            invariant
                self.wf(),
                self.cached_next_token is None,
                !self.sent_eof,
                self.errors == old(self).errors,
                self.chars() == src,
                n == src.len(),
                entry_pos <= mark <= self.location_stream.pos,
                mark >= 1,
                src[mark - 1] == '\n',
                mark_location.index == mark,
                forall|i: int|
                    entry_pos <= i < self.location_stream.pos ==> spec_blank(#[trigger] src[i]),
                forall|i: int| mark <= i < self.location_stream.pos ==> src[i] == ' ' || src[i]
                    == '\r',
            ensures
                self.wf(),
                self.cached_next_token is None,
                !self.sent_eof,
                self.errors == old(self).errors,
                self.chars() == src,
                entry_pos <= mark <= self.location_stream.pos,
                mark >= 1,
                src[mark - 1] == '\n',
                mark_location.index == mark,
                forall|i: int|
                    entry_pos <= i < self.location_stream.pos ==> spec_blank(#[trigger] src[i]),
                forall|i: int| mark <= i < self.location_stream.pos ==> src[i] == ' ' || src[i]
                    == '\r',
                self.location_stream.pos == src.len() || (
                    src[self.location_stream.pos as int] != ' '
                    && src[self.location_stream.pos as int] != '\r'
                    && src[self.location_stream.pos as int] != '\n'),
            decreases n - self.location_stream.pos,
        {
            match self.location_stream.peek() {
                Some(c) => {
                    if c == ' ' || c == '\r' {
                        self.location_stream.consume();
                    } else if c == '\n' {
                        self.location_stream.consume();
                        mark = self.location_stream.pos;
                        mark_location = self.location_stream.next_location();
                    } else {
                        break;
                    }
                },
                None => { break; },
            }
        }
        if mark < self.location_stream.pos {
            let text = self.location_stream.get_slice(mark, self.location_stream.pos);
            Some(Token::new(mark_location, TokenData::Indentation(text)))
        } else {
            None
        }
    }

    /// Consume the tail of an identifier: letters, digits, underscores.
    fn consume_while_identifier(&mut self)
        requires
            old(self).wf(),
            old(self).cached_next_token is None,
        ensures
            final(self).wf(),
            final(self).chars() == old(self).chars(),
            final(self).cached_next_token == old(self).cached_next_token,
            final(self).sent_eof == old(self).sent_eof,
            final(self).errors == old(self).errors,
            old(self).location_stream.pos <= final(self).location_stream.pos,
    {
        let n = self.location_stream.nchars;
        loop
            invariant
                self.wf(),
                self.chars() == old(self).chars(),
                self.cached_next_token is None,
                self.cached_next_token == old(self).cached_next_token,
                self.sent_eof == old(self).sent_eof,
                self.errors == old(self).errors,
                n == self.chars().len(),
                old(self).location_stream.pos <= self.location_stream.pos,
            decreases n - self.location_stream.pos,
        {
            match self.location_stream.peek() {
                Some(c) => {
                    if is_ident_continue(c) {
                        self.location_stream.consume();
                    } else {
                        break;
                    }
                },
                None => { break; },
            }
        }
    }

    /// Consume a numeric literal: digits, one optional point, more digits.
    fn consume_while_number(&mut self)
        requires
            old(self).wf(),
            old(self).cached_next_token is None,
            old(self).location_stream.pos < old(self).chars().len(),
        ensures
            final(self).wf(),
            final(self).chars() == old(self).chars(),
            final(self).cached_next_token == old(self).cached_next_token,
            final(self).sent_eof == old(self).sent_eof,
            final(self).errors == old(self).errors,
            old(self).location_stream.pos < final(self).location_stream.pos,
    {
        let n = self.location_stream.nchars;
        self.location_stream.consume();
        loop
            invariant
                self.wf(),
                self.chars() == old(self).chars(),
                self.cached_next_token is None,
                self.cached_next_token == old(self).cached_next_token,
                self.sent_eof == old(self).sent_eof,
                self.errors == old(self).errors,
                n == self.chars().len(),
                old(self).location_stream.pos < self.location_stream.pos,
            decreases n - self.location_stream.pos,
        {
            match self.location_stream.peek() {
                Some(c) => {
                    if is_digit(c) {
                        self.location_stream.consume();
                    } else {
                        break;
                    }
                },
                None => { break; },
            }
        }
        if self.location_stream.peek() == Some('.') {
            self.location_stream.consume();
            loop
                invariant
                    self.wf(),
                    self.chars() == old(self).chars(),
                    self.cached_next_token is None,
                    self.cached_next_token == old(self).cached_next_token,
                    self.sent_eof == old(self).sent_eof,
                    self.errors == old(self).errors,
                    n == self.chars().len(),
                    old(self).location_stream.pos < self.location_stream.pos,
                decreases n - self.location_stream.pos,
            {
                match self.location_stream.peek() {
                    Some(c) => {
                        if is_digit(c) {
                            self.location_stream.consume();
                        } else {
                            break;
                        }
                    },
                    None => { break; },
                }
            }
        }
    }

    /// The next token, without consuming it.
    pub fn peek(&mut self) -> (r: Option<Token>)
        requires
            old(self).wf(),
        ensures
            final(self).wf(),
            final(self).chars() == old(self).chars(),
            final(self).cached_next_token == r,
            old(self).errors@.len() <= final(self).errors@.len(),
            final(self).errors@.subrange(0, old(self).errors@.len() as int) == old(self).errors@,
            match r {
                Some(t) => {
                    &&& matches_source(t, old(self).chars())
                    &&& indentation_shaped(t, old(self).chars())
                    &&& old(self).next_start() <= t.location.index
                    &&& gap_ok(old(self).chars(), old(self).next_start(), t.location.index as int)
                    &&& !old(self).eof_done()
                },
                None => final(self).eof_done() && old(self).eof_done(),
            },
    {
        if self.cached_next_token.is_none() {
            if self.sent_eof {
                return None;
            }
            self.cached_next_token = self.produce();
        }
        match &self.cached_next_token {
            Some(t) => Some(t.duplicate()),
            None => None,
        }
    }

    /// Drain the stream.  The result reproduces the source: every token's
    /// text is the slice of the source at its index, successive tokens do
    /// not overlap (what lies between them is only whitespace, comments
    /// and blank lines, which carry no token), indentation tokens stand
    /// exactly at the starts of non-blank lines, and the end-of-file token
    /// is unique and last.
    pub fn collect_tokens(&mut self) -> (r: Vec<Token>)
        requires
            old(self).wf(),
            !old(self).eof_done(),
            old(self).next_start() == 0,
        ensures
            final(self).wf(),
            final(self).eof_done(),
            stream_well_formed(r@, old(self).chars()),
            r@.len() >= 1,
            old(self).errors@.len() <= final(self).errors@.len(),
            final(self).errors@.subrange(0, old(self).errors@.len() as int) == old(self).errors@,
    {
        let ghost src = self.chars();
        let mut result: Vec<Token> = Vec::new();
        let n = self.location_stream.nchars;
        loop
            invariant
                self.wf(),
                self.chars() == src,
                src == old(self).chars(),
                n == src.len(),
                !self.eof_done(),
                old(self).errors@.len() <= self.errors@.len(),
                self.errors@.subrange(0, old(self).errors@.len() as int) == old(self).errors@,
                self.next_start() <= src.len() + 1,
                forall|i: int| 0 <= i < result@.len() ==> matches_source(#[trigger] result@[i], src),
                forall|i: int| 0 <= i < result@.len() ==> indentation_shaped(
                    #[trigger] result@[i],
                    src,
                ),
                forall|i: int| 0 <= i < result@.len() ==> !(#[trigger] result@[i].data
                    is EndOfFile),
                forall|i: int| 0 <= i && i + 1 < result@.len()
                    ==> #[trigger] result@[i].location.index
                    + result@[i].spec_text().len() <= result@[i + 1].location.index,
                result@.len() >= 1 ==> result@.last().location.index
                    + result@.last().spec_text().len() == self.next_start(),
                result@.len() == 0 ==> self.next_start() == 0,
                result@.len() >= 1 ==> gap_ok(src, 0, result@[0].location.index as int),
                forall|i: int|
                    0 <= i && i + 1 < result@.len() ==> gap_ok(
                        src,
                        #[trigger] result@[i].location.index + result@[i].spec_text().len(),
                        result@[i + 1].location.index as int,
                    ),
            decreases src.len() - self.next_start() + 1,
        {
            let ghost mid_errors = self.errors@;
            let t = match self.next() {
                Some(t) => t,
                // The stream was not yet exhausted, so a token comes.
                None => vstd::pervasive::unreached(),
            };
            proof {
                let k = old(self).errors@.len() as int;
                assert forall|i: int| 0 <= i < k implies self.errors@.subrange(0, k)[i] == old(
                    self,
                ).errors@[i] by {
                    assert(self.errors@.subrange(0, mid_errors.len() as int)[i]
                        == self.errors@[i]);
                    assert(mid_errors.subrange(0, k)[i] == mid_errors[i]);
                }
                assert(self.errors@.subrange(0, k) =~= old(self).errors@);
            }
            let is_eof = match &t.data {
                TokenData::EndOfFile => true,
                _ => false,
            };
            let ghost prev = result@;
            let ghost tt = t;
            result.push(t);
            proof {
                assert(result@ == prev.push(tt));
                assert forall|i: int| 0 <= i && i + 1 < result@.len() implies
                    #[trigger] result@[i].location.index + result@[i].spec_text().len()
                    <= result@[i + 1].location.index by {
                    if i + 1 < prev.len() {
                        assert(result@[i] == prev[i]);
                        assert(result@[i + 1] == prev[i + 1]);
                    } else {
                        assert(result@[i] == prev.last());
                        assert(result@[i + 1] == tt);
                    }
                }
                assert forall|i: int| 0 <= i && i + 1 < result@.len() implies gap_ok(
                    src,
                    #[trigger] result@[i].location.index + result@[i].spec_text().len(),
                    result@[i + 1].location.index as int,
                ) by {
                    if i + 1 < prev.len() {
                        assert(result@[i] == prev[i]);
                        assert(result@[i + 1] == prev[i + 1]);
                    } else {
                        assert(result@[i] == prev.last());
                        assert(result@[i + 1] == tt);
                    }
                }
                if prev.len() == 0 {
                    assert(result@[0] == tt);
                }
            }
            if is_eof {
                return result;
            }
        }
    }

    /// The next token, consuming it.  Tokens come out in source order and
    /// never overlap; the end-of-file token comes exactly once and last.
    pub fn next(&mut self) -> (r: Option<Token>)
        requires
            old(self).wf(),
        ensures
            final(self).wf(),
            final(self).chars() == old(self).chars(),
            old(self).errors@.len() <= final(self).errors@.len(),
            final(self).errors@.subrange(0, old(self).errors@.len() as int) == old(self).errors@,
            match r {
                Some(t) => {
                    &&& matches_source(t, old(self).chars())
                    &&& indentation_shaped(t, old(self).chars())
                    &&& old(self).next_start() <= t.location.index
                    &&& gap_ok(old(self).chars(), old(self).next_start(), t.location.index as int)
                    &&& !(t.data is EndOfFile) ==> t.location.index + t.spec_text().len()
                        == final(self).next_start() && !final(self).eof_done()
                    &&& t.data is EndOfFile ==> !old(self).eof_done() && final(self).eof_done()
                        && t.location.index == old(self).chars().len()
                },
                None => final(self).eof_done() && old(self).eof_done(),
            },
    {
        self.peek();
        self.cached_next_token.take()
    }
}

} // verus!
