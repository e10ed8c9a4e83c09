//! Character-level source scanning: every character of the input is
//! addressed by its character index, and each index maps to a line and a
//! column.  `LocationTrack` owns the source text and hands out one
//! character at a time together with its `Location`.

use vstd::prelude::*;
use vstd::string::StrSliceExecFns;

verus! {

/// Number of newline characters in the sequence: the zero-based line
/// number of the character that would follow it.
pub open spec fn line_at(s: Seq<char>) -> nat
    decreases s.len(),
{
    if s.len() == 0 {
        0
    } else {
        line_at(s.drop_last()) + if s.last() == '\n' { 1nat } else { 0nat }
    }
}

/// Number of characters since the most recent newline: the zero-based
/// column of the character that would follow the sequence.
pub open spec fn col_at(s: Seq<char>) -> nat
    decreases s.len(),
{
    if s.len() == 0 {
        0
    } else if s.last() == '\n' {
        0
    } else {
        col_at(s.drop_last()) + 1
    }
}

/// Line and column counts never exceed the number of characters seen.
proof fn lemma_line_col_bound(s: Seq<char>)
    ensures
        line_at(s) <= s.len(),
        col_at(s) <= s.len(),
    decreases s.len(),
{
    if s.len() > 0 {
        lemma_line_col_bound(s.drop_last());
    }
}

/// A position in a named source text.  `line` and `column` are zero-based;
/// `index` is the character index into the full text.
#[derive(Debug)]
pub struct Location {
    pub filename: String,
    pub line: usize,
    pub column: usize,
    pub index: usize,
}

impl Location {
    /// An identical copy.
    pub fn duplicate(&self) -> (r: Location)
        ensures
            r == *self,
    {
        Location {
            filename: self.filename.clone(),
            line: self.line,
            column: self.column,
            index: self.index,
        }
    }
}

/// A cursor over a source text with line and column tracking.
pub struct LocationTrack {
    pub raw: String,
    pub name: String,
    pub pos: usize,
    pub nchars: usize,
    pub line: usize,
    pub column: usize,
}

impl LocationTrack {
    /// The characters of the source.
    pub open spec fn chars(&self) -> Seq<char> {
        self.raw@
    }

    /// The cursor lies inside the text, the cached length is right, and
    /// line and column agree with the consumed prefix.
    pub open spec fn wf(&self) -> bool {
        &&& self.pos <= self.nchars
        &&& self.nchars == self.chars().len()
        &&& self.line == line_at(self.chars().subrange(0, self.pos as int))
        &&& self.column == col_at(self.chars().subrange(0, self.pos as int))
    }

    pub fn new(data: &str, name: &str) -> (r: Self)
        ensures
            r.wf(),
            r.chars() == data@,
            r.pos == 0,
            r.name@ == name@,
    {
        let n = data.unicode_len();
        proof {
            assert(data@.subrange(0, 0) =~= Seq::<char>::empty());
        }
        LocationTrack {
            raw: data.to_owned(),
            name: name.to_owned(),
            pos: 0,
            nchars: n,
            line: 0,
            column: 0,
        }
    }

    /// The next character, if any, without consuming it.
    pub fn peek(&self) -> (r: Option<char>)
        requires
            self.wf(),
        ensures
            self.pos < self.chars().len() ==> r == Some(self.chars()[self.pos as int]),
            self.pos == self.chars().len() ==> r is None,
    {
        if self.pos < self.nchars {
            Some(self.raw.as_str().get_char(self.pos))
        } else {
            None
        }
    }

    /// Consume one character, advancing the line or the column.
    pub fn consume(&mut self)
        requires
            old(self).wf(),
            old(self).pos < old(self).chars().len(),
        ensures
            final(self).wf(),
            final(self).chars() == old(self).chars(),
            final(self).name == old(self).name,
            final(self).pos == old(self).pos + 1,
    {
        let c = self.raw.as_str().get_char(self.pos);
        proof {
            let s = self.chars();
            let p = self.pos as int;
            assert(s.subrange(0, p + 1).drop_last() =~= s.subrange(0, p));
            assert(s.subrange(0, p + 1).last() == s[p]);
            lemma_line_col_bound(s.subrange(0, p));
        }
        if c == '\n' {
            self.line = self.line + 1;
            self.column = 0;
        } else {
            self.column = self.column + 1;
        }
        self.pos = self.pos + 1;
    }

    /// The location of the character the cursor stands on.
    pub fn next_location(&self) -> (r: Location)
        requires
            self.wf(),
        ensures
            r.index == self.pos,
            r.line == line_at(self.chars().subrange(0, self.pos as int)),
            r.column == col_at(self.chars().subrange(0, self.pos as int)),
            r.filename == self.name,
    {
        Location {
            filename: self.name.clone(),
            line: self.line,
            column: self.column,
            index: self.pos,
        }
    }

    /// The text between two character indices.
    pub fn get_slice(&self, start: usize, end: usize) -> (r: String)
        requires
            self.wf(),
            start <= end <= self.chars().len(),
        ensures
            r@ == self.chars().subrange(start as int, end as int),
    {
        self.raw.as_str().substring_char(start, end).to_owned()
    }
}

} // verus!
