//! Line lexer of the structural `.sson` format: section headers, relative
//! subsections, `key = value` pairs, comma-separated rows with quoting,
//! comments and separators.

use vstd::prelude::*;
use crate::text::{
    char_string, chars_of, contains_char, find_char, first_index_of, has_prefix, slice_string,
    split_char, split_on, starts_with, trim, trim_class, trim_of, views, TrimClass,
    lemma_first_index_of, lemma_split_len,
};
use crate::sson_error::SsonError;

verus! {

/// A lexical unit of a `.sson` document.
#[derive(Debug, Clone, PartialEq)]
pub enum Token {
    /// `[path]`
    Section(String),
    /// `[.child]`
    Subsection(String),
    /// `key = value`
    KeyValue(String, String),
    /// `val1, val2, "val,3"`
    CsvLine(Vec<String>),
    /// A comment; the flag marks a `///` doc comment.
    Comment(bool, String),
    /// A line starting with `=`.
    Separator,
    /// End of input.
    Eof,
}

/// A token with its strings taken as character sequences.
pub enum TokenView {
    Section(Seq<char>),
    Subsection(Seq<char>),
    KeyValue(Seq<char>, Seq<char>),
    CsvLine(Seq<Seq<char>>),
    Comment(bool, Seq<char>),
    Separator,
    Eof,
}

impl View for Token {
    type V = TokenView;

    open spec fn view(&self) -> TokenView {
        match self {
            Token::Section(s) => TokenView::Section(s@),
            Token::Subsection(s) => TokenView::Subsection(s@),
            Token::KeyValue(k, v) => TokenView::KeyValue(k@, v@),
            Token::CsvLine(cells) => TokenView::CsvLine(views(cells@)),
            Token::Comment(d, t) => TokenView::Comment(*d, t@),
            Token::Separator => TokenView::Separator,
            Token::Eof => TokenView::Eof,
        }
    }
}

/// The lines of a text, as `str::lines` gives them: split at `\n`, with no
/// extra empty line after a final line ending. (A `\r` before the `\n`
/// stays on the line; the lexer trims it away with the other white space.)
pub open spec fn lines_of(s: Seq<char>) -> Seq<Seq<char>> {
    let pieces = split_on(s, '\n');
    if pieces.len() > 0 && pieces.last().len() == 0 {
        pieces.drop_last()
    } else {
        pieces
    }
}

/// At the end of a document the lexer answers `Eof` and stays there.
pub proof fn lemma_eof_sticks(lines: Seq<Seq<char>>)
    ensures
        scan_token(lines, lines.len() as int) == (TokenView::Eof, lines.len() as int),
{
}

/// A cell value: trimmed, and without enclosing double quotes.
pub open spec fn unquote(raw: Seq<char>) -> Seq<char> {
    let t = trim_of(raw, TrimClass::White);
    if t.len() >= 2 && t[0] == '"' && t.last() == '"' {
        t.subrange(1, t.len() - 1)
    } else {
        t
    }
}

/// State of a row scan: the finished cells, the characters of the current
/// cell, and whether the scan is inside double quotes.
pub type CsvState = (Seq<Seq<char>>, Seq<char>, bool);

/// One character of a row: a quote opens or closes quoting and is dropped;
/// a comma outside quotes ends the cell; anything else joins the cell.
pub open spec fn csv_step(st: CsvState, c: char) -> CsvState {
    if c == '"' {
        (st.0, st.1, !st.2)
    } else if c == ',' && !st.2 {
        (st.0.push(unquote(st.1)), Seq::empty(), st.2)
    } else {
        (st.0, st.1.push(c), st.2)
    }
}

/// The state after scanning all of `s`.
pub open spec fn csv_scan(s: Seq<char>) -> CsvState
    decreases s.len(),
{
    if s.len() == 0 {
        (Seq::empty(), Seq::empty(), false)
    } else {
        csv_step(csv_scan(s.drop_last()), s.last())
    }
}

/// The cells of a comma-separated row.
pub open spec fn csv_cells(s: Seq<char>) -> Seq<Seq<char>> {
    let st = csv_scan(s);
    st.0.push(unquote(st.1))
}

/// The token a trimmed, non-empty line that is not a comment stands for.
pub open spec fn classify(l: Seq<char>) -> TokenView {
    if l[0] == '=' {
        TokenView::Separator
    } else if l[0] == '[' {
        let inner = trim_of(l, TrimClass::BracketOrWhite);
        if inner.len() > 0 && inner[0] == '.' {
            TokenView::Subsection(inner.drop_first())
        } else {
            TokenView::Section(inner)
        }
    } else if l.contains('=') && !l.contains(',') {
        let i = first_index_of(l, '=')->0;
        TokenView::KeyValue(
            trim_of(l.take(i), TrimClass::White),
            trim_of(l.skip(i + 1), TrimClass::White),
        )
    } else {
        TokenView::CsvLine(csv_cells(l))
    }
}

/// The token a raw line gives, or `None` for a line the lexer skips (blank
/// or a `//` / `///` comment).
pub open spec fn line_token(raw: Seq<char>) -> Option<TokenView> {
    let l = trim_of(raw, TrimClass::White);
    if l.len() == 0 || has_prefix(l, "//"@) {
        None
    } else {
        Some(classify(l))
    }
}

/// The next token at or after line `pos`, and the line after it.
pub open spec fn scan_token(lines: Seq<Seq<char>>, pos: int) -> (TokenView, int)
    decreases lines.len() - pos,
{
    if pos >= lines.len() || pos < 0 {
        (TokenView::Eof, lines.len() as int)
    } else {
        match line_token(lines[pos]) {
            Some(t) => (t, pos + 1),
            None => scan_token(lines, pos + 1),
        }
    }
}

/// The cells of a comma-separated row, quotes respected.
pub fn split_csv(line: &str) -> (cells: Vec<String>)
    ensures
        views(cells@) == csv_cells(line@),
{
    let chars = chars_of(line);
    let n = chars.len();
    let mut cells: Vec<String> = Vec::new();
    let mut current = String::new();
    let mut in_quotes = false;
    let mut i: usize = 0;
    while i < n
        invariant
            n == chars@.len(),
            chars@ == line@,
            i <= n,
            csv_scan(line@.take(i as int)) == (views(cells@), current@, in_quotes),
        decreases n - i,
    {
        let c = chars[i];
        proof {
            assert(line@.take(i + 1).drop_last() =~= line@.take(i as int));
        }
        if c == '"' {
            in_quotes = !in_quotes;
        } else if c == ',' && !in_quotes {
            let ghost before = cells@;
            let cell = Lexer::parse_value(current.as_str());
            cells.push(cell);
            current = String::new();
            proof {
                assert(views(cells@) =~= views(before).push(cell@));
            }
        } else {
            let cs = char_string(c);
            current.append(cs.as_str());
        }
        i += 1;
    }
    proof {
        assert(line@.take(n as int) =~= line@);
    }
    let ghost before = cells@;
    let last = Lexer::parse_value(current.as_str());
    cells.push(last);
    proof {
        assert(views(cells@) =~= views(before).push(last@));
    }
    cells
}

/// The token of one raw line, or `None` for a skipped line.
pub fn token_of_line(raw: &str) -> (r: Option<Token>)
    ensures
        r matches Some(t) ==> line_token(raw@) == Some(t@),
        r is None ==> line_token(raw@) is None,
{
    let line = trim(raw);
    let l = line.as_str();
    let chars = chars_of(l);
    if chars.len() == 0 || starts_with(l, "//") {
        return None;
    }
    if chars[0] == '=' {
        return Some(Token::Separator);
    }
    if chars[0] == '[' {
        let inner = trim_class(l, TrimClass::BracketOrWhite);
        let ic = chars_of(inner.as_str());
        if ic.len() > 0 && ic[0] == '.' {
            let child = slice_string(inner.as_str(), 1, ic.len());
            proof {
                assert(child@ =~= inner@.drop_first());
            }
            return Some(Token::Subsection(child));
        } else {
            return Some(Token::Section(inner));
        }
    }
    if contains_char(l, '=') && !contains_char(l, ',') {
        proof {
            lemma_first_index_of(l@, '=');
        }
        match find_char(l, '=') {
            Some(i) => {
                let left = slice_string(l, 0, i);
                let right = slice_string(l, i + 1, chars.len());
                proof {
                    assert(left@ =~= l@.take(i as int));
                    assert(right@ =~= l@.skip(i + 1));
                }
                let k = trim(left.as_str());
                let v = trim(right.as_str());
                return Some(Token::KeyValue(k, v));
            },
            None => {
                proof {
                    assert(false);
                }
                return None;
            },
        }
    }
    let cells = split_csv(l);
    Some(Token::CsvLine(cells))
}

/// A lexer over the lines of a document.
pub struct Lexer {
    lines: Vec<String>,
    pos: usize,
}

impl Lexer {
    /// A cell value: trimmed, and without enclosing double quotes.
    pub fn parse_value(raw: &str) -> (r: String)
        ensures
            r@ == unquote(raw@),
    {
        let t = trim(raw);
        let chars = chars_of(t.as_str());
        let n = chars.len();
        if n >= 2 && chars[0] == '"' && chars[n - 1] == '"' {
            slice_string(t.as_str(), 1, n - 1)
        } else {
            t
        }
    }

    /// The lines of the document.
    pub closed spec fn line_views(&self) -> Seq<Seq<char>> {
        views(self.lines@)
    }

    /// The index of the next line to read.
    pub closed spec fn position(&self) -> int {
        self.pos as int
    }

    /// The position is within the document.
    pub closed spec fn wf(&self) -> bool {
        self.pos <= self.lines@.len()
    }

    /// A lexer at the first line of `input`.
    pub fn new(input: &str) -> (l: Self)
        ensures
            l.wf(),
            l.line_views() == lines_of(input@),
            l.position() == 0,
    {
        let mut lines = split_char(input, '\n');
        proof {
            lemma_split_len(input@, '\n');
        }
        let k = lines.len();
        if k > 0 && lines[k - 1].as_str().unicode_len() == 0 {
            let ghost before = lines@;
            lines.pop();
            proof {
                assert(views(lines@) =~= views(before).drop_last());
            }
        }
        Lexer { lines, pos: 0 }
    }

    /// The next token: blank lines and comments are skipped; at the end of
    /// the document every call gives `Eof`.
    pub fn next_token(&mut self) -> (r: Result<Token, SsonError>)
        requires
            old(self).wf(),
        ensures
            final(self).wf(),
            final(self).line_views() == old(self).line_views(),
            r matches Ok(t) && t@ == scan_token(old(self).line_views(), old(self).position()).0,
            final(self).position() == scan_token(old(self).line_views(), old(self).position()).1,
    {
        let ghost start = self.pos as int;
        assert(start == old(self).position());
        while self.pos < self.lines.len()
            invariant
                self.pos <= self.lines@.len(),
                self.lines@ == old(self).lines@,
                start <= self.pos,
                start == old(self).position(),
                scan_token(self.line_views(), start) == scan_token(
                    self.line_views(),
                    self.pos as int,
                ),
            decreases self.lines@.len() - self.pos,
        {
            let ghost p = self.pos as int;
            let tok = token_of_line(self.lines[self.pos].as_str());
            proof {
                assert(self.line_views()[p] == self.lines@[p]@);
            }
            self.pos = self.pos + 1;
            match tok {
                Some(t) => {
                    proof {
                        assert(scan_token(self.line_views(), p) == (t@, p + 1));
                        assert(self.line_views() == old(self).line_views());
                        assert(start == old(self).position());
                    }
                    return Ok(t);
                },
                None => {},
            }
        }
        Ok(Token::Eof)
    }
}

} // verus!
