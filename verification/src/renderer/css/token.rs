//! The CSS tokenizer.
//!
//! `token_at` says which token starts at a position and where it ends;
//! `next_token` skips white space before it; `tokens_from` is the whole
//! token sequence of an input.

use crate::text::from_chars;
use crate::text::is_ascii_alpha;
use crate::text::is_ascii_digit;
use crate::text::to_chars;
use vstd::prelude::*;

verus! {

/// One token of a style sheet.
///
/// `HashToken` keeps its leading `#`. `Number` keeps the numeral as it is
/// written, digits and dots.
#[derive(Debug, Clone, PartialEq, Eq)]
pub enum CssToken {
    HashToken(String),
    Delim(char),
    Number(String),
    Colon,
    Semicolon,
    OpenParen,
    CloseParen,
    OpenCurly,
    CloseCurly,
    Ident(String),
    StringToken(String),
    AtKeyword(String),
}

/// What a token holds.
pub enum CssTokenView {
    HashToken(Seq<char>),
    Delim(char),
    Number(Seq<char>),
    Colon,
    Semicolon,
    OpenParen,
    CloseParen,
    OpenCurly,
    CloseCurly,
    Ident(Seq<char>),
    StringToken(Seq<char>),
    AtKeyword(Seq<char>),
}

impl View for CssToken {
    type V = CssTokenView;

    open spec fn view(&self) -> CssTokenView {
        match self {
            CssToken::HashToken(s) => CssTokenView::HashToken(s@),
            CssToken::Delim(c) => CssTokenView::Delim(*c),
            CssToken::Number(s) => CssTokenView::Number(s@),
            CssToken::Colon => CssTokenView::Colon,
            CssToken::Semicolon => CssTokenView::Semicolon,
            CssToken::OpenParen => CssTokenView::OpenParen,
            CssToken::CloseParen => CssTokenView::CloseParen,
            CssToken::OpenCurly => CssTokenView::OpenCurly,
            CssToken::CloseCurly => CssTokenView::CloseCurly,
            CssToken::Ident(s) => CssTokenView::Ident(s@),
            CssToken::StringToken(s) => CssTokenView::StringToken(s@),
            CssToken::AtKeyword(s) => CssTokenView::AtKeyword(s@),
        }
    }
}

impl CssToken {
    /// A copy of this token.
    pub fn duplicate(&self) -> (t: Self)
        ensures
            t@ == self@,
    {
        match self {
            CssToken::HashToken(s) => CssToken::HashToken(s.clone()),
            CssToken::Delim(c) => CssToken::Delim(*c),
            CssToken::Number(s) => CssToken::Number(s.clone()),
            CssToken::Colon => CssToken::Colon,
            CssToken::Semicolon => CssToken::Semicolon,
            CssToken::OpenParen => CssToken::OpenParen,
            CssToken::CloseParen => CssToken::CloseParen,
            CssToken::OpenCurly => CssToken::OpenCurly,
            CssToken::CloseCurly => CssToken::CloseCurly,
            CssToken::Ident(s) => CssToken::Ident(s.clone()),
            CssToken::StringToken(s) => CssToken::StringToken(s.clone()),
            CssToken::AtKeyword(s) => CssToken::AtKeyword(s.clone()),
        }
    }
}

/// A sequence of tokens seen as a sequence of views.
pub open spec fn tokens_view(v: Seq<CssToken>) -> Seq<CssTokenView> {
    Seq::new(v.len(), |i: int| v[i]@)
}

/// The families of characters that a longer token is made of.
#[derive(Debug, Clone, Copy, PartialEq, Eq, Structural)]
pub enum CharClass {
    /// Letters, digits, `-` and `_`.
    Name,
    /// Digits and `.`.
    Numeral,
    /// Everything but the two quotes.
    Quoted,
    /// Blanks between tokens.
    Space,
}

/// Whether `c` belongs to `class`.
pub open spec fn in_class(class: CharClass, c: char) -> bool {
    match class {
        CharClass::Name => is_ascii_alpha(c) || is_ascii_digit(c) || c == '-' || c == '_',
        CharClass::Numeral => is_ascii_digit(c) || c == '.',
        CharClass::Quoted => c != '"' && c != '\'',
        CharClass::Space => c == ' ' || c == '\n' || c == '\t' || c == '\r',
    }
}

/// The end of the longest run of characters of `class` that starts at `pos`.
pub open spec fn run_end(input: Seq<char>, pos: int, class: CharClass) -> int
    decreases input.len() - pos,
{
    if 0 <= pos < input.len() && in_class(class, input[pos]) {
        run_end(input, pos + 1, class)
    } else {
        pos
    }
}

/// A run ends at or after its start, and within the input.
pub proof fn lemma_run_end_bounds(input: Seq<char>, pos: int, class: CharClass)
    requires
        0 <= pos <= input.len(),
    ensures
        pos <= run_end(input, pos, class) <= input.len(),
    decreases input.len() - pos,
{
    if pos < input.len() && in_class(class, input[pos]) {
        lemma_run_end_bounds(input, pos + 1, class);
    }
}

/// The token that starts at `pos`, which holds no white space, and the
/// position just behind it.
pub open spec fn token_at(input: Seq<char>, pos: int) -> (CssTokenView, int) {
    let c = input[pos];
    if c == '(' {
        (CssTokenView::OpenParen, pos + 1)
    } else if c == ')' {
        (CssTokenView::CloseParen, pos + 1)
    } else if c == ':' {
        (CssTokenView::Colon, pos + 1)
    } else if c == ';' {
        (CssTokenView::Semicolon, pos + 1)
    } else if c == '{' {
        (CssTokenView::OpenCurly, pos + 1)
    } else if c == '}' {
        (CssTokenView::CloseCurly, pos + 1)
    } else if c == '"' || c == '\'' {
        let end = run_end(input, pos + 1, CharClass::Quoted);
        (
            CssTokenView::StringToken(input.subrange(pos + 1, end)),
            if end < input.len() {
                end + 1
            } else {
                end
            },
        )
    } else if is_ascii_digit(c) {
        let end = run_end(input, pos + 1, CharClass::Numeral);
        (CssTokenView::Number(input.subrange(pos, end)), end)
    } else if c == '#' {
        let end = run_end(input, pos + 1, CharClass::Name);
        (CssTokenView::HashToken(input.subrange(pos, end)), end)
    } else if c == '-' || c == '_' || is_ascii_alpha(c) {
        let end = run_end(input, pos + 1, CharClass::Name);
        (CssTokenView::Ident(input.subrange(pos, end)), end)
    } else if c == '@' && pos + 1 < input.len() && is_ascii_alpha(input[pos + 1]) {
        let end = run_end(input, pos + 1, CharClass::Name);
        (CssTokenView::AtKeyword(input.subrange(pos + 1, end)), end)
    } else {
        (CssTokenView::Delim(c), pos + 1)
    }
}

/// The first token at or after `pos`, and the position just behind it;
/// `None` when only white space is left.
pub open spec fn next_token(input: Seq<char>, pos: int) -> (Option<CssTokenView>, int) {
    let start = run_end(input, pos, CharClass::Space);
    if 0 <= start < input.len() {
        (Some(token_at(input, start).0), token_at(input, start).1)
    } else {
        (None, start)
    }
}

/// Every token is at least one character long.
pub proof fn lemma_next_token_advances(input: Seq<char>, pos: int)
    requires
        0 <= pos <= input.len(),
    ensures
        pos <= next_token(input, pos).1 <= input.len(),
        next_token(input, pos).0 is Some ==> pos < next_token(input, pos).1,
{
    lemma_run_end_bounds(input, pos, CharClass::Space);
    let start = run_end(input, pos, CharClass::Space);
    if start < input.len() {
        lemma_run_end_bounds(input, start + 1, CharClass::Quoted);
        lemma_run_end_bounds(input, start + 1, CharClass::Numeral);
        lemma_run_end_bounds(input, start + 1, CharClass::Name);
    }
}

/// All tokens of `input` from `pos` on.
pub open spec fn tokens_from(input: Seq<char>, pos: int) -> Seq<CssTokenView>
    decreases input.len() - pos,
{
    let (tok, next) = next_token(input, pos);
    match tok {
        Some(t) => if pos < next <= input.len() {
            seq![t] + tokens_from(input, next)
        } else {
            seq![t]
        },
        None => Seq::<CssTokenView>::empty(),
    }
}

/// The tokenizer over one style sheet text.
#[derive(Debug, Clone)]
pub struct CssTokenizer {
    pub pos: usize,
    pub input: Vec<char>,
}

impl CssTokenizer {
    /// The read position lies within the input or just behind it.
    pub open spec fn wf(&self) -> bool {
        self.pos <= self.input@.len()
    }

    /// A tokenizer at the start of `css`.
    pub fn new(css: String) -> (t: Self)
        ensures
            t.wf(),
            t.pos == 0,
            t.input@ == css@,
    {
        Self { pos: 0, input: to_chars(css.as_str()) }
    }

    fn in_class(class: CharClass, c: char) -> (r: bool)
        ensures
            r == in_class(class, c),
    {
        match class {
            CharClass::Name => ('a' <= c && c <= 'z') || ('A' <= c && c <= 'Z') || ('0' <= c && c
                <= '9') || c == '-' || c == '_',
            CharClass::Numeral => ('0' <= c && c <= '9') || c == '.',
            CharClass::Quoted => c != '"' && c != '\'',
            CharClass::Space => c == ' ' || c == '\n' || c == '\t' || c == '\r',
        }
    }

    /// The end of the run of `class` that starts at `from`.
    fn scan(&self, from: usize, class: CharClass) -> (end: usize)
        requires
            from <= self.input@.len(),
        ensures
            end == run_end(self.input@, from as int, class),
            from <= end <= self.input@.len(),
    {
        let mut i = from;
        while i < self.input.len() && Self::in_class(class, self.input[i])
            invariant
                from <= i <= self.input@.len(),
                run_end(self.input@, i as int, class) == run_end(self.input@, from as int, class),
            decreases self.input.len() - i,
        {
            i += 1;
        }
        i
    }

    /// The next token, or `None` at the end of the input.
    pub fn next(&mut self) -> (r: Option<CssToken>)
        requires
            old(self).wf(),
        ensures
            final(self).wf(),
            final(self).input == old(self).input,
            match r {
                Some(t) => Some(t@),
                None => None,
            } == next_token(old(self).input@, old(self).pos as int).0,
            final(self).pos == next_token(old(self).input@, old(self).pos as int).1,
    {
        let start = self.scan(self.pos, CharClass::Space);
        if start >= self.input.len() {
            self.pos = start;
            return None;
        }
        let c = self.input[start];
        proof {
            lemma_next_token_advances(self.input@, self.pos as int);
        }
        if c == '(' {
            self.pos = start + 1;
            Some(CssToken::OpenParen)
        } else if c == ')' {
            self.pos = start + 1;
            Some(CssToken::CloseParen)
        } else if c == ':' {
            self.pos = start + 1;
            Some(CssToken::Colon)
        } else if c == ';' {
            self.pos = start + 1;
            Some(CssToken::Semicolon)
        } else if c == '{' {
            self.pos = start + 1;
            Some(CssToken::OpenCurly)
        } else if c == '}' {
            self.pos = start + 1;
            Some(CssToken::CloseCurly)
        } else if c == '"' || c == '\'' {
            let end = self.scan(start + 1, CharClass::Quoted);
            self.pos = if end < self.input.len() {
                end + 1
            } else {
                end
            };
            Some(CssToken::StringToken(from_chars(&self.input, start + 1, end)))
        } else if '0' <= c && c <= '9' {
            let end = self.scan(start + 1, CharClass::Numeral);
            self.pos = end;
            Some(CssToken::Number(from_chars(&self.input, start, end)))
        } else if c == '#' {
            let end = self.scan(start + 1, CharClass::Name);
            self.pos = end;
            Some(CssToken::HashToken(from_chars(&self.input, start, end)))
        } else if c == '-' || c == '_' || ('a' <= c && c <= 'z') || ('A' <= c && c <= 'Z') {
            let end = self.scan(start + 1, CharClass::Name);
            self.pos = end;
            Some(CssToken::Ident(from_chars(&self.input, start, end)))
        } else if c == '@' && start + 1 < self.input.len() && (('a' <= self.input[start + 1]
            && self.input[start + 1] <= 'z') || ('A' <= self.input[start + 1] && self.input[start
            + 1] <= 'Z')) {
            let end = self.scan(start + 1, CharClass::Name);
            self.pos = end;
            Some(CssToken::AtKeyword(from_chars(&self.input, start + 1, end)))
        } else {
            self.pos = start + 1;
            Some(CssToken::Delim(c))
        }
    }

    /// All tokens that are left, in order.
    pub fn collect(&mut self) -> (v: Vec<CssToken>)
        requires
            old(self).wf(),
        ensures
            final(self).wf(),
            final(self).input == old(self).input,
            tokens_view(v@) == tokens_from(old(self).input@, old(self).pos as int),
    {
        let mut v: Vec<CssToken> = Vec::new();
        let ghost input = self.input@;
        let ghost start = self.pos as int;
        loop
            invariant
                self.wf(),
                self.input == old(self).input,
                input == old(self).input@,
                start == old(self).pos,
                tokens_view(v@) + tokens_from(input, self.pos as int) == tokens_from(
                    input,
                    start,
                ),
            decreases self.input.len() - self.pos,
        {
            let ghost pos = self.pos as int;
            let ghost seen = tokens_view(v@);
            proof {
                lemma_next_token_advances(input, pos);
            }
            match self.next() {
                Some(t) => {
                    v.push(t);
                    proof {
                        assert(tokens_view(v@) =~= seen + seq![t@]);
                        assert(tokens_from(input, pos) == seq![t@] + tokens_from(
                            input,
                            self.pos as int,
                        ));
                        assert(seen + (seq![t@] + tokens_from(input, self.pos as int)) =~= (seen
                            + seq![t@]) + tokens_from(input, self.pos as int));
                    }
                },
                None => {
                    assert(tokens_from(input, pos) =~= Seq::<CssTokenView>::empty());
                    assert(tokens_view(v@) + Seq::<CssTokenView>::empty() =~= tokens_view(v@));
                    return v;
                },
            }
        }
    }
}

} // verus!
