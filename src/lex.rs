//! The lexer: a source cursor and a buffer of at most one token.
use vstd::prelude::*;
use crate::scan::{
    is_name_byte, is_name_start, is_space, lemma_scan_after_space, lemma_scan_eos_at_end, name_end,
    quote_end, scan, skip_space, CR, DIGIT_0, DIGIT_9, LF, LOWER_A, LOWER_Z, QUOTE, SPACE, TAB,
    UNDERSCORE, UPPER_A, UPPER_Z,
};
use crate::source::Source;
use crate::token::{LexError, Token, TokenView};

verus! {

/// What a lexer stands for: the input, the index of the next byte to scan,
/// and the token that a peek has buffered, if any.
pub struct LexView {
    pub src: Seq<u8>,
    pub pos: int,
    pub ahead: Option<TokenView>,
}

impl LexView {
    /// The cursor lies within the input.
    pub open spec fn in_bounds(self) -> bool {
        0 <= self.pos <= self.src.len()
    }

    /// Within bounds, and a buffered end-of-stream token means that the cursor
    /// has reached the end of the input.
    pub open spec fn wf(self) -> bool {
        &&& self.in_bounds()
        &&& self.ahead == Some(TokenView::Fixed(Token::Eos)) ==> self.pos == self.src.len()
    }
}

/// The view of a scanning result.
pub open spec fn result_view(r: Result<Token, LexError>) -> Result<TokenView, LexError> {
    match r {
        Ok(t) => Ok(t@),
        Err(e) => Err(e),
    }
}

/// `peek`: the buffered token if there is one; else one scan, whose token is
/// buffered when it succeeds.
pub open spec fn peek_model(v: LexView) -> (Result<TokenView, LexError>, LexView) {
    match v.ahead {
        Some(t) => (Ok(t), v),
        None => {
            let (res, end) = scan(v.src, v.pos);
            match res {
                Ok(t) => (Ok(t), LexView { pos: end, ahead: Some(t), ..v }),
                Err(e) => (Err(e), LexView { pos: end, ahead: None, ..v }),
            }
        },
    }
}

/// `next`: the buffered token if there is one, which leaves the buffer;
/// else one scan.
pub open spec fn next_model(v: LexView) -> (Result<TokenView, LexError>, LexView) {
    match v.ahead {
        Some(t) => (Ok(t), LexView { ahead: None, ..v }),
        None => {
            let (res, end) = scan(v.src, v.pos);
            (res, LexView { pos: end, ahead: None, ..v })
        },
    }
}

/// Peeking twice in a row: the second peek yields what the first yielded,
/// token or error, and leaves the lexer, cursor included, as the first left it.
pub proof fn lemma_peek_idempotent(v: LexView)
    requires
        v.wf(),
    ensures
        peek_model(peek_model(v).1) == peek_model(v),
        peek_model(peek_model(v).1).1.pos == peek_model(v).1.pos,
{
    if v.ahead is None {
        lemma_scan_after_space(v.src, v.pos);
    }
}

/// A peek followed at once by a next: the next yields what the peek yielded,
/// token or error, and leaves the lexer as a next without the peek would have.
pub proof fn lemma_peek_then_next(v: LexView)
    requires
        v.wf(),
    ensures
        next_model(peek_model(v).1).0 == peek_model(v).0,
        next_model(peek_model(v).1) == next_model(v),
{
    if v.ahead is None {
        lemma_scan_after_space(v.src, v.pos);
    }
}

/// Lexing does not resume after an error: a next that fails leaves the lexer
/// where a next made again fails with the same error.
pub proof fn lemma_error_repeats(v: LexView)
    requires
        v.wf(),
        next_model(v).0 is Err,
    ensures
        next_model(next_model(v).1) == next_model(v),
        peek_model(next_model(v).1).0 == next_model(v).0,
{
    lemma_scan_after_space(v.src, v.pos);
}

/// Once a next has yielded the end-of-stream token, the cursor stands at the
/// end of the input and every later request yields that token again, leaving
/// the lexer as it was.
pub proof fn lemma_end_of_stream_repeats(v: LexView)
    requires
        v.wf(),
        next_model(v).0 == Ok::<TokenView, LexError>(TokenView::Fixed(Token::Eos)),
    ensures
        next_model(v).1 == (LexView { pos: v.src.len() as int, ahead: None, ..v }),
        next_model(next_model(v).1) == next_model(v),
        peek_model(next_model(v).1).0 == next_model(v).0,
{
    if v.ahead is None {
        lemma_scan_eos_at_end(v.src, v.pos);
    }
}

/// A tokenizer over one input.
pub struct Lex {
    input: Source,
    ahead: Option<Token>,
}

impl View for Lex {
    type V = LexView;

    closed spec fn view(&self) -> LexView {
        LexView {
            src: self.input.bytes(),
            pos: self.input.pos(),
            ahead: match self.ahead {
                Some(t) => Some(t@),
                None => None,
            },
        }
    }
}

fn is_space_byte(b: u8) -> (r: bool)
    ensures
        r == is_space(b),
{
    b == SPACE || b == TAB || b == CR || b == LF
}

fn is_name_start_byte(b: u8) -> (r: bool)
    ensures
        r == is_name_start(b),
{
    (UPPER_A <= b && b <= UPPER_Z) || (LOWER_A <= b && b <= LOWER_Z) || b == UNDERSCORE
}

fn is_name_continue(b: u8) -> (r: bool)
    ensures
        r == is_name_byte(b),
{
    is_name_start_byte(b) || (DIGIT_0 <= b && b <= DIGIT_9)
}

impl Lex {
    pub open spec fn wf(&self) -> bool {
        self@.wf()
    }

    /// A lexer at the start of `input`, with nothing buffered.
    pub fn new(input: Vec<u8>) -> (r: Lex)
        ensures
            r.wf(),
            r@.src == input@,
            r@.pos == 0,
            r@.ahead is None,
    {
        Lex { input: Source::new(input), ahead: None }
    }

    /// Reads one byte; if it is `ahead`, yields `long`, else steps back and
    /// yields `short`.
    fn check_ahead(&mut self, ahead: u8, long: Token, short: Token) -> (r: Token)
        requires
            old(self)@.in_bounds(),
        ensures
            final(self)@.in_bounds(),
            final(self)@.src == old(self)@.src,
            final(self)@.ahead == old(self)@.ahead,
            ({
                let (src, p) = (old(self)@.src, old(self)@.pos);
                if p < src.len() && src[p] == ahead {
                    r == long && final(self)@.pos == p + 1
                } else {
                    r == short && final(self)@.pos == p
                }
            }),
    {
        match self.input.read_one() {
            Some(c) => {
                if c == ahead {
                    long
                } else {
                    self.input.unread_one();
                    short
                }
            },
            None => short,
        }
    }

    /// The next token, left in place: repeated peeks yield the same token and
    /// read nothing more.
    pub fn peek(&mut self) -> (r: Result<&Token, LexError>)
        requires
            old(self).wf(),
        ensures
            final(self).wf(),
            ({
                let (res, v) = peek_model(old(self)@);
                &&& final(self)@ == v
                &&& match r {
                    Ok(t) => res == Ok::<TokenView, LexError>(t@),
                    Err(e) => res == Err::<TokenView, LexError>(e),
                }
            }),
    {
        if self.ahead.is_none() {
            match self.do_next() {
                Ok(t) => {
                    self.ahead = Some(t);
                },
                Err(e) => {
                    return Err(e);
                },
            }
        }
        Ok(self.ahead.as_ref().unwrap())
    }

    /// The next token, consumed: the one that a peek buffered if there is
    /// one, else a fresh scan.
    pub fn next(&mut self) -> (r: Result<Token, LexError>)
        requires
            old(self).wf(),
        ensures
            final(self).wf(),
            (result_view(r), final(self)@) == next_model(old(self)@),
    {
        match self.ahead.take() {
            Some(t) => Ok(t),
            None => self.do_next(),
        }
    }

    /// Scans one token from the cursor, whatever the buffer holds: skips
    /// whitespace, then reads one lexeme.
    pub fn do_next(&mut self) -> (r: Result<Token, LexError>)
        requires
            old(self).wf(),
        ensures
            final(self).wf(),
            final(self)@.src == old(self)@.src,
            final(self)@.ahead == old(self)@.ahead,
            (result_view(r), final(self)@.pos) == scan(old(self)@.src, old(self)@.pos),
    {
        let ghost src = self@.src;
        let ghost p0 = self@.pos;
        let mut c = self.input.read_one();
        // `at` is the index of the byte that `c` holds, or the end of the input.
        let ghost mut at: int = p0;
        loop
            invariant
                self@.in_bounds(),
                self@.src == src,
                src == old(self)@.src,
                p0 == old(self)@.pos,
                self@.ahead == old(self)@.ahead,
                0 <= p0 <= at <= src.len(),
                skip_space(src, at) == skip_space(src, p0),
                c is Some ==> at < src.len() && c == Some(src[at]) && self@.pos == at + 1,
                c is None ==> at == src.len() && self@.pos == at,
            ensures
                skip_space(src, p0) == at,
            decreases src.len() - self@.pos + if c is Some { 1int } else { 0int },
        {
            match c {
                Some(b) => {
                    if is_space_byte(b) {
                        assert(skip_space(src, at) == skip_space(src, at + 1));
                        c = self.input.read_one();
                        proof {
                            at = at + 1;
                        }
                    } else {
                        break;
                    }
                },
                None => {
                    break;
                },
            }
        }
        let b = match c {
            Some(b) => b,
            None => {
                return Ok(Token::Eos);
            },
        };
        let i = self.input.position() - 1;
        match b {
            43 => Ok(Token::Add), // +
            42 => Ok(Token::Mul), // *
            37 => Ok(Token::Mod), // %
            94 => Ok(Token::Pow), // ^
            35 => Ok(Token::Len), // #
            38 => Ok(Token::BitAnd), // &
            124 => Ok(Token::BitOr), // |
            40 => Ok(Token::ParLeft), // (
            41 => Ok(Token::ParRight), // )
            123 => Ok(Token::CurlyLeft), // {
            125 => Ok(Token::CurlyRight), // }
            91 => Ok(Token::SqurLeft), // [
            93 => Ok(Token::SqurRight), // ]
            59 => Ok(Token::SemiColon), // ;
            44 => Ok(Token::Comma), // ,
            47 => Ok(self.check_ahead(47, Token::IntDiv, Token::Div)), // /
            61 => Ok(self.check_ahead(61, Token::Equal, Token::Assign)), // =
            126 => Ok(self.check_ahead(61, Token::NotEq, Token::BitXor)), // ~
            58 => Ok(self.check_ahead(58, Token::DoubleColon, Token::Colon)), // :
            _ => {
                if b == QUOTE {
                    self.scan_string(i)
                } else if is_name_start_byte(b) {
                    Ok(self.scan_name(b))
                } else {
                    self.input.unread_one();
                    Err(LexError::UnexpectedChar { byte: b, offset: i })
                }
            },
        }
    }

    /// The rest of a string constant whose opening quote stands at `start`,
    /// just before the cursor. Without a closing quote the cursor goes back
    /// to the opening one.
    fn scan_string(&mut self, start: usize) -> (r: Result<Token, LexError>)
        requires
            old(self)@.in_bounds(),
            old(self)@.pos == start + 1,
        ensures
            final(self)@.in_bounds(),
            final(self)@.src == old(self)@.src,
            final(self)@.ahead == old(self)@.ahead,
            ({
                let src = old(self)@.src;
                let j = quote_end(src, start + 1);
                if j < src.len() {
                    result_view(r) == Ok::<TokenView, LexError>(TokenView::Str(src.subrange(start + 1, j)))
                        && final(self)@.pos == j + 1
                } else {
                    r == Err::<Token, LexError>(LexError::UnterminatedString { start })
                        && final(self)@.pos == start
                }
            }),
    {
        let ghost src = self@.src;
        let mut s: Vec<u8> = Vec::new();
        loop
            invariant
                self@.in_bounds(),
                self@.src == src,
                src == old(self)@.src,
                self@.ahead == old(self)@.ahead,
                start + 1 <= self@.pos <= src.len(),
                s@ == src.subrange(start + 1, self@.pos),
                quote_end(src, self@.pos) == quote_end(src, start + 1),
            decreases src.len() - self@.pos,
        {
            let ghost p = self@.pos;
            match self.input.read_one() {
                Some(c) => {
                    if c == QUOTE {
                        return Ok(Token::String(s));
                    }
                    s.push(c);
                    assert(s@ == src.subrange(start + 1, p + 1));
                },
                None => {
                    self.input.rewind_to(start);
                    return Err(LexError::UnterminatedString { start });
                },
            }
        }
    }

    /// The rest of a name whose first byte `first` stands just before the
    /// cursor; the byte that ends the name is left unread.
    fn scan_name(&mut self, first: u8) -> (r: Token)
        requires
            old(self)@.in_bounds(),
            old(self)@.pos >= 1,
            old(self)@.src[old(self)@.pos - 1] == first,
        ensures
            final(self)@.in_bounds(),
            final(self)@.src == old(self)@.src,
            final(self)@.ahead == old(self)@.ahead,
            r@ == TokenView::Name(old(self)@.src.subrange(old(self)@.pos - 1, name_end(old(self)@.src, old(self)@.pos))),
            final(self)@.pos == name_end(old(self)@.src, old(self)@.pos),
    {
        let ghost src = self@.src;
        let ghost p0 = self@.pos;
        let mut s: Vec<u8> = Vec::new();
        s.push(first);
        loop
            invariant
                self@.in_bounds(),
                self@.src == src,
                src == old(self)@.src,
                p0 == old(self)@.pos,
                self@.ahead == old(self)@.ahead,
                1 <= p0 <= self@.pos <= src.len(),
                s@ == src.subrange(p0 - 1, self@.pos),
                name_end(src, self@.pos) == name_end(src, p0),
            decreases src.len() - self@.pos,
        {
            let ghost p = self@.pos;
            match self.input.read_one() {
                Some(c) => {
                    if is_name_continue(c) {
                        s.push(c);
                        assert(s@ == src.subrange(p0 - 1, p + 1));
                    } else {
                        self.input.unread_one();
                        return Token::Name(s);
                    }
                },
                None => {
                    return Token::Name(s);
                },
            }
        }
    }
}

} // verus!
