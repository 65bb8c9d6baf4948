//! The scanning rules, as functions on the input bytes.
use vstd::prelude::*;
use crate::token::{LexError, Token, TokenView};

verus! {

/// Bytes that the scanning rules name.
pub const SPACE: u8 = 32;
pub const TAB: u8 = 9;
pub const CR: u8 = 13;
pub const LF: u8 = 10;
pub const QUOTE: u8 = 34;
pub const UNDERSCORE: u8 = 95;
pub const UPPER_A: u8 = 65;
pub const UPPER_Z: u8 = 90;
pub const LOWER_A: u8 = 97;
pub const LOWER_Z: u8 = 122;
pub const DIGIT_0: u8 = 48;
pub const DIGIT_9: u8 = 57;

/// Space, tab, carriage return and newline separate tokens.
pub open spec fn is_space(b: u8) -> bool {
    b == SPACE || b == TAB || b == CR || b == LF
}

/// An ASCII letter or an underscore opens a name.
pub open spec fn is_name_start(b: u8) -> bool {
    (UPPER_A <= b && b <= UPPER_Z) || (LOWER_A <= b && b <= LOWER_Z) || b == UNDERSCORE
}

/// Letters, digits and underscores continue a name.
pub open spec fn is_name_byte(b: u8) -> bool {
    is_name_start(b) || (DIGIT_0 <= b && b <= DIGIT_9)
}

/// The punctuation that one byte makes on its own.
pub open spec fn single_punct(b: u8) -> Option<Token> {
    match b {
        43 => Some(Token::Add), // +
        42 => Some(Token::Mul), // *
        37 => Some(Token::Mod), // %
        94 => Some(Token::Pow), // ^
        35 => Some(Token::Len), // #
        38 => Some(Token::BitAnd), // &
        124 => Some(Token::BitOr), // |
        40 => Some(Token::ParLeft), // (
        41 => Some(Token::ParRight), // )
        123 => Some(Token::CurlyLeft), // {
        125 => Some(Token::CurlyRight), // }
        91 => Some(Token::SqurLeft), // [
        93 => Some(Token::SqurRight), // ]
        59 => Some(Token::SemiColon), // ;
        44 => Some(Token::Comma), // ,
        _ => None,
    }
}

/// The operators of one or two bytes: the byte that continues the long form,
/// the long form and the short one.
pub open spec fn double_punct(b: u8) -> Option<(u8, Token, Token)> {
    match b {
        47 => Some((47, Token::IntDiv, Token::Div)), // /
        61 => Some((61, Token::Equal, Token::Assign)), // =
        126 => Some((61, Token::NotEq, Token::BitXor)), // ~
        58 => Some((58, Token::DoubleColon, Token::Colon)), // :
        _ => None,
    }
}

/// The first index at or after `i` that holds no whitespace.
pub open spec fn skip_space(src: Seq<u8>, i: int) -> int
    decreases src.len() - i,
{
    if 0 <= i < src.len() && is_space(src[i]) {
        skip_space(src, i + 1)
    } else {
        i
    }
}

/// The first index at or after `i` that holds no name byte.
pub open spec fn name_end(src: Seq<u8>, i: int) -> int
    decreases src.len() - i,
{
    if 0 <= i < src.len() && is_name_byte(src[i]) {
        name_end(src, i + 1)
    } else {
        i
    }
}

/// The first index at or after `i` that holds a double quote, or the end of
/// the input.
pub open spec fn quote_end(src: Seq<u8>, i: int) -> int
    decreases src.len() - i,
{
    if 0 <= i < src.len() && src[i] != QUOTE {
        quote_end(src, i + 1)
    } else {
        i
    }
}

/// One token's worth of scanning from index `pos`: what it yields and the
/// index at which the next scan starts. A scan that fails stops at the byte
/// that it could not take (for a string without its closing quote, the
/// opening quote), so scanning again reports the same error.
pub open spec fn scan(src: Seq<u8>, pos: int) -> (Result<TokenView, LexError>, int) {
    let i = skip_space(src, pos);
    if i >= src.len() {
        (Ok(TokenView::Fixed(Token::Eos)), i)
    } else {
        let b = src[i];
        if single_punct(b) is Some {
            (Ok(TokenView::Fixed(single_punct(b)->0)), i + 1)
        } else if double_punct(b) is Some {
            let (next, long, short) = double_punct(b)->0;
            if i + 1 < src.len() && src[i + 1] == next {
                (Ok(TokenView::Fixed(long)), i + 2)
            } else {
                (Ok(TokenView::Fixed(short)), i + 1)
            }
        } else if b == QUOTE {
            let j = quote_end(src, i + 1);
            if j < src.len() {
                (Ok(TokenView::Str(src.subrange(i + 1, j))), j + 1)
            } else {
                (Err(LexError::UnterminatedString { start: i as usize }), i)
            }
        } else if is_name_start(b) {
            let j = name_end(src, i + 1);
            (Ok(TokenView::Name(src.subrange(i, j))), j)
        } else {
            (Err(LexError::UnexpectedChar { byte: b, offset: i as usize }), i)
        }
    }
}

/// Scanning from where the whitespace ends is the same as scanning from
/// before it.
pub proof fn lemma_scan_after_space(src: Seq<u8>, pos: int)
    requires
        0 <= pos <= src.len(),
    ensures
        scan(src, skip_space(src, pos)) == scan(src, pos),
{
    lemma_skip_space_bounds(src, pos);
    lemma_skip_space_fixed(src, pos);
}

/// A scan that yields the end-of-stream token has reached the end of the
/// input.
pub proof fn lemma_scan_eos_at_end(src: Seq<u8>, pos: int)
    requires
        0 <= pos <= src.len(),
        scan(src, pos).0 == Ok::<TokenView, LexError>(TokenView::Fixed(Token::Eos)),
    ensures
        scan(src, pos).1 == src.len(),
{
    lemma_skip_space_bounds(src, pos);
}

proof fn lemma_skip_space_bounds(src: Seq<u8>, i: int)
    requires
        0 <= i <= src.len(),
    ensures
        i <= skip_space(src, i) <= src.len(),
    decreases src.len() - i,
{
    if i < src.len() && is_space(src[i]) {
        lemma_skip_space_bounds(src, i + 1);
    }
}

proof fn lemma_skip_space_fixed(src: Seq<u8>, i: int)
    requires
        0 <= i <= src.len(),
    ensures
        skip_space(src, skip_space(src, i)) == skip_space(src, i),
    decreases src.len() - i,
{
    if i < src.len() && is_space(src[i]) {
        lemma_skip_space_fixed(src, i + 1);
    }
}

} // verus!
