use vstd::prelude::*;

verus! {

/// One classified unit of source text.
#[derive(Debug, PartialEq)]
pub enum Token {
    // keywords
    And,
    Break,
    Do,
    Else,
    ElseIf,
    End,
    False,
    For,
    Function,
    Goto,
    If,
    In,
    Local,
    Nil,
    Not,
    Or,
    Repeat,
    Return,
    Then,
    True,
    Until,
    White,

    /// `+`
    Add,
    /// `-`
    Sub,
    /// `*`
    Mul,
    /// `/`
    Div,
    /// `%`
    Mod,
    /// `^`
    Pow,
    /// `#`
    Len,
    /// `&`
    BitAnd,
    /// `~`
    BitXor,
    /// `|`
    BitOr,
    /// `<<`
    ShiftLeft,
    /// `>>`
    ShiftRight,
    /// `//`
    IntDiv,
    /// `==`
    Equal,
    /// `~=`
    NotEq,
    /// `<=`
    LesEq,
    /// `>=`
    GreEq,
    /// `<`
    Less,
    /// `>`
    Greater,
    /// `=`
    Assign,
    /// `(`
    ParLeft,
    /// `)`
    ParRight,
    /// `{`
    CurlyLeft,
    /// `}`
    CurlyRight,
    /// `[`
    SqurLeft,
    /// `]`
    SqurRight,
    /// `::`
    DoubleColon,
    /// `;`
    SemiColon,
    /// `:`
    Colon,
    /// `,`
    Comma,
    /// `.`
    Dot,
    /// `..`
    Concat,
    /// `...`
    Dots,

    /// An integer constant.
    Interger(i64),
    /// A float constant, held as the bit pattern of an IEEE-754 double.
    Float(u64),
    /// A string constant: the bytes between the quotes, as they stand.
    String(Vec<u8>),

    /// The name of a variable or table key.
    Name(Vec<u8>),

    /// End of the stream.
    Eos,
}

/// What a token stands for, with the bytes of a string or a name as a sequence.
pub enum TokenView {
    /// A token that carries no bytes.
    Fixed(Token),
    /// A string constant with these bytes.
    Str(Seq<u8>),
    /// A name with these bytes.
    Name(Seq<u8>),
}

impl View for Token {
    type V = TokenView;

    open spec fn view(&self) -> TokenView {
        match self {
            Token::String(s) => TokenView::Str(s@),
            Token::Name(n) => TokenView::Name(n@),
            _ => TokenView::Fixed(*self),
        }
    }
}

/// Why scanning stopped.
#[derive(Debug, PartialEq, Eq, Structural, Clone, Copy)]
pub enum LexError {
    /// The input ended inside the string constant whose opening quote stands at `start`.
    UnterminatedString { start: usize },
    /// `byte`, at `offset`, starts no token.
    UnexpectedChar { byte: u8, offset: usize },
}

} // verus!
