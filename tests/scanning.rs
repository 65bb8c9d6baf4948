use lualex::lex::Lex;
use lualex::source::Source;
use lualex::token::{LexError, Token};

fn lexer(text: &str) -> Lex {
    Lex::new(text.as_bytes().to_vec())
}

fn all_tokens(text: &str) -> Vec<Token> {
    let mut l = lexer(text);
    let mut out = Vec::new();
    loop {
        let t = l.next().unwrap();
        if t == Token::Eos {
            break;
        }
        out.push(t);
    }
    out
}

#[test]
fn peek_twice_gives_the_same_token() {
    let mut l = lexer("abc = 1");
    let first = format!("{:?}", l.peek().unwrap());
    let second = format!("{:?}", l.peek().unwrap());
    assert_eq!(first, second);
    assert_eq!(l.next(), Ok(Token::Name(b"abc".to_vec())));
    assert_eq!(l.next(), Ok(Token::Assign));
}

#[test]
fn peek_then_next_agree() {
    let mut l = lexer("  == x");
    assert_eq!(l.peek(), Ok(&Token::Equal));
    assert_eq!(l.next(), Ok(Token::Equal));
    assert_eq!(l.peek(), Ok(&Token::Name(b"x".to_vec())));
    assert_eq!(l.next(), Ok(Token::Name(b"x".to_vec())));
    assert_eq!(l.next(), Ok(Token::Eos));
}

#[test]
fn compound_operators() {
    assert_eq!(all_tokens("=="), vec![Token::Equal]);
    assert_eq!(all_tokens("="), vec![Token::Assign]);
    assert_eq!(all_tokens("~="), vec![Token::NotEq]);
    assert_eq!(all_tokens("~"), vec![Token::BitXor]);
    assert_eq!(all_tokens("::"), vec![Token::DoubleColon]);
    assert_eq!(all_tokens(":"), vec![Token::Colon]);
    assert_eq!(all_tokens("//"), vec![Token::IntDiv]);
    assert_eq!(all_tokens("/"), vec![Token::Div]);
}

#[test]
fn short_operator_leaves_next_byte() {
    assert_eq!(all_tokens("=+"), vec![Token::Assign, Token::Add]);
    assert_eq!(all_tokens("==="), vec![Token::Equal, Token::Assign]);
    assert_eq!(all_tokens("~~="), vec![Token::BitXor, Token::NotEq]);
    assert_eq!(all_tokens("/ /"), vec![Token::Div, Token::Div]);
}

#[test]
fn single_punctuation() {
    assert_eq!(
        all_tokens("+*%^#&|(){}[];,"),
        vec![
            Token::Add,
            Token::Mul,
            Token::Mod,
            Token::Pow,
            Token::Len,
            Token::BitAnd,
            Token::BitOr,
            Token::ParLeft,
            Token::ParRight,
            Token::CurlyLeft,
            Token::CurlyRight,
            Token::SqurLeft,
            Token::SqurRight,
            Token::SemiColon,
            Token::Comma,
        ]
    );
}

#[test]
fn identifier_maximal_munch() {
    let mut l = lexer("abc123 def");
    assert_eq!(l.next(), Ok(Token::Name(b"abc123".to_vec())));
    assert_eq!(l.next(), Ok(Token::Name(b"def".to_vec())));
    assert_eq!(l.next(), Ok(Token::Eos));
}

#[test]
fn identifier_stops_at_punctuation() {
    assert_eq!(
        all_tokens("_a_1(b)"),
        vec![
            Token::Name(b"_a_1".to_vec()),
            Token::ParLeft,
            Token::Name(b"b".to_vec()),
            Token::ParRight,
        ]
    );
}

#[test]
fn keywords_are_names() {
    assert_eq!(all_tokens("local"), vec![Token::Name(b"local".to_vec())]);
}

#[test]
fn string_literal_exact() {
    let mut l = lexer("\"hello\"");
    assert_eq!(l.next(), Ok(Token::String(b"hello".to_vec())));
    assert_eq!(l.next(), Ok(Token::Eos));
}

#[test]
fn string_literal_keeps_bytes_as_they_stand() {
    assert_eq!(
        all_tokens("\"a\\n b\" \"\""),
        vec![Token::String(b"a\\n b".to_vec()), Token::String(Vec::new())]
    );
}

#[test]
fn unterminated_string() {
    let mut l = lexer("\"abc");
    assert_eq!(l.next(), Err(LexError::UnterminatedString { start: 0 }));
    let mut m = lexer("x  \"");
    assert_eq!(m.next(), Ok(Token::Name(b"x".to_vec())));
    assert_eq!(m.peek(), Err(LexError::UnterminatedString { start: 3 }));
    assert_eq!(m.peek(), Err(LexError::UnterminatedString { start: 3 }));
    assert_eq!(m.next(), Err(LexError::UnterminatedString { start: 3 }));
}

#[test]
fn failed_peek_consumes_nothing() {
    let mut l = lexer("1+");
    assert_eq!(l.peek(), Err(LexError::UnexpectedChar { byte: b'1', offset: 0 }));
    assert_eq!(l.peek(), Err(LexError::UnexpectedChar { byte: b'1', offset: 0 }));
    assert_eq!(l.next(), Err(LexError::UnexpectedChar { byte: b'1', offset: 0 }));
    assert_eq!(l.next(), Err(LexError::UnexpectedChar { byte: b'1', offset: 0 }));
}

#[test]
fn unexpected_character() {
    let mut l = lexer("1");
    assert_eq!(l.next(), Err(LexError::UnexpectedChar { byte: b'1', offset: 0 }));
    let mut m = lexer(" +-");
    assert_eq!(m.next(), Ok(Token::Add));
    assert_eq!(m.peek(), Err(LexError::UnexpectedChar { byte: b'-', offset: 2 }));
    assert_eq!(m.next(), Err(LexError::UnexpectedChar { byte: b'-', offset: 2 }));
}

#[test]
fn empty_input() {
    let mut l = lexer("");
    assert_eq!(l.peek(), Ok(&Token::Eos));
    assert_eq!(l.next(), Ok(Token::Eos));
    assert_eq!(l.next(), Ok(Token::Eos));
    assert_eq!(l.peek(), Ok(&Token::Eos));
    assert_eq!(l.next(), Ok(Token::Eos));
}

#[test]
fn whitespace_only_input() {
    let mut l = lexer(" \t\r\n ");
    assert_eq!(l.next(), Ok(Token::Eos));
    assert_eq!(l.next(), Ok(Token::Eos));
}

#[test]
fn do_next_ignores_the_buffer() {
    let mut l = lexer("a b");
    assert_eq!(l.peek(), Ok(&Token::Name(b"a".to_vec())));
    assert_eq!(l.do_next(), Ok(Token::Name(b"b".to_vec())));
    assert_eq!(l.next(), Ok(Token::Name(b"a".to_vec())));
    assert_eq!(l.next(), Ok(Token::Eos));
}

#[test]
fn source_reads_and_steps_back() {
    let mut s = Source::new(vec![7, 8]);
    assert_eq!(s.read_one(), Some(7));
    assert_eq!(s.position(), 1);
    s.unread_one();
    assert_eq!(s.position(), 0);
    assert_eq!(s.read_one(), Some(7));
    assert_eq!(s.read_one(), Some(8));
    assert_eq!(s.read_one(), None);
    assert_eq!(s.position(), 2);
    s.rewind_to(0);
    assert_eq!(s.read_one(), Some(7));
}
