use monkey::token::{lookup_ident, Token, TokenType};

const ALL_TYPES: [TokenType; 28] = [
    TokenType::Illegal,
    TokenType::EOF,
    TokenType::Ident,
    TokenType::Int,
    TokenType::String,
    TokenType::Assign,
    TokenType::Plus,
    TokenType::Minus,
    TokenType::Bang,
    TokenType::Asterisk,
    TokenType::Slash,
    TokenType::LT,
    TokenType::GT,
    TokenType::Equal,
    TokenType::NotEqual,
    TokenType::Comma,
    TokenType::Semicolon,
    TokenType::Lparen,
    TokenType::Rparen,
    TokenType::Lbrace,
    TokenType::Rbrace,
    TokenType::Function,
    TokenType::Let,
    TokenType::True,
    TokenType::False,
    TokenType::If,
    TokenType::Else,
    TokenType::Return,
];

#[test]
fn token_new_keeps_type_and_text() {
    let t = Token::new(TokenType::Ident, "foobar");
    assert_eq!(t.typ, TokenType::Ident);
    assert_eq!(t.literal, "foobar");

    let empty = Token::new(TokenType::EOF, "");
    assert_eq!(empty.typ, TokenType::EOF);
    assert_eq!(empty.literal, "");
}

#[test]
fn token_from_char_holds_exactly_that_char() {
    let t = Token::from_char(TokenType::Semicolon, ';');
    assert_eq!(t.typ, TokenType::Semicolon);
    assert_eq!(t.literal, ";");

    let wide = Token::from_char(TokenType::Illegal, '\u{e9}');
    assert_eq!(wide.literal, "\u{e9}");
    assert_eq!(wide.literal.chars().count(), 1);
}

#[test]
fn token_default_is_illegal_and_empty() {
    let t = Token::default();
    assert_eq!(t.typ, TokenType::Illegal);
    assert_eq!(t.literal, "");
}

#[test]
fn token_clone_is_equal_in_both_fields() {
    let t = Token::new(TokenType::Int, "838383");
    let c = t.clone();
    assert_eq!(c.typ, TokenType::Int);
    assert_eq!(c.literal, "838383");
    assert_eq!(t.literal, "838383");
}

#[test]
fn lookup_ident_finds_each_keyword() {
    assert_eq!(lookup_ident("fn"), TokenType::Function);
    assert_eq!(lookup_ident("let"), TokenType::Let);
    assert_eq!(lookup_ident("true"), TokenType::True);
    assert_eq!(lookup_ident("false"), TokenType::False);
    assert_eq!(lookup_ident("if"), TokenType::If);
    assert_eq!(lookup_ident("else"), TokenType::Else);
    assert_eq!(lookup_ident("return"), TokenType::Return);
}

#[test]
fn lookup_ident_falls_back_to_ident() {
    for word in ["foobar", "x", "", "_", "lets", "le", "Let", "LET", "fnn", "f", "returns", "iff", "True", "else_"] {
        assert_eq!(lookup_ident(word), TokenType::Ident, "{:?}", word);
    }
}

#[test]
fn lookup_ident_is_a_function_of_its_argument() {
    for word in ["fn", "let", "foobar", "return", ""] {
        assert_eq!(lookup_ident(word), lookup_ident(word));
    }
}

#[test]
fn category_names_are_the_variant_names() {
    for t in ALL_TYPES.iter() {
        assert_eq!(t.name(), format!("{:?}", t));
    }
    assert_eq!(TokenType::EOF.name(), "EOF");
    assert_eq!(TokenType::NotEqual.name(), "NotEqual");
    assert_eq!(TokenType::LT.name(), "LT");
}
