use crate::strings::same_text;
use vstd::prelude::*;

verus! {

/// The closed set of lexical categories.
#[derive(PartialEq, Eq, Structural, Debug, Clone, Copy)]
pub enum TokenType {
    Illegal,
    EOF,
    Ident,
    Int,
    String,
    Assign,
    Plus,
    Minus,
    Bang,
    Asterisk,
    Slash,
    LT,
    GT,
    Equal,
    NotEqual,
    Comma,
    Semicolon,
    Lparen,
    Rparen,
    Lbrace,
    Rbrace,
    Function,
    Let,
    True,
    False,
    If,
    Else,
    Return,
}

/// The name of a category, as diagnostics print it.
pub open spec fn category_name(typ: TokenType) -> Seq<char> {
    match typ {
        TokenType::Illegal => "Illegal"@,
        TokenType::EOF => "EOF"@,
        TokenType::Ident => "Ident"@,
        TokenType::Int => "Int"@,
        TokenType::String => "String"@,
        TokenType::Assign => "Assign"@,
        TokenType::Plus => "Plus"@,
        TokenType::Minus => "Minus"@,
        TokenType::Bang => "Bang"@,
        TokenType::Asterisk => "Asterisk"@,
        TokenType::Slash => "Slash"@,
        TokenType::LT => "LT"@,
        TokenType::GT => "GT"@,
        TokenType::Equal => "Equal"@,
        TokenType::NotEqual => "NotEqual"@,
        TokenType::Comma => "Comma"@,
        TokenType::Semicolon => "Semicolon"@,
        TokenType::Lparen => "Lparen"@,
        TokenType::Rparen => "Rparen"@,
        TokenType::Lbrace => "Lbrace"@,
        TokenType::Rbrace => "Rbrace"@,
        TokenType::Function => "Function"@,
        TokenType::Let => "Let"@,
        TokenType::True => "True"@,
        TokenType::False => "False"@,
        TokenType::If => "If"@,
        TokenType::Else => "Else"@,
        TokenType::Return => "Return"@,
    }
}

impl TokenType {
    /// The name of this category, as diagnostics print it.
    pub fn name(&self) -> (name: &'static str)
        ensures
            name@ == category_name(*self),
    {
        match self {
            TokenType::Illegal => "Illegal",
            TokenType::EOF => "EOF",
            TokenType::Ident => "Ident",
            TokenType::Int => "Int",
            TokenType::String => "String",
            TokenType::Assign => "Assign",
            TokenType::Plus => "Plus",
            TokenType::Minus => "Minus",
            TokenType::Bang => "Bang",
            TokenType::Asterisk => "Asterisk",
            TokenType::Slash => "Slash",
            TokenType::LT => "LT",
            TokenType::GT => "GT",
            TokenType::Equal => "Equal",
            TokenType::NotEqual => "NotEqual",
            TokenType::Comma => "Comma",
            TokenType::Semicolon => "Semicolon",
            TokenType::Lparen => "Lparen",
            TokenType::Rparen => "Rparen",
            TokenType::Lbrace => "Lbrace",
            TokenType::Rbrace => "Rbrace",
            TokenType::Function => "Function",
            TokenType::Let => "Let",
            TokenType::True => "True",
            TokenType::False => "False",
            TokenType::If => "If",
            TokenType::Else => "Else",
            TokenType::Return => "Return",
        }
    }
}

/// What a token is in contracts: its category and the characters it carries.
pub struct TokenView {
    pub typ: TokenType,
    pub literal: Seq<char>,
}

/// A category together with the exact source text that produced it.
#[derive(Debug)]
pub struct Token {
    pub typ: TokenType,
    pub literal: String,
}

impl View for Token {
    type V = TokenView;

    open spec fn view(&self) -> TokenView {
        TokenView { typ: self.typ, literal: self.literal@ }
    }
}

impl Clone for Token {
    fn clone(&self) -> (t: Token)
        ensures
            t@ == self@,
    {
        Token { typ: self.typ, literal: self.literal.clone() }
    }
}

impl Token {
    /// A token of category `typ` that carries the text `literal`.
    pub fn new(typ: TokenType, literal: &str) -> (t: Token)
        ensures
            t@ == (TokenView { typ: typ, literal: literal@ }),
    {
        Token { typ: typ, literal: literal.to_owned() }
    }

    /// A token of category `typ` that carries the one character `ch`.
    pub fn from_char(typ: TokenType, ch: char) -> (t: Token)
        ensures
            t@ == (TokenView { typ: typ, literal: seq![ch] }),
    {
        let mut literal = String::new();
        literal.push(ch);
        Token { typ: typ, literal: literal }
    }

    /// The token that stands for "nothing read yet".
    pub fn default() -> (t: Token)
        ensures
            t@ == (TokenView { typ: TokenType::Illegal, literal: Seq::<char>::empty() }),
    {
        Token { typ: TokenType::Illegal, literal: String::new() }
    }
}

/// The category of an identifier-shaped text: that of the reserved word it
/// spells, letter for letter, and `Ident` for every other text.
pub open spec fn keyword(s: Seq<char>) -> TokenType {
    if s == "fn"@ {
        TokenType::Function
    } else if s == "let"@ {
        TokenType::Let
    } else if s == "true"@ {
        TokenType::True
    } else if s == "false"@ {
        TokenType::False
    } else if s == "if"@ {
        TokenType::If
    } else if s == "else"@ {
        TokenType::Else
    } else if s == "return"@ {
        TokenType::Return
    } else {
        TokenType::Ident
    }
}

/// Each of the seven reserved words has its own category, and a text that
/// is none of them is an identifier.
pub proof fn lemma_keywords(s: Seq<char>)
    ensures
        keyword("fn"@) == TokenType::Function,
        keyword("let"@) == TokenType::Let,
        keyword("true"@) == TokenType::True,
        keyword("false"@) == TokenType::False,
        keyword("if"@) == TokenType::If,
        keyword("else"@) == TokenType::Else,
        keyword("return"@) == TokenType::Return,
        s != "fn"@ && s != "let"@ && s != "true"@ && s != "false"@ && s != "if"@ && s != "else"@
            && s != "return"@ ==> keyword(s) == TokenType::Ident,
{
    reveal_strlit("fn");
    reveal_strlit("let");
    reveal_strlit("true");
    reveal_strlit("false");
    reveal_strlit("if");
    reveal_strlit("else");
    reveal_strlit("return");
    assert("fn"@.len() == 2 && "if"@.len() == 2 && "fn"@[0] != "if"@[0]);
    assert("true"@.len() == 4 && "else"@.len() == 4 && "true"@[0] != "else"@[0]);
    assert("false"@.len() == 5);
    assert("return"@.len() == 6);
}

/// The category of an identifier-shaped text: a keyword's own category
/// where the text is that keyword, `Ident` otherwise.
pub fn lookup_ident(ident: &str) -> (typ: TokenType)
    ensures
        typ == keyword(ident@),
{
    if same_text(ident, "fn") {
        TokenType::Function
    } else if same_text(ident, "let") {
        TokenType::Let
    } else if same_text(ident, "true") {
        TokenType::True
    } else if same_text(ident, "false") {
        TokenType::False
    } else if same_text(ident, "if") {
        TokenType::If
    } else if same_text(ident, "else") {
        TokenType::Else
    } else if same_text(ident, "return") {
        TokenType::Return
    } else {
        TokenType::Ident
    }
}

} // verus!
