use crate::scan::{
    advance, digit, digits_end, lemma_pull_moves_forward, lemma_pull_takes_first, letter,
    letters_end, next_token_at, skip_blanks, text, tokens, tokens_from,
};
use crate::token::{lookup_ident, Token, TokenType, TokenView};
use vstd::prelude::*;
use vstd::string::StringSliceAdditionalSpecFns;

verus! {

/// The character that the cursor shows once the input is used up.
pub const ZERO_CHAR: char = '\0';

/// Whether `ch` may stand in an identifier.
pub fn is_letter(ch: char) -> (r: bool)
    ensures
        r == letter(ch),
{
    'a' <= ch && ch <= 'z' || 'A' <= ch && ch <= 'Z' || ch == '_'
}

/// Whether `ch` is a decimal digit.
pub fn is_digit(ch: char) -> (r: bool)
    ensures
        r == digit(ch),
{
    '0' <= ch && ch <= '9'
}

/// A cursor over an input text, read byte by byte.
pub struct Lexer {
    input: Vec<u8>,
    position: usize,
    read_position: usize,
    ch: char,
}

impl Lexer {
    /// The bytes of the input text.
    pub closed spec fn source(&self) -> Seq<u8> {
        self.input@
    }

    /// The position of the byte under the cursor; the length of the input
    /// once it is used up.
    pub closed spec fn cursor(&self) -> int {
        self.position as int
    }

    /// The tokens that this lexer has yet to yield, up to and including the
    /// first end-of-input token.
    pub open spec fn upcoming(&self) -> Seq<TokenView> {
        tokens_from(self.source(), self.cursor())
    }

    /// The cursor is inside the input or at its end, the read position is
    /// one ahead of it as long as there is a byte to read, and the current
    /// character is the byte under the cursor, or the sentinel at the end.
    pub closed spec fn wf(&self) -> bool {
        &&& self.position <= self.input@.len()
        &&& self.position < self.input@.len() ==> self.read_position == self.position + 1
        &&& self.position == self.input@.len() ==> self.read_position == self.position
        &&& self.ch == if self.position < self.input@.len() {
            self.input@[self.position as int] as char
        } else {
            ZERO_CHAR
        }
    }

    /// A lexer at the start of `input`.
    pub fn new(input: &str) -> (lexer: Lexer)
        ensures
            lexer.wf(),
            lexer.source() == input.spec_bytes(),
            lexer.cursor() == 0,
            lexer.upcoming() == tokens(input.spec_bytes()),
    {
        let mut lexer = Lexer {
            input: input.as_bytes_vec(),
            position: 0,
            read_position: 0,
            ch: ZERO_CHAR,
        };
        lexer.read_char();
        lexer
    }

    /// What a lexer yields depends on its input and on its cursor alone:
    /// two lexers over the same input, at the same place, have the same
    /// tokens ahead, and a lexer at the start of an input has the tokens of
    /// that input ahead.
    pub proof fn lemma_same_input_same_tokens(a: Lexer, b: Lexer)
        requires
            a.source() == b.source(),
            a.cursor() == b.cursor(),
        ensures
            a.upcoming() == b.upcoming(),
            a.cursor() == 0 ==> a.upcoming() == tokens(a.source()),
    {
    }

    /// Moves the cursor on by one byte; at the end of the input it stays
    /// there and shows the sentinel.
    fn read_char(&mut self)
        requires
            old(self).read_position <= old(self).input@.len(),
        ensures
            final(self).wf(),
            final(self).input@ == old(self).input@,
            final(self).position == old(self).read_position,
    {
        if self.read_position >= self.input.len() {
            self.ch = ZERO_CHAR;
            self.position = self.read_position;
        } else {
            self.ch = self.input[self.read_position] as char;
            self.position = self.read_position;
            self.read_position += 1;
        }
    }

    /// The bytes from `from` up to `to`, each as one character.
    fn slice_text(&self, from: usize, to: usize) -> (out: String)
        requires
            from <= to <= self.input@.len(),
        ensures
            out@ == text(self.input@, from as int, to as int),
    {
        let mut out = String::new();
        let mut i: usize = from;
        while i < to
            invariant
                from <= i <= to <= self.input@.len(),
                out@ == text(self.input@, from as int, i as int),
            decreases to - i,
        {
            out.push(self.input[i] as char);
            i += 1;
        }
        out
    }

    /// Reads the longest run of digits from the cursor on.
    fn read_number(&mut self) -> (literal: String)
        requires
            old(self).wf(),
        ensures
            final(self).wf(),
            final(self).source() == old(self).source(),
            final(self).cursor() == digits_end(old(self).source(), old(self).cursor()),
            literal@ == text(old(self).source(), old(self).cursor(), final(self).cursor()),
    {
        let position = self.position;
        while is_digit(self.ch)
            invariant
                self.wf(),
                self.input@ == old(self).input@,
                position <= self.position,
                digits_end(self.input@, self.position as int) == digits_end(
                    self.input@,
                    position as int,
                ),
            decreases self.input@.len() - self.position,
        {
            self.read_char();
        }
        self.slice_text(position, self.position)
    }

    /// Reads the longest run of letters from the cursor on.
    fn read_identifier(&mut self) -> (literal: String)
        requires
            old(self).wf(),
        ensures
            final(self).wf(),
            final(self).source() == old(self).source(),
            final(self).cursor() == letters_end(old(self).source(), old(self).cursor()),
            literal@ == text(old(self).source(), old(self).cursor(), final(self).cursor()),
    {
        let position = self.position;
        while is_letter(self.ch)
            invariant
                self.wf(),
                self.input@ == old(self).input@,
                position <= self.position,
                letters_end(self.input@, self.position as int) == letters_end(
                    self.input@,
                    position as int,
                ),
            decreases self.input@.len() - self.position,
        {
            self.read_char();
        }
        self.slice_text(position, self.position)
    }

    /// The character behind the one under the cursor, or the sentinel where
    /// there is none.
    fn peek_char(&self) -> (ch: char)
        requires
            self.wf(),
        ensures
            ch == if self.cursor() + 1 < self.source().len() {
                self.source()[self.cursor() + 1] as char
            } else {
                ZERO_CHAR
            },
    {
        if self.read_position >= self.input.len() {
            ZERO_CHAR
        } else {
            self.input[self.read_position] as char
        }
    }

    /// Moves the cursor to the next byte that is no whitespace.
    fn skip_whitespace(&mut self)
        requires
            old(self).wf(),
        ensures
            final(self).wf(),
            final(self).source() == old(self).source(),
            final(self).cursor() == skip_blanks(old(self).source(), old(self).cursor()),
    {
        while self.ch == ' ' || self.ch == '\t' || self.ch == '\n' || self.ch == '\r'
            invariant
                self.wf(),
                self.input@ == old(self).input@,
                skip_blanks(self.input@, self.position as int) == skip_blanks(
                    self.input@,
                    old(self).position as int,
                ),
            decreases self.input@.len() - self.position,
        {
            self.read_char();
        }
    }

    /// Reads one token and moves the cursor behind it. At the end of the
    /// input the token is the end-of-input token and the cursor stays.
    pub fn next_token(&mut self) -> (tok: Token)
        requires
            old(self).wf(),
        ensures
            final(self).wf(),
            final(self).source() == old(self).source(),
            tok@ == next_token_at(old(self).source(), old(self).cursor()).0,
            final(self).cursor() == next_token_at(old(self).source(), old(self).cursor()).1,
            old(self).cursor() <= final(self).cursor() <= final(self).source().len(),
            tok@ == old(self).upcoming()[0],
            final(self).upcoming() == advance(old(self).upcoming()),
    {
        proof {
            lemma_pull_moves_forward(self.source(), self.cursor());
            lemma_pull_takes_first(self.source(), self.cursor());
        }
        self.skip_whitespace();
        if self.position >= self.input.len() {
            proof {
                reveal_strlit("");
                assert(""@ =~= Seq::<char>::empty());
            }
            return Token::new(TokenType::EOF, "");
        }
        proof {
            reveal_strlit("==");
            reveal_strlit("!=");
            assert("=="@ =~= seq!['=', '=']);
            assert("!="@ =~= seq!['!', '=']);
        }
        let token = match self.ch {
            '=' => {
                if self.peek_char() == '=' {
                    self.read_char();
                    Token::new(TokenType::Equal, "==")
                } else {
                    Token::from_char(TokenType::Assign, self.ch)
                }
            },
            '+' => Token::from_char(TokenType::Plus, self.ch),
            '-' => Token::from_char(TokenType::Minus, self.ch),
            '!' => {
                if self.peek_char() == '=' {
                    self.read_char();
                    Token::new(TokenType::NotEqual, "!=")
                } else {
                    Token::from_char(TokenType::Bang, self.ch)
                }
            },
            '/' => Token::from_char(TokenType::Slash, self.ch),
            '*' => Token::from_char(TokenType::Asterisk, self.ch),
            '<' => Token::from_char(TokenType::LT, self.ch),
            '>' => Token::from_char(TokenType::GT, self.ch),
            ';' => Token::from_char(TokenType::Semicolon, self.ch),
            '(' => Token::from_char(TokenType::Lparen, self.ch),
            ')' => Token::from_char(TokenType::Rparen, self.ch),
            ',' => Token::from_char(TokenType::Comma, self.ch),
            '{' => Token::from_char(TokenType::Lbrace, self.ch),
            '}' => Token::from_char(TokenType::Rbrace, self.ch),
            _ => {
                if is_letter(self.ch) {
                    let literal = self.read_identifier();
                    return Token::new(lookup_ident(literal.as_str()), literal.as_str());
                } else if is_digit(self.ch) {
                    let literal = self.read_number();
                    return Token::new(TokenType::Int, literal.as_str());
                } else {
                    Token::from_char(TokenType::Illegal, self.ch)
                }
            },
        };
        self.read_char();
        token
    }
}

} // verus!
