use crate::ast::{Expression, Identifier, Program, Statement, StatementView};
use crate::grammar::{
    expectation_message, lemma_statement_rest, let_statement, parse, return_statement, statement,
    to_semicolon, token_ahead,
};
use crate::lexer::Lexer;
use crate::scan::{advance, end_token, is_stream, lemma_tokens_from_is_stream};
use crate::token::{Token, TokenType, TokenView};
use vstd::prelude::*;
use vstd::string::StringExecFns;

verus! {

/// A statement that may be missing, as contracts see it.
pub open spec fn statement_view(s: Option<Statement>) -> Option<StatementView> {
    match s {
        Some(s) => Some(s@),
        None => None,
    }
}

/// The two tokens that a parser looks at, as a queue of fixed length two:
/// the current token in front, the one behind it at the back.
pub struct Lookahead {
    cur_token: Token,
    peek_token: Token,
}

impl View for Lookahead {
    type V = Seq<TokenView>;

    closed spec fn view(&self) -> Seq<TokenView> {
        seq![self.cur_token@, self.peek_token@]
    }
}

impl Lookahead {
    /// A window that holds `first` in front and `second` behind it.
    pub fn new(first: Token, second: Token) -> (w: Lookahead)
        ensures
            w@ == seq![first@, second@],
    {
        Lookahead { cur_token: first, peek_token: second }
    }

    /// The token in front leaves, the one behind it moves to the front,
    /// and `next` comes in at the back.
    pub fn shift(&mut self, next: Token)
        ensures
            final(self)@ == seq![old(self)@[1], next@],
    {
        let mut token = next;
        std::mem::swap(&mut token, &mut self.peek_token);
        self.cur_token = token;
    }

    /// The token in front.
    pub fn cur(&self) -> (tok: &Token)
        ensures
            self@.len() == 2,
            tok@ == self@[0],
    {
        &self.cur_token
    }

    /// The token at the back.
    pub fn peek(&self) -> (tok: &Token)
        ensures
            self@.len() == 2,
            tok@ == self@[1],
    {
        &self.peek_token
    }
}

/// A recursive-descent parser that looks at two tokens at a time: the
/// current one and the one behind it.
pub struct Parser {
    l: Lexer,
    errors: Vec<String>,
    window: Lookahead,
}

impl Parser {
    /// The token stream that lies ahead: the current token, the one behind
    /// it, and what the lexer has yet to yield, up to and including the
    /// first end-of-input token.
    pub closed spec fn pending(&self) -> Seq<TokenView> {
        if self.window@[0].typ == TokenType::EOF {
            self.window@.take(1)
        } else if self.window@[1].typ == TokenType::EOF {
            self.window@
        } else {
            self.window@ + self.l.upcoming()
        }
    }

    /// The diagnostics gathered so far, oldest first.
    pub closed spec fn messages(&self) -> Seq<Seq<char>> {
        self.errors@.map_values(|e: String| e@)
    }

    /// The two tokens of the window are two pulls in a row from the lexer:
    /// behind an end-of-input token only end-of-input tokens follow.
    pub closed spec fn wf(&self) -> bool {
        &&& self.l.wf()
        &&& self.window@.len() == 2
        &&& self.window@[0].typ == TokenType::EOF ==> self.window@[0] == end_token()
            && self.window@[1] == end_token()
        &&& self.window@[1].typ == TokenType::EOF ==> self.window@[1] == end_token()
            && self.l.upcoming() == seq![end_token()]
    }

    /// What lies ahead of a well-formed parser is a token stream.
    pub proof fn lemma_pending_is_stream(&self)
        requires
            self.wf(),
        ensures
            is_stream(self.pending()),
    {
        lemma_tokens_from_is_stream(self.l.source(), self.l.cursor());
        let ts = self.pending();
        assert forall|k: int| 0 <= k < ts.len() - 1 implies (#[trigger] ts[k]).typ
            != TokenType::EOF by {}
    }

    /// Fills the window with the next two tokens of the lexer.
    pub fn new(lexer: Lexer) -> (p: Parser)
        requires
            lexer.wf(),
        ensures
            p.wf(),
            p.pending() == lexer.upcoming(),
            p.messages() == Seq::<Seq<char>>::empty(),
    {
        let mut l = lexer;
        let first = l.next_token();
        let second = l.next_token();
        proof {
            lemma_tokens_from_is_stream(lexer.source(), lexer.cursor());
        }
        Parser { l: l, errors: Vec::new(), window: Lookahead::new(first, second) }
    }

    /// The diagnostics gathered so far, oldest first.
    pub fn errors(&self) -> (errors: &Vec<String>)
        ensures
            errors@.map_values(|e: String| e@) == self.messages(),
    {
        &self.errors
    }

    /// Records that the token behind the current one is not of the
    /// category `typ`.
    pub fn peek_error(&mut self, typ: &TokenType)
        requires
            old(self).wf(),
        ensures
            final(self).wf(),
            final(self).pending() == old(self).pending(),
            final(self).messages() == old(self).messages().push(
                expectation_message(*typ, token_ahead(old(self).pending(), 1).typ),
            ),
    {
        let mut message = "expected next token to be '".to_owned();
        message.append(typ.name());
        message.append("', got '");
        message.append(self.window.peek().typ.name());
        message.append("' instead");
        self.errors.push(message);
    }

    /// Moves the window on by one token.
    pub fn next_token(&mut self)
        requires
            old(self).wf(),
        ensures
            final(self).wf(),
            final(self).pending() == advance(old(self).pending()),
            final(self).messages() == old(self).messages(),
    {
        proof {
            lemma_tokens_from_is_stream(self.l.source(), self.l.cursor());
        }
        let token = self.l.next_token();
        self.window.shift(token);
    }

    /// Whether the current token is of the category `typ`.
    pub fn cur_token_is(&self, typ: TokenType) -> (r: bool)
        requires
            self.wf(),
        ensures
            r == (token_ahead(self.pending(), 0).typ == typ),
    {
        self.window.cur().typ == typ
    }

    /// Whether the token behind the current one is of the category `typ`.
    pub fn peek_token_is(&self, typ: &TokenType) -> (r: bool)
        requires
            self.wf(),
        ensures
            r == (token_ahead(self.pending(), 1).typ == *typ),
    {
        self.window.peek().typ == *typ
    }

    /// Moves on if the token behind the current one is of the category
    /// `typ`; records a diagnostic and stays otherwise.
    pub fn expect_peek(&mut self, typ: TokenType) -> (r: bool)
        requires
            old(self).wf(),
        ensures
            final(self).wf(),
            r == (token_ahead(old(self).pending(), 1).typ == typ),
            r ==> final(self).pending() == advance(old(self).pending()) && final(self).messages()
                == old(self).messages(),
            !r ==> final(self).pending() == old(self).pending() && final(self).messages() == old(
                self,
            ).messages().push(expectation_message(typ, token_ahead(old(self).pending(), 1).typ)),
    {
        if self.peek_token_is(&typ) {
            self.next_token();
            true
        } else {
            self.peek_error(&typ);
            false
        }
    }

    /// Passes over tokens until the current one is a semicolon or the
    /// end-of-input token.
    fn skip_to_semicolon(&mut self)
        requires
            old(self).wf(),
        ensures
            final(self).wf(),
            final(self).pending() == to_semicolon(old(self).pending()),
            final(self).messages() == old(self).messages(),
    {
        while !self.cur_token_is(TokenType::Semicolon) && !self.cur_token_is(TokenType::EOF)
            invariant
                self.wf(),
                to_semicolon(self.pending()) == to_semicolon(old(self).pending()),
                self.messages() == old(self).messages(),
            decreases self.pending().len(),
        {
            proof {
                self.lemma_pending_is_stream();
            }
            self.next_token();
        }
    }

    /// Parses a binding, with the current token at its `let`. On success
    /// the current token is the semicolon that ends the binding, or the
    /// end-of-input token where there is none.
    pub fn parse_let_statement(&mut self) -> (r: Option<Statement>)
        requires
            old(self).wf(),
        ensures
            final(self).wf(),
            statement_view(r) == let_statement(old(self).pending()).statement,
            final(self).pending() == let_statement(old(self).pending()).rest,
            final(self).messages() == old(self).messages() + let_statement(
                old(self).pending(),
            ).errors,
    {
        proof {
            self.lemma_pending_is_stream();
        }
        if !self.expect_peek(TokenType::Ident) {
            return None;
        }
        let cur_token = self.window.cur().clone();
        let val = self.window.cur().literal.clone();
        let ident = Identifier::new(cur_token, val.as_str());
        assert(self.pending()[0] == self.window@[0]);
        if !self.expect_peek(TokenType::Assign) {
            return None;
        }
        self.skip_to_semicolon();
        Some(
            Statement::Let(
                ident,
                Expression::Identifier(
                    Identifier::new(Token::new(TokenType::Ident, val.as_str()), val.as_str()),
                ),
            ),
        )
    }

    /// Parses a return statement, with the current token at its `return`.
    /// Afterwards the current token is the semicolon that ends the
    /// statement, or the end-of-input token where there is none.
    pub fn parse_return_statement(&mut self) -> (r: Option<Statement>)
        requires
            old(self).wf(),
        ensures
            final(self).wf(),
            statement_view(r) == return_statement(old(self).pending()).statement,
            final(self).pending() == return_statement(old(self).pending()).rest,
            final(self).messages() == old(self).messages() + return_statement(
                old(self).pending(),
            ).errors,
    {
        self.next_token();
        self.skip_to_semicolon();
        proof {
            reveal_strlit("");
            assert(""@ =~= Seq::<char>::empty());
        }
        Some(
            Statement::Return(
                Expression::Identifier(Identifier::new(Token::new(TokenType::String, ""), "")),
            ),
        )
    }

    /// Attempts one statement at the current token.
    pub fn parse_statement(&mut self) -> (r: Option<Statement>)
        requires
            old(self).wf(),
        ensures
            final(self).wf(),
            statement_view(r) == statement(old(self).pending()).statement,
            final(self).pending() == statement(old(self).pending()).rest,
            final(self).messages() == old(self).messages() + statement(old(self).pending()).errors,
    {
        match self.window.cur().typ {
            TokenType::Let => self.parse_let_statement(),
            TokenType::Return => self.parse_return_statement(),
            TokenType::Illegal
            | TokenType::EOF
            | TokenType::Ident
            | TokenType::Int
            | TokenType::String
            | TokenType::Assign
            | TokenType::Plus
            | TokenType::Minus
            | TokenType::Bang
            | TokenType::Asterisk
            | TokenType::Slash
            | TokenType::LT
            | TokenType::GT
            | TokenType::Equal
            | TokenType::NotEqual
            | TokenType::Comma
            | TokenType::Semicolon
            | TokenType::Lparen
            | TokenType::Rparen
            | TokenType::Lbrace
            | TokenType::Rbrace
            | TokenType::Function
            | TokenType::True
            | TokenType::False
            | TokenType::If
            | TokenType::Else => None,
        }
    }

    /// Parses all that lies ahead. The parse itself never fails: what is
    /// malformed is left out of the program and reported in the
    /// diagnostics.
    pub fn parse_program(&mut self) -> (r: Result<Program, String>)
        requires
            old(self).wf(),
        ensures
            final(self).wf(),
            r is Ok,
            r->Ok_0@ == parse(old(self).pending()).statements,
            final(self).messages() == old(self).messages() + parse(old(self).pending()).errors,
            final(self).pending() == seq![end_token()],
    {
        let mut program = Program::new();
        let ghost all = parse(self.pending());
        while !self.cur_token_is(TokenType::EOF)
            invariant
                self.wf(),
                program@ + parse(self.pending()).statements == all.statements,
                self.messages() + parse(self.pending()).errors == old(self).messages()
                    + all.errors,
            decreases self.pending().len(),
        {
            proof {
                self.lemma_pending_is_stream();
                lemma_statement_rest(self.pending());
            }
            if let Some(stmt) = self.parse_statement() {
                program.statements.push(stmt);
            }
            self.next_token();
        }
        Ok(program)
    }
}

} // verus!
