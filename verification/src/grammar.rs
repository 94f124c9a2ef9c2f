use crate::ast::{ExpressionView, IdentifierView, StatementView};
use crate::scan::{advance, end_token, is_stream};
use crate::token::{category_name, TokenType, TokenView};
use vstd::prelude::*;

verus! {

/// The token `k` places ahead in a stream; behind the end of the stream
/// lies the end-of-input token, as often as one looks.
pub open spec fn token_ahead(ts: Seq<TokenView>, k: int) -> TokenView {
    if 0 <= k < ts.len() {
        ts[k]
    } else {
        end_token()
    }
}

/// The diagnostic for a token of the wrong category.
pub open spec fn expectation_message(expected: TokenType, actual: TokenType) -> Seq<char> {
    "expected next token to be '"@ + category_name(expected) + "', got '"@ + category_name(actual)
        + "' instead"@
}

/// What an attempt at one statement gives: the statement, if one was
/// recognised, the diagnostics that the attempt added, and the token stream
/// that lies ahead afterwards, beginning with the token last looked at.
pub struct Outcome {
    pub statement: Option<StatementView>,
    pub errors: Seq<Seq<char>>,
    pub rest: Seq<TokenView>,
}

/// What a whole parse gives.
pub struct Parsed {
    pub statements: Seq<StatementView>,
    pub errors: Seq<Seq<char>>,
}

/// The stream from its next semicolon on, or from its end-of-input token
/// where no semicolon comes before that.
pub open spec fn to_semicolon(ts: Seq<TokenView>) -> Seq<TokenView>
    decreases ts.len(),
{
    if ts.len() <= 1 || ts[0].typ == TokenType::Semicolon || ts[0].typ == TokenType::EOF {
        ts
    } else {
        to_semicolon(ts.drop_first())
    }
}

/// The reference to a name that stands in for the value of a binding.
pub open spec fn name_reference(name: Seq<char>) -> ExpressionView {
    ExpressionView::Identifier(
        IdentifierView {
            tok: TokenView { typ: TokenType::Ident, literal: name },
            value: name,
        },
    )
}

/// The empty expression that stands in for the value of a return statement.
pub open spec fn empty_value() -> ExpressionView {
    ExpressionView::Identifier(
        IdentifierView {
            tok: TokenView { typ: TokenType::String, literal: Seq::empty() },
            value: Seq::empty(),
        },
    )
}

/// A binding statement, with the stream at its `let`: an identifier has to
/// follow, then `=`; what stands between the `=` and the next semicolon is
/// passed over. The value of the binding is a reference to the bound name.
pub open spec fn let_statement(ts: Seq<TokenView>) -> Outcome {
    let name = token_ahead(ts, 1);
    if name.typ != TokenType::Ident {
        Outcome {
            statement: None,
            errors: seq![expectation_message(TokenType::Ident, name.typ)],
            rest: ts,
        }
    } else if token_ahead(ts, 2).typ != TokenType::Assign {
        Outcome {
            statement: None,
            errors: seq![expectation_message(TokenType::Assign, token_ahead(ts, 2).typ)],
            rest: advance(ts),
        }
    } else {
        Outcome {
            statement: Some(
                StatementView::Let(
                    IdentifierView { tok: name, value: name.literal },
                    name_reference(name.literal),
                ),
            ),
            errors: Seq::empty(),
            rest: to_semicolon(advance(advance(ts))),
        }
    }
}

/// A return statement, with the stream at its `return`: what stands between
/// the keyword and the next semicolon is passed over.
pub open spec fn return_statement(ts: Seq<TokenView>) -> Outcome {
    Outcome {
        statement: Some(StatementView::Return(empty_value())),
        errors: Seq::empty(),
        rest: to_semicolon(advance(ts)),
    }
}

/// One attempt at a statement: `let` begins a binding, `return` a return
/// statement, and every other token begins nothing.
pub open spec fn statement(ts: Seq<TokenView>) -> Outcome {
    match token_ahead(ts, 0).typ {
        TokenType::Let => let_statement(ts),
        TokenType::Return => return_statement(ts),
        _ => Outcome { statement: None, errors: Seq::empty(), rest: ts },
    }
}

/// The statement of an outcome as a sequence: empty, or of length one.
pub open spec fn found(o: Outcome) -> Seq<StatementView> {
    match o.statement {
        Some(s) => seq![s],
        None => Seq::empty(),
    }
}

/// The parse of a token stream: statements are attempted one after the
/// other, with one token passed over after each attempt, until the
/// end-of-input token lies ahead.
pub open spec fn parse(ts: Seq<TokenView>) -> Parsed
    decreases ts.len(),
{
    if ts.len() <= 1 || ts[0].typ == TokenType::EOF {
        Parsed { statements: Seq::empty(), errors: Seq::empty() }
    } else {
        let o = statement(ts);
        proof {
            lemma_statement_rest(ts);
        }
        let tail = parse(advance(o.rest));
        Parsed { statements: found(o) + tail.statements, errors: o.errors + tail.errors }
    }
}

/// Passing over tokens up to a semicolon leaves a stream a stream, makes it
/// no longer, and stops at a semicolon or at the end of the input.
pub proof fn lemma_to_semicolon(ts: Seq<TokenView>)
    ensures
        to_semicolon(ts).len() <= ts.len(),
        is_stream(ts) ==> is_stream(to_semicolon(ts)),
        is_stream(ts) ==> to_semicolon(ts)[0].typ == TokenType::Semicolon || to_semicolon(ts)[0].typ
            == TokenType::EOF,
    decreases ts.len(),
{
    if !(ts.len() <= 1 || ts[0].typ == TokenType::Semicolon || ts[0].typ == TokenType::EOF) {
        lemma_to_semicolon(ts.drop_first());
    }
}

/// An attempt at a statement never makes the stream ahead longer, and
/// leaves a stream a stream.
pub proof fn lemma_statement_rest(ts: Seq<TokenView>)
    ensures
        statement(ts).rest.len() <= ts.len(),
        is_stream(ts) ==> is_stream(statement(ts).rest),
{
    lemma_to_semicolon(advance(advance(ts)));
}

/// A binding whose name is not followed by `=` gives no statement and the
/// one diagnostic that `=` was expected, whatever stands in its place.
pub proof fn lemma_binding_without_assign(ts: Seq<TokenView>)
    requires
        token_ahead(ts, 0).typ == TokenType::Let,
        token_ahead(ts, 1).typ == TokenType::Ident,
        token_ahead(ts, 2).typ != TokenType::Assign,
    ensures
        statement(ts).statement is None,
        statement(ts).errors == seq![
            expectation_message(TokenType::Assign, token_ahead(ts, 2).typ),
        ],
{
}

} // verus!
