use crate::token::{Token, TokenView};
use vstd::prelude::*;
use vstd::string::StringExecFns;

verus! {

/// What an identifier is in contracts.
pub struct IdentifierView {
    pub tok: TokenView,
    pub value: Seq<char>,
}

/// What a literal is in contracts.
pub enum LiteralView {
    Int(int),
    String(Seq<char>),
    Bool(bool),
}

/// What an expression is in contracts.
pub enum ExpressionView {
    Identifier(IdentifierView),
    Literal(LiteralView),
}

/// What a statement is in contracts.
pub enum StatementView {
    Let(IdentifierView, ExpressionView),
    Return(ExpressionView),
    Expression(ExpressionView),
}

/// A name, with the token it was read from.
pub struct Identifier {
    pub tok: Token,
    pub value: String,
}

/// An integer, a text or a truth value written out in the source.
pub enum Literal {
    Int(i32),
    String(String),
    Bool(bool),
}

/// A reference to a name, or a literal.
pub enum Expression {
    Identifier(Identifier),
    Literal(Literal),
}

/// A binding of a name to a value, a return of a value, or a bare
/// expression.
pub enum Statement {
    Let(Identifier, Expression),
    Return(Expression),
    Expression(Expression),
}

/// The statements of a source text, in source order.
pub struct Program {
    pub statements: Vec<Statement>,
}

impl View for Identifier {
    type V = IdentifierView;

    open spec fn view(&self) -> IdentifierView {
        IdentifierView { tok: self.tok@, value: self.value@ }
    }
}

impl View for Literal {
    type V = LiteralView;

    open spec fn view(&self) -> LiteralView {
        match self {
            Literal::Int(i) => LiteralView::Int(*i as int),
            Literal::String(s) => LiteralView::String(s@),
            Literal::Bool(b) => LiteralView::Bool(*b),
        }
    }
}

impl View for Expression {
    type V = ExpressionView;

    open spec fn view(&self) -> ExpressionView {
        match self {
            Expression::Identifier(ident) => ExpressionView::Identifier(ident@),
            Expression::Literal(l) => ExpressionView::Literal(l@),
        }
    }
}

impl View for Statement {
    type V = StatementView;

    open spec fn view(&self) -> StatementView {
        match self {
            Statement::Let(ident, exp) => StatementView::Let(ident@, exp@),
            Statement::Return(exp) => StatementView::Return(exp@),
            Statement::Expression(exp) => StatementView::Expression(exp@),
        }
    }
}

impl View for Program {
    type V = Seq<StatementView>;

    open spec fn view(&self) -> Seq<StatementView> {
        self.statements@.map_values(|s: Statement| s@)
    }
}

/// The character that stands for a digit's value.
pub open spec fn digit_char(d: int) -> char {
    ('0' as int + d) as char
}

/// The decimal digits of a natural number, most significant first, without
/// leading zeros.
pub open spec fn digits(n: nat) -> Seq<char>
    decreases n,
{
    if n < 10 {
        seq![digit_char(n as int)]
    } else {
        digits(n / 10).push(digit_char((n % 10) as int))
    }
}

/// An integer in decimal, with a minus sign in front where it is negative.
pub open spec fn decimal(i: int) -> Seq<char> {
    if i < 0 {
        seq!['-'] + digits((-i) as nat)
    } else {
        digits(i as nat)
    }
}

/// A literal as source text.
pub open spec fn literal_text(l: LiteralView) -> Seq<char> {
    match l {
        LiteralView::Int(i) => decimal(i),
        LiteralView::String(s) => s,
        LiteralView::Bool(b) => if b {
            "true"@
        } else {
            "false"@
        },
    }
}

/// An expression as source text.
pub open spec fn expression_text(e: ExpressionView) -> Seq<char> {
    match e {
        ExpressionView::Identifier(ident) => ident.value,
        ExpressionView::Literal(l) => literal_text(l),
    }
}

/// A statement as source text. A return statement without a value is
/// written without the space before the semicolon.
pub open spec fn statement_text(s: StatementView) -> Seq<char> {
    match s {
        StatementView::Let(ident, exp) => "let"@ + " "@ + ident.value + " = "@ + expression_text(
            exp,
        ) + ";"@,
        StatementView::Return(exp) => if expression_text(exp).len() == 0 {
            "return"@ + ";"@
        } else {
            "return"@ + " "@ + expression_text(exp) + ";"@
        },
        StatementView::Expression(exp) => expression_text(exp),
    }
}

/// The text that names the kind of a statement: its keyword, or for a bare
/// expression the expression itself.
pub open spec fn statement_token_literal(s: StatementView) -> Seq<char> {
    match s {
        StatementView::Let(_, _) => "let"@,
        StatementView::Return(_) => "return"@,
        StatementView::Expression(exp) => expression_text(exp),
    }
}

/// The statements as source text, one to a line.
pub open spec fn program_text(p: Seq<StatementView>) -> Seq<char>
    decreases p.len(),
{
    if p.len() == 0 {
        Seq::empty()
    } else if p.len() == 1 {
        statement_text(p[0])
    } else {
        program_text(p.drop_last()) + "\n"@ + statement_text(p.last())
    }
}

/// Appends the decimal digits of `n` to `out`.
fn push_digits(out: &mut String, n: u32)
    ensures
        final(out)@ == old(out)@ + digits(n as nat),
    decreases n,
{
    if n >= 10 {
        push_digits(out, n / 10);
    }
    let d: u8 = (n % 10) as u8;
    out.push((48u8 + d) as char);
}

impl Identifier {
    /// The name `val`, read from the token `tok`.
    pub fn new(tok: Token, val: &str) -> (ident: Identifier)
        ensures
            ident@ == (IdentifierView { tok: tok@, value: val@ }),
    {
        Identifier { tok: tok, value: val.to_owned() }
    }

    /// The text of the token that the name was read from.
    pub fn token_literal(&self) -> (literal: &str)
        ensures
            literal@ == self@.tok.literal,
    {
        self.tok.literal.as_str()
    }

    /// The name.
    pub fn to_string(&self) -> (text: String)
        ensures
            text@ == self@.value,
    {
        self.value.clone()
    }
}

impl Literal {
    /// The literal as source text.
    pub fn to_string(&self) -> (text: String)
        ensures
            text@ == literal_text(self@),
    {
        match self {
            Literal::Int(i) => {
                let mut out = String::new();
                if *i < 0 {
                    out.push('-');
                    // the magnitude of the least `i32` does not fit in an `i32`
                    let magnitude: u32 = (-(*i as i64)) as u32;
                    push_digits(&mut out, magnitude);
                } else {
                    push_digits(&mut out, *i as u32);
                }
                out
            },
            Literal::String(s) => s.clone(),
            Literal::Bool(b) => if *b {
                "true".to_owned()
            } else {
                "false".to_owned()
            },
        }
    }
}

impl Expression {
    /// The expression as source text.
    pub fn to_string(&self) -> (text: String)
        ensures
            text@ == expression_text(self@),
    {
        match self {
            Expression::Identifier(ident) => ident.to_string(),
            Expression::Literal(l) => l.to_string(),
        }
    }
}

impl Statement {
    /// The keyword of the statement, or for a bare expression its text.
    pub fn token_literal(&self) -> (literal: String)
        ensures
            literal@ == statement_token_literal(self@),
    {
        match self {
            Statement::Let(_, _) => "let".to_owned(),
            Statement::Return(_) => "return".to_owned(),
            Statement::Expression(exp) => exp.to_string(),
        }
    }

    /// The statement as source text.
    pub fn to_string(&self) -> (text: String)
        ensures
            text@ == statement_text(self@),
    {
        match self {
            Statement::Let(ident, exp) => {
                let mut out = self.token_literal();
                out.append(" ");
                out.append(ident.to_string().as_str());
                out.append(" = ");
                out.append(exp.to_string().as_str());
                out.append(";");
                out
            },
            Statement::Return(exp) => {
                let value = exp.to_string();
                let mut out = self.token_literal();
                if value.as_str().is_empty() {
                    out.append(";");
                } else {
                    out.append(" ");
                    out.append(value.as_str());
                    out.append(";");
                }
                out
            },
            Statement::Expression(exp) => exp.to_string(),
        }
    }
}

impl Program {
    /// A program without statements.
    pub fn new() -> (program: Program)
        ensures
            program@ == Seq::<StatementView>::empty(),
    {
        Program { statements: Vec::new() }
    }

    /// The token literal of the first statement; empty for an empty program.
    pub fn token_literal(&self) -> (literal: String)
        ensures
            literal@ == if self@.len() > 0 {
                statement_token_literal(self@[0])
            } else {
                Seq::<char>::empty()
            },
    {
        if self.statements.len() > 0 {
            self.statements[0].token_literal()
        } else {
            String::new()
        }
    }

    /// The statements as source text, one to a line.
    pub fn to_string(&self) -> (text: String)
        ensures
            text@ == program_text(self@),
    {
        let mut out = String::new();
        let mut i: usize = 0;
        while i < self.statements.len()
            invariant
                i <= self.statements.len(),
                out@ == program_text(self@.take(i as int)),
            decreases self.statements.len() - i,
        {
            if i > 0 {
                out.append("\n");
            }
            out.append(self.statements[i].to_string().as_str());
            assert(self@.take(i + 1).drop_last() =~= self@.take(i as int));
            i += 1;
        }
        assert(self@.take(i as int) =~= self@);
        out
    }
}

} // verus!
