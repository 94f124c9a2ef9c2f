use monkey::ast::{Expression, Identifier, Program, Statement};
use monkey::token::{Token, TokenType};

#[test]
fn test_string() {
    let program = Program {
        statements: vec![
            Statement::Let(
                Identifier::new(Token::new(TokenType::Ident, "my_var"), "my_var"),
                Expression::Identifier(Identifier::new(Token::new(TokenType::Ident, "another_var"), "another_var"))           
            ),
        ]
    };

    assert_eq!(program.to_string(), "let my_var = another_var;", "program.to_string() is wrong. got='{}'", program.to_string());
}
