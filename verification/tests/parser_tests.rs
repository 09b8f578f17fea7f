use triangle_syntax::ast::{ASTNode, SyntaxError};
use triangle_syntax::lexer::tokenize;
use triangle_syntax::parser::{is_well_formed, Parser};
use triangle_syntax::token::{Token, TokenType};

fn parse(source: &str) -> Result<ASTNode, SyntaxError> {
    let tokens = tokenize(source.to_string());
    assert!(is_well_formed(&tokens));
    let mut parser = Parser::new(tokens);
    parser.parse()
}

fn number(value: i64) -> Box<ASTNode> {
    Box::new(ASTNode::Number(value))
}

fn name(text: &str) -> Box<ASTNode> {
    Box::new(ASTNode::Identifier(text.to_string()))
}

fn assign(target: &str, value: Box<ASTNode>) -> ASTNode {
    ASTNode::Assign(vec![target.to_string()], value)
}

fn operator(symbol: &str, left: Box<ASTNode>, right: Box<ASTNode>) -> Box<ASTNode> {
    Box::new(ASTNode::Operator(symbol.to_string(), left, right))
}

fn unexpected(expected: TokenType, found: TokenType, row: usize, col: usize) -> SyntaxError {
    SyntaxError::UnexpectedToken { expected, found, row, col }
}

#[test]
fn operators_group_from_the_left() {
    assert_eq!(
        parse("x := 1 + 2 * 3"),
        Ok(assign("x", operator("*", operator("+", number(1), number(2)), number(3))))
    );
}

#[test]
fn operators_never_group_by_strength() {
    let conventional = assign("x", operator("+", number(1), operator("*", number(2), number(3))));
    assert_ne!(parse("x := 1 + 2 * 3"), Ok(conventional));
}

#[test]
fn parentheses_group_and_are_kept() {
    assert_eq!(
        parse("x := 1 + (2 * 3)"),
        Ok(assign(
            "x",
            operator(
                "+",
                number(1),
                Box::new(ASTNode::Expression(operator("*", number(2), number(3))))
            )
        ))
    );
}

#[test]
fn single_command_is_not_wrapped() {
    assert_eq!(parse("x := 1"), Ok(assign("x", number(1))));
}

#[test]
fn two_commands_are_wrapped() {
    assert_eq!(
        parse("x := 1; y := 2"),
        Ok(ASTNode::Command(vec![assign("x", number(1)), assign("y", number(2))]))
    );
}

#[test]
fn three_commands_are_one_list() {
    assert_eq!(
        parse("x := 1; y := 2; z := 3"),
        Ok(ASTNode::Command(vec![
            assign("x", number(1)),
            assign("y", number(2)),
            assign("z", number(3)),
        ]))
    );
}

#[test]
fn missing_then_is_reported_at_the_token_found() {
    assert_eq!(
        parse("if 1 2"),
        Err(unexpected(TokenType::Then, TokenType::IntegerLiteral, 1, 6))
    );
}

#[test]
fn begin_end_gives_the_inner_command() {
    assert_eq!(parse("begin x := 1 end"), Ok(assign("x", number(1))));
    assert_eq!(
        parse("begin x := 1; y := 2 end"),
        Ok(ASTNode::Command(vec![assign("x", number(1)), assign("y", number(2))]))
    );
}

#[test]
fn let_command_with_one_declaration() {
    assert_eq!(
        parse("let var n: Integer in n := 1"),
        Ok(ASTNode::Let(
            Box::new(ASTNode::Var("n".to_string(), "Integer".to_string())),
            Box::new(assign("n", number(1)))
        ))
    );
}

#[test]
fn let_command_with_two_declarations() {
    assert_eq!(
        parse("let const c ~ 1; var n: Integer in n := c"),
        Ok(ASTNode::Let(
            Box::new(ASTNode::Declaration(vec![
                ASTNode::Const("c".to_string(), number(1)),
                ASTNode::Var("n".to_string(), "Integer".to_string()),
            ])),
            Box::new(assign("n", name("c")))
        ))
    );
}

#[test]
fn declarations_stand_as_commands() {
    assert_eq!(parse("const c ~ 'x'"), Ok(ASTNode::Const("c".to_string(), Box::new(ASTNode::Char('x')))));
    assert_eq!(parse("var v : T"), Ok(ASTNode::Var("v".to_string(), "T".to_string())));
}

#[test]
fn function_with_parameters() {
    assert_eq!(
        parse("func f(a: Integer, var b: Char): Integer ~ a + 1"),
        Ok(ASTNode::Func(
            "f".to_string(),
            vec![
                ASTNode::Var("a".to_string(), "Integer".to_string()),
                ASTNode::Var("b".to_string(), "Char".to_string()),
            ],
            "Integer".to_string(),
            operator("+", name("a"), number(1))
        ))
    );
}

#[test]
fn function_without_parameters() {
    assert_eq!(
        parse("func f(): T ~ 0"),
        Ok(ASTNode::Func("f".to_string(), vec![], "T".to_string(), number(0)))
    );
}

#[test]
fn if_command() {
    assert_eq!(
        parse("if a < b then x := 1 else y := 2"),
        Ok(ASTNode::If(
            operator("<", name("a"), name("b")),
            Box::new(assign("x", number(1))),
            Box::new(assign("y", number(2)))
        ))
    );
}

#[test]
fn else_branch_takes_the_commands_that_follow() {
    assert_eq!(
        parse("if a then x := 1 else y := 2; z := 3"),
        Ok(ASTNode::If(
            name("a"),
            Box::new(assign("x", number(1))),
            Box::new(ASTNode::Command(vec![assign("y", number(2)), assign("z", number(3))]))
        ))
    );
}

#[test]
fn while_command() {
    assert_eq!(
        parse("while n > 0 do n := n - 1"),
        Ok(ASTNode::While(
            operator(">", name("n"), number(0)),
            Box::new(assign("n", operator("-", name("n"), number(1))))
        ))
    );
}

#[test]
fn call_command() {
    assert_eq!(parse("p()"), Ok(ASTNode::Call("p".to_string(), vec![])));
    assert_eq!(
        parse("put(1, x, f(2))"),
        Ok(ASTNode::Call(
            "put".to_string(),
            vec![
                ASTNode::Number(1),
                ASTNode::Identifier("x".to_string()),
                ASTNode::Call("f".to_string(), vec![ASTNode::Number(2)]),
            ]
        ))
    );
}

#[test]
fn let_and_if_expressions() {
    assert_eq!(
        parse("x := let const c ~ 1 in if c then 2 else 3"),
        Ok(assign(
            "x",
            Box::new(ASTNode::Let(
                Box::new(ASTNode::Const("c".to_string(), number(1))),
                Box::new(ASTNode::If(name("c"), number(2), number(3)))
            ))
        ))
    );
}

#[test]
fn parse_stops_at_the_first_token_that_is_no_part_of_the_command() {
    let tokens = tokenize("x := 1 y".to_string());
    let mut parser = Parser::new(tokens);
    assert_eq!(parser.parse(), Ok(assign("x", number(1))));
    assert_eq!(parser.index, 3);
    assert_eq!(parser.current_token.lexeme, "y");
}

#[test]
fn error_leaves_the_cursor_on_the_token_found() {
    let tokens = tokenize("if 1 2".to_string());
    let mut parser = Parser::new(tokens);
    assert!(parser.parse().is_err());
    assert_eq!(parser.index, 2);
    assert_eq!(parser.current_token, Token::new(TokenType::IntegerLiteral, "2".to_string(), 1, 6));
}

#[test]
fn identifier_alone_asks_for_assignment() {
    assert_eq!(parse("x"), Err(unexpected(TokenType::Assign, TokenType::EOF, 1, 2)));
    assert_eq!(parse("x y"), Err(unexpected(TokenType::Assign, TokenType::Identifier, 1, 3)));
}

#[test]
fn command_cannot_start_with_a_literal() {
    assert_eq!(parse("1"), Err(unexpected(TokenType::Identifier, TokenType::IntegerLiteral, 1, 1)));
    assert_eq!(parse(""), Err(unexpected(TokenType::Identifier, TokenType::EOF, 1, 1)));
}

#[test]
fn expression_cannot_start_with_a_keyword() {
    assert_eq!(parse("x := end"), Err(unexpected(TokenType::Identifier, TokenType::End, 1, 6)));
}

#[test]
fn declaration_must_be_const_var_or_func() {
    assert_eq!(parse("let x in y"), Err(unexpected(TokenType::Const, TokenType::Identifier, 1, 5)));
    assert_eq!(parse("let proc p in y"), Err(unexpected(TokenType::Const, TokenType::Proc, 1, 5)));
    assert_eq!(parse("let type t in y"), Err(unexpected(TokenType::Const, TokenType::Type, 1, 5)));
}

#[test]
fn each_expected_token_is_reported() {
    assert_eq!(parse("let var a: T x"), Err(unexpected(TokenType::In, TokenType::Identifier, 1, 14)));
    assert_eq!(parse("const c 1"), Err(unexpected(TokenType::Tilde, TokenType::IntegerLiteral, 1, 9)));
    assert_eq!(parse("var v T"), Err(unexpected(TokenType::Colon, TokenType::Identifier, 1, 7)));
    assert_eq!(parse("var v : 1"), Err(unexpected(TokenType::Identifier, TokenType::IntegerLiteral, 1, 9)));
    assert_eq!(parse("func f a"), Err(unexpected(TokenType::LeftParen, TokenType::Identifier, 1, 8)));
    assert_eq!(parse("func f(a: T; b: T)"), Err(unexpected(TokenType::RightParen, TokenType::Semicolon, 1, 12)));
    assert_eq!(parse("func f() ~"), Err(unexpected(TokenType::Colon, TokenType::Tilde, 1, 10)));
    assert_eq!(parse("func f(): T 1"), Err(unexpected(TokenType::Tilde, TokenType::IntegerLiteral, 1, 13)));
    assert_eq!(parse("if a then x := 1"), Err(unexpected(TokenType::Else, TokenType::EOF, 1, 17)));
    assert_eq!(parse("while a x := 1"), Err(unexpected(TokenType::Do, TokenType::Identifier, 1, 9)));
    assert_eq!(parse("begin x := 1"), Err(unexpected(TokenType::End, TokenType::EOF, 1, 13)));
    assert_eq!(parse("p(1"), Err(unexpected(TokenType::RightParen, TokenType::EOF, 1, 4)));
    assert_eq!(parse("x := (1"), Err(unexpected(TokenType::RightParen, TokenType::EOF, 1, 8)));
    assert_eq!(parse("x := 1 +"), Err(unexpected(TokenType::Identifier, TokenType::EOF, 1, 9)));
}

#[test]
fn illegal_token_is_rejected_by_the_parser() {
    assert_eq!(parse("x := #"), Err(unexpected(TokenType::Identifier, TokenType::Illegal, 1, 6)));
}

#[test]
fn error_in_a_later_line_has_its_line() {
    assert_eq!(
        parse("x := 1;\ny := 2;\nz 3"),
        Err(unexpected(TokenType::Assign, TokenType::IntegerLiteral, 3, 3))
    );
}

#[test]
fn parser_takes_tokens_made_by_hand() {
    let tokens = vec![
        Token::new(TokenType::Identifier, "x".to_string(), 7, 7),
        Token::new(TokenType::Assign, ":=".to_string(), 7, 9),
        Token::new(TokenType::IntegerLiteral, "-42".to_string(), 7, 12),
        Token::new(TokenType::EOF, String::new(), 7, 15),
    ];
    assert!(is_well_formed(&tokens));
    let mut parser = Parser::new(tokens);
    assert_eq!(parser.parse(), Ok(assign("x", number(-42))));
}

#[test]
fn new_parser_stands_on_the_first_token() {
    let parser = Parser::new(tokenize("a b".to_string()));
    assert_eq!(parser.index, 0);
    assert_eq!(parser.current_token, Token::new(TokenType::Identifier, "a".to_string(), 1, 1));
    assert_eq!(parser.tokens.len(), 3);
}

#[test]
fn well_formed_sequences() {
    assert!(!is_well_formed(&vec![]));
    assert!(!is_well_formed(&vec![Token::new(TokenType::Identifier, "x".to_string(), 1, 1)]));
    assert!(is_well_formed(&vec![Token::new(TokenType::EOF, String::new(), 1, 1)]));
    let with_literal = |kind: TokenType, text: &str| {
        vec![Token::new(kind, text.to_string(), 1, 1), Token::new(TokenType::EOF, String::new(), 1, 9)]
    };
    assert!(is_well_formed(&with_literal(TokenType::IntegerLiteral, "9223372036854775807")));
    assert!(!is_well_formed(&with_literal(TokenType::IntegerLiteral, "9223372036854775808")));
    assert!(!is_well_formed(&with_literal(TokenType::IntegerLiteral, "12a")));
    assert!(is_well_formed(&with_literal(TokenType::CharLiteral, "c")));
    assert!(!is_well_formed(&with_literal(TokenType::CharLiteral, "")));
    assert!(is_well_formed(&with_literal(TokenType::Identifier, "")));
    assert!(!is_well_formed(&tokenize("x := 99999999999999999999".to_string())));
}
