use triangle_syntax::lexer::{tokenize, Lexer};
use triangle_syntax::token::{Token, TokenType};

fn token(kind: TokenType, text: &str, row: usize, col: usize) -> Token {
    Token::new(kind, text.to_string(), row, col)
}

fn kinds(source: &str) -> Vec<TokenType> {
    tokenize(source.to_string()).iter().map(|t| t.token_type).collect()
}

fn texts(source: &str) -> Vec<String> {
    tokenize(source.to_string()).iter().map(|t| t.lexeme.clone()).collect()
}

#[test]
fn keyword_is_not_identifier() {
    let tokens = tokenize("begin".to_string());
    assert_eq!(tokens, vec![token(TokenType::Begin, "begin", 1, 1), token(TokenType::EOF, "", 1, 6)]);
}

#[test]
fn keyword_prefix_is_identifier() {
    let tokens = tokenize("begin1".to_string());
    assert_eq!(
        tokens,
        vec![token(TokenType::Identifier, "begin1", 1, 1), token(TokenType::EOF, "", 1, 7)]
    );
}

#[test]
fn every_keyword_has_its_kind() {
    let source = "array begin const do else end func if in let of proc record then type var while";
    assert_eq!(
        kinds(source),
        vec![
            TokenType::Array,
            TokenType::Begin,
            TokenType::Const,
            TokenType::Do,
            TokenType::Else,
            TokenType::End,
            TokenType::Func,
            TokenType::If,
            TokenType::In,
            TokenType::Let,
            TokenType::Of,
            TokenType::Proc,
            TokenType::Record,
            TokenType::Then,
            TokenType::Type,
            TokenType::Var,
            TokenType::While,
            TokenType::EOF,
        ]
    );
}

#[test]
fn keywords_are_case_sensitive() {
    assert_eq!(kinds("Begin IF"), vec![TokenType::Identifier, TokenType::Identifier, TokenType::EOF]);
}

#[test]
fn comment_is_skipped() {
    let tokens = tokenize("x ! this is ignored\ny".to_string());
    assert_eq!(
        tokens,
        vec![
            token(TokenType::Identifier, "x", 1, 1),
            token(TokenType::Identifier, "y", 2, 1),
            token(TokenType::EOF, "", 2, 2),
        ]
    );
}

#[test]
fn comment_at_the_end_of_the_input() {
    let tokens = tokenize("x !no newline".to_string());
    assert_eq!(tokens.len(), 2);
    assert_eq!(tokens[0], token(TokenType::Identifier, "x", 1, 1));
    assert_eq!(tokens[1].token_type, TokenType::EOF);
}

#[test]
fn colon_alone() {
    assert_eq!(
        tokenize(":".to_string()),
        vec![token(TokenType::Colon, ":", 1, 1), token(TokenType::EOF, "", 1, 2)]
    );
}

#[test]
fn colon_equals_is_assignment() {
    assert_eq!(
        tokenize(":=".to_string()),
        vec![token(TokenType::Assign, ":=", 1, 1), token(TokenType::EOF, "", 1, 3)]
    );
}

#[test]
fn colon_then_blank_then_equals() {
    assert_eq!(kinds(": ="), vec![TokenType::Colon, TokenType::Equals, TokenType::EOF]);
}

#[test]
fn one_letter() {
    assert_eq!(
        tokenize("q".to_string()),
        vec![token(TokenType::Identifier, "q", 1, 1), token(TokenType::EOF, "", 1, 2)]
    );
}

#[test]
fn one_digit() {
    assert_eq!(
        tokenize("7".to_string()),
        vec![token(TokenType::IntegerLiteral, "7", 1, 1), token(TokenType::EOF, "", 1, 2)]
    );
}

#[test]
fn one_operator_character() {
    for c in ['+', '-', '*', '/', '<', '>', '&', '@', '%', '^', '?', '\\'] {
        assert_eq!(
            tokenize(c.to_string()),
            vec![token(TokenType::Operator, &c.to_string(), 1, 1), token(TokenType::EOF, "", 1, 2)]
        );
    }
}

#[test]
fn one_punctuation_mark() {
    let marks = [
        ('{', TokenType::LeftBrace),
        ('}', TokenType::RightBrace),
        ('(', TokenType::LeftParen),
        (')', TokenType::RightParen),
        ('[', TokenType::LeftBracket),
        (']', TokenType::RightBracket),
        (':', TokenType::Colon),
        (';', TokenType::Semicolon),
        (',', TokenType::Comma),
        ('.', TokenType::Period),
        ('=', TokenType::Equals),
        ('~', TokenType::Tilde),
    ];
    for (c, kind) in marks {
        assert_eq!(
            tokenize(c.to_string()),
            vec![token(kind, &c.to_string(), 1, 1), token(TokenType::EOF, "", 1, 2)]
        );
    }
}

#[test]
fn one_character_literal() {
    assert_eq!(
        tokenize("'a'".to_string()),
        vec![token(TokenType::CharLiteral, "a", 1, 1), token(TokenType::EOF, "", 1, 4)]
    );
}

#[test]
fn one_blank_is_no_token() {
    assert_eq!(tokenize(" ".to_string()), vec![token(TokenType::EOF, "", 1, 2)]);
    assert_eq!(tokenize("\t".to_string()), vec![token(TokenType::EOF, "", 1, 2)]);
    assert_eq!(tokenize("\n".to_string()), vec![token(TokenType::EOF, "", 2, 1)]);
}

#[test]
fn one_comment_is_no_token() {
    assert_eq!(tokenize("!".to_string()), vec![token(TokenType::EOF, "", 1, 3)]);
    assert_eq!(tokenize("! abc".to_string()), vec![token(TokenType::EOF, "", 1, 7)]);
}

#[test]
fn empty_input_is_end_of_input() {
    assert_eq!(tokenize(String::new()), vec![token(TokenType::EOF, "", 1, 1)]);
}

#[test]
fn illegal_character_is_a_token() {
    assert_eq!(
        tokenize("a # b".to_string()),
        vec![
            token(TokenType::Identifier, "a", 1, 1),
            token(TokenType::Illegal, "#", 1, 3),
            token(TokenType::Identifier, "b", 1, 5),
            token(TokenType::EOF, "", 1, 6),
        ]
    );
}

#[test]
fn underscore_is_illegal() {
    assert_eq!(
        kinds("a_b"),
        vec![TokenType::Identifier, TokenType::Illegal, TokenType::Identifier, TokenType::EOF]
    );
}

#[test]
fn operator_run_is_one_token() {
    assert_eq!(
        tokenize("a <= b".to_string())[1],
        token(TokenType::Operator, "<=", 1, 3)
    );
    assert_eq!(texts("/\\ \\/ >= +-*"), vec!["/\\", "\\/", ">=", "+-*", ""]);
}

#[test]
fn equals_first_is_its_own_token() {
    assert_eq!(kinds("=<"), vec![TokenType::Equals, TokenType::Operator, TokenType::EOF]);
    assert_eq!(kinds("<="), vec![TokenType::Operator, TokenType::EOF]);
}

#[test]
fn number_is_the_whole_digit_run() {
    assert_eq!(
        tokenize("0123456789012345678901234567890 x".to_string())[0],
        token(TokenType::IntegerLiteral, "0123456789012345678901234567890", 1, 1)
    );
}

#[test]
fn digits_then_letters_are_two_tokens() {
    assert_eq!(texts("12ab"), vec!["12", "ab", ""]);
    assert_eq!(kinds("12ab"), vec![TokenType::IntegerLiteral, TokenType::Identifier, TokenType::EOF]);
}

#[test]
fn letters_beyond_ascii_make_identifiers() {
    assert_eq!(
        tokenize("año λ1".to_string()),
        vec![
            token(TokenType::Identifier, "año", 1, 1),
            token(TokenType::Identifier, "λ1", 1, 5),
            token(TokenType::EOF, "", 1, 7),
        ]
    );
}

#[test]
fn blanks_beyond_ascii_are_skipped() {
    assert_eq!(
        tokenize("a\u{a0}\u{2003}b".to_string()),
        vec![
            token(TokenType::Identifier, "a", 1, 1),
            token(TokenType::Identifier, "b", 1, 4),
            token(TokenType::EOF, "", 1, 5),
        ]
    );
}

#[test]
fn token_before_a_newline_keeps_its_own_line() {
    assert_eq!(
        tokenize("x\n12\n+\n'c'\ny".to_string()),
        vec![
            token(TokenType::Identifier, "x", 1, 1),
            token(TokenType::IntegerLiteral, "12", 2, 1),
            token(TokenType::Operator, "+", 3, 1),
            token(TokenType::CharLiteral, "c", 4, 1),
            token(TokenType::Identifier, "y", 5, 1),
            token(TokenType::EOF, "", 5, 2),
        ]
    );
}

#[test]
fn columns_count_from_the_start_of_each_line() {
    assert_eq!(
        tokenize("let x\n  in y".to_string()),
        vec![
            token(TokenType::Let, "let", 1, 1),
            token(TokenType::Identifier, "x", 1, 5),
            token(TokenType::In, "in", 2, 3),
            token(TokenType::Identifier, "y", 2, 6),
            token(TokenType::EOF, "", 2, 7),
        ]
    );
}

#[test]
fn unclosed_character_literal_takes_what_follows() {
    assert_eq!(
        tokenize("'ab".to_string()),
        vec![token(TokenType::CharLiteral, "a", 1, 1), token(TokenType::EOF, "", 1, 4)]
    );
    assert_eq!(
        tokenize("'".to_string()),
        vec![token(TokenType::CharLiteral, "\0", 1, 1), token(TokenType::EOF, "", 1, 4)]
    );
}

#[test]
fn nul_in_the_text_ends_the_token_list() {
    assert_eq!(
        tokenize("a\0b".to_string()),
        vec![token(TokenType::Identifier, "a", 1, 1), token(TokenType::EOF, "", 1, 2)]
    );
}

#[test]
fn next_token_keeps_giving_end_of_input() {
    let mut lexer = Lexer::new("x".to_string());
    assert_eq!(lexer.next_token(), token(TokenType::Identifier, "x", 1, 1));
    assert_eq!(lexer.next_token(), token(TokenType::EOF, "", 1, 2));
    assert_eq!(lexer.next_token(), token(TokenType::EOF, "", 1, 3));
    assert_eq!(lexer.next_token(), token(TokenType::EOF, "", 1, 4));
}

#[test]
fn next_token_goes_on_behind_a_nul() {
    let mut lexer = Lexer::new("a\0b".to_string());
    assert_eq!(lexer.next_token(), token(TokenType::Identifier, "a", 1, 1));
    assert_eq!(lexer.next_token(), token(TokenType::EOF, "", 1, 2));
    assert_eq!(lexer.next_token(), token(TokenType::Identifier, "b", 1, 3));
    assert_eq!(lexer.next_token(), token(TokenType::EOF, "", 1, 4));
}

#[test]
fn last_token_is_the_only_end_of_input() {
    for source in ["", "x", "x := 1 ! c", "a\0b", "'", "if x then y else z"] {
        let tokens = tokenize(source.to_string());
        assert!(!tokens.is_empty());
        let last = tokens.len() - 1;
        for (i, t) in tokens.iter().enumerate() {
            assert_eq!(t.token_type == TokenType::EOF, i == last);
        }
    }
}

#[test]
fn lexemes_do_not_give_the_source_back() {
    let source = "x ! note\ny";
    let joined: String = texts(source).concat();
    assert_eq!(joined, "xy");
    assert_ne!(joined, source);
    assert_ne!(kinds(&joined), kinds(source));
}

#[test]
fn a_whole_program() {
    let source = "let var n: Integer in begin n := 10; putint(n) end";
    assert_eq!(
        texts(source),
        vec![
            "let", "var", "n", ":", "Integer", "in", "begin", "n", ":=", "10", ";", "putint", "(",
            "n", ")", "end", ""
        ]
    );
}
