use triangle_syntax::interchange::{read_token_line, read_tokens, token_line, ReadError};
use triangle_syntax::labelled::{
    extract_tokens, extract_tokens_with, labelled_line, tokens_from_captures, TOKEN_PATTERN,
    ExtractError,
};
use triangle_syntax::lexer::tokenize;
use triangle_syntax::numbers::{parse_i64, parse_usize};
use triangle_syntax::text::{is_blank, is_digit, is_letter, is_operator_char, remove_parentheses};
use triangle_syntax::token::{match_token, Token, TokenType, UnknownTokenType};

fn token(kind: TokenType, text: &str, row: usize, col: usize) -> Token {
    Token::new(kind, text.to_string(), row, col)
}

const ALL_KINDS: [TokenType; 36] = [
    TokenType::EOF,
    TokenType::Illegal,
    TokenType::Identifier,
    TokenType::IntegerLiteral,
    TokenType::CharLiteral,
    TokenType::Operator,
    TokenType::Array,
    TokenType::Begin,
    TokenType::Const,
    TokenType::Do,
    TokenType::Else,
    TokenType::End,
    TokenType::Func,
    TokenType::If,
    TokenType::In,
    TokenType::Let,
    TokenType::Of,
    TokenType::Proc,
    TokenType::Record,
    TokenType::Then,
    TokenType::Type,
    TokenType::Var,
    TokenType::While,
    TokenType::Period,
    TokenType::Colon,
    TokenType::Semicolon,
    TokenType::Comma,
    TokenType::Equals,
    TokenType::Tilde,
    TokenType::LeftParen,
    TokenType::RightParen,
    TokenType::LeftBracket,
    TokenType::RightBracket,
    TokenType::LeftBrace,
    TokenType::RightBrace,
    TokenType::Assign,
];

#[test]
fn kind_names_are_the_debug_names() {
    for kind in ALL_KINDS {
        assert_eq!(kind.as_str(), format!("{:?}", kind));
    }
}

#[test]
fn every_kind_name_names_its_kind() {
    for kind in ALL_KINDS {
        assert_eq!(match_token(kind.as_str()), Ok(kind));
    }
}

#[test]
fn unknown_kind_name_comes_back() {
    assert_eq!(match_token("Plus"), Err(UnknownTokenType { found: "Plus".to_string() }));
    assert_eq!(match_token("eof"), Err(UnknownTokenType { found: "eof".to_string() }));
    assert_eq!(match_token(""), Err(UnknownTokenType { found: String::new() }));
}

#[test]
fn token_line_has_four_fields_in_braces() {
    assert_eq!(token_line(&token(TokenType::Identifier, "x", 1, 1)), "{Identifier, 'x', 1, 1}");
    assert_eq!(token_line(&token(TokenType::EOF, "", 12, 340)), "{EOF, '', 12, 340}");
    assert_eq!(token_line(&token(TokenType::Assign, ":=", 0, 10)), "{Assign, ':=', 0, 10}");
    assert_eq!(
        token_line(&token(TokenType::IntegerLiteral, "007", usize::MAX, 9)),
        format!("{{IntegerLiteral, '007', {}, 9}}", usize::MAX)
    );
}

#[test]
fn token_line_is_the_debug_format() {
    for t in tokenize("let var n: Integer in n := 'c' + 10 ! end".to_string()) {
        assert_eq!(
            token_line(&t),
            format!("{{{:?}, '{}', {}, {}}}", t.token_type, t.lexeme, t.row, t.col)
        );
    }
}

#[test]
fn read_token_line_reads_what_token_line_writes() {
    for t in tokenize("let var n: Integer in n := n + 10".to_string()) {
        assert_eq!(read_token_line(&token_line(&t)), Ok(Some(t)));
    }
}

#[test]
fn blanks_inside_the_quotes_are_kept() {
    let t = token(TokenType::Identifier, " a b ", 1, 2);
    assert_eq!(token_line(&t), "{Identifier, ' a b ', 1, 2}");
    assert_eq!(read_token_line(&token_line(&t)), Ok(Some(t)));
}

#[test]
fn quote_at_the_end_of_a_text_is_lost() {
    let t = token(TokenType::CharLiteral, "'", 1, 2);
    assert_eq!(read_token_line(&token_line(&t)), Ok(Some(token(TokenType::CharLiteral, "", 1, 2))));
}

#[test]
fn every_kind_survives_its_line() {
    for kind in ALL_KINDS {
        let t = token(kind, "text", 0, usize::MAX);
        assert_eq!(read_token_line(&token_line(&t)), Ok(Some(t)));
    }
}

#[test]
fn read_token_line_trims_its_fields() {
    assert_eq!(
        read_token_line("{  Begin ,  'begin' ,\t3 , 14 }"),
        Ok(Some(token(TokenType::Begin, "begin", 3, 14)))
    );
    assert_eq!(
        read_token_line("{{Identifier,''x'',+1,}}2}}"),
        Ok(Some(token(TokenType::Identifier, "x", 1, 2)))
    );
}

#[test]
fn braces_are_taken_off_before_blanks() {
    assert_eq!(read_token_line("{Begin, 'begin', 3, 14 }  "), Err(ReadError::InvalidColumn));
    assert_eq!(
        read_token_line("  {Begin, 'begin', 3, 14}"),
        Err(ReadError::NoFoundToken { found: "{Begin".to_string() })
    );
}

#[test]
fn read_token_line_ignores_fields_behind_the_fourth() {
    assert_eq!(
        read_token_line("{Identifier, 'x', 1, 2, what, ever"),
        Ok(Some(token(TokenType::Identifier, "x", 1, 2)))
    );
}

#[test]
fn line_with_fewer_than_four_fields_holds_nothing() {
    assert_eq!(read_token_line(""), Ok(None));
    assert_eq!(read_token_line("no token here"), Ok(None));
    assert_eq!(read_token_line("{Identifier, 'x', 1}"), Ok(None));
    assert_eq!(read_token_line("a,b,c"), Ok(None));
}

#[test]
fn bad_line_number_is_an_error() {
    assert_eq!(read_token_line("{Identifier, 'x', one, 1}"), Err(ReadError::InvalidRow));
    assert_eq!(read_token_line("{Identifier, 'x', -1, 1}"), Err(ReadError::InvalidRow));
    assert_eq!(read_token_line("{Identifier, 'x', , 1}"), Err(ReadError::InvalidRow));
    assert_eq!(
        read_token_line("{Identifier, 'x', 99999999999999999999999999, 1}"),
        Err(ReadError::InvalidRow)
    );
}

#[test]
fn bad_column_number_is_an_error() {
    assert_eq!(read_token_line("{Identifier, 'x', 1, 1 1}"), Err(ReadError::InvalidColumn));
    assert_eq!(read_token_line("{Identifier, 'x', 1, }"), Err(ReadError::InvalidColumn));
}

#[test]
fn unknown_kind_is_an_error() {
    assert_eq!(
        read_token_line("{Plus, '+', 1, 1}"),
        Err(ReadError::NoFoundToken { found: "Plus".to_string() })
    );
}

#[test]
fn bad_numbers_are_reported_before_an_unknown_kind() {
    assert_eq!(read_token_line("{Plus, '+', x, y}"), Err(ReadError::InvalidRow));
    assert_eq!(read_token_line("{Plus, '+', 1, y}"), Err(ReadError::InvalidColumn));
}

#[test]
fn comma_token_does_not_survive_its_line() {
    let line = token_line(&token(TokenType::Comma, ",", 1, 5));
    assert_eq!(line, "{Comma, ',', 1, 5}");
    assert_eq!(read_token_line(&line), Err(ReadError::InvalidRow));
}

#[test]
fn read_tokens_skips_lines_and_stops_at_the_first_error() {
    let lines = vec![
        "{Identifier, 'x', 1, 1}".to_string(),
        "".to_string(),
        "a comment".to_string(),
        "{EOF, '', 1, 2}".to_string(),
    ];
    assert_eq!(
        read_tokens(&lines),
        Ok(vec![token(TokenType::Identifier, "x", 1, 1), token(TokenType::EOF, "", 1, 2)])
    );
    let bad = vec![
        "{Identifier, 'x', 1, 1}".to_string(),
        "{Nothing, 'x', 1, 1}".to_string(),
        "{Identifier, 'x', a, 1}".to_string(),
    ];
    assert_eq!(read_tokens(&bad), Err(ReadError::NoFoundToken { found: "Nothing".to_string() }));
    assert_eq!(read_tokens(&vec![]), Ok(vec![]));
}

#[test]
fn labelled_line_names_its_fields() {
    assert_eq!(
        labelled_line(&token(TokenType::Identifier, "x", 3, 14)),
        "Token { Tipo: Identifier, Lexema: 'x', Ln: 3, Col: 14 }"
    );
}

#[test]
fn extract_tokens_finds_the_labelled_lines() {
    let text = "Token { Tipo: Let, Lexema: 'let', Ln: 1, Col: 1 }\nnoise\n\
                Token{Tipo:IntegerLiteral,Lexema:'10',Ln:2,Col:7}";
    assert_eq!(
        extract_tokens(text),
        Ok(vec![token(TokenType::Let, "let", 1, 1), token(TokenType::IntegerLiteral, "10", 2, 7)])
    );
    assert_eq!(extract_tokens("nothing to find"), Ok(vec![]));
}

#[test]
fn extract_tokens_reads_what_labelled_line_writes() {
    let tokens = tokenize("let var n: Integer in n := n + 10; p(n, 'c')".to_string());
    let text: Vec<String> = tokens.iter().map(labelled_line).collect();
    assert_eq!(extract_tokens(&text.join("\n")), Ok(tokens));
}

#[test]
fn extract_tokens_rejects_an_unknown_kind() {
    assert_eq!(
        extract_tokens("Token { Tipo: Plus, Lexema: '+', Ln: 1, Col: 1 }"),
        Err(ExtractError::NoFoundToken { found: "Plus".to_string() })
    );
}

#[test]
fn numbers_that_do_not_fit_count_as_zero() {
    assert_eq!(
        extract_tokens("Token { Tipo: EOF, Lexema: '', Ln: 99999999999999999999999, Col: 4 }"),
        Ok(vec![token(TokenType::EOF, "", 0, 4)])
    );
}

#[test]
fn tokens_from_captures_needs_four_groups() {
    let group = |text: &str| Some(text.to_string());
    let whole = vec![group("all"), group("Identifier"), group("x"), group("1"), group("2")];
    assert_eq!(
        tokens_from_captures(&vec![whole.clone()]),
        Ok(vec![token(TokenType::Identifier, "x", 1, 2)])
    );
    let short = vec![group("all"), group("Identifier"), group("x"), group("1")];
    assert_eq!(tokens_from_captures(&vec![whole.clone(), short]), Err(ExtractError::Incomplete));
    let hole = vec![group("all"), group("Identifier"), None, group("1"), group("2")];
    assert_eq!(tokens_from_captures(&vec![hole]), Err(ExtractError::Incomplete));
    let words = vec![group("all"), group("Identifier"), group("x"), group("one"), group("")];
    assert_eq!(
        tokens_from_captures(&vec![words]),
        Ok(vec![token(TokenType::Identifier, "x", 0, 0)])
    );
    assert_eq!(tokens_from_captures(&vec![]), Ok(vec![]));
}

#[test]
fn pattern_that_does_not_compile_is_an_error() {
    assert_eq!(extract_tokens_with("(", "Token { Tipo: EOF }"), Err(ExtractError::Pattern));
}

#[test]
fn pattern_with_too_few_groups_is_incomplete() {
    assert_eq!(extract_tokens_with("(a)(b)", "ab"), Err(ExtractError::Incomplete));
    assert_eq!(extract_tokens_with("(a)(b)", "none"), Ok(vec![]));
}

#[test]
fn pattern_of_ones_own() {
    assert_eq!(
        extract_tokens_with(r"<(\w+) (\w*) (\d+) (\d+)>", "<Identifier x 1 2><EOF  1 3>"),
        Ok(vec![token(TokenType::Identifier, "x", 1, 2), token(TokenType::EOF, "", 1, 3)])
    );
}

#[test]
fn group_that_took_no_part_is_incomplete() {
    assert_eq!(
        extract_tokens_with(r"(\w+) (x)? (\d+) (\d+)", "EOF  1 2"),
        Err(ExtractError::Incomplete)
    );
}

#[test]
fn token_pattern_compiles() {
    assert!(regex::Regex::new(TOKEN_PATTERN).is_ok());
}

#[test]
fn signed_numerals() {
    assert_eq!(parse_i64("0"), Some(0));
    assert_eq!(parse_i64("42"), Some(42));
    assert_eq!(parse_i64("+42"), Some(42));
    assert_eq!(parse_i64("-42"), Some(-42));
    assert_eq!(parse_i64("0042"), Some(42));
    assert_eq!(parse_i64("9223372036854775807"), Some(i64::MAX));
    assert_eq!(parse_i64("-9223372036854775808"), Some(i64::MIN));
    assert_eq!(parse_i64("9223372036854775808"), None);
    assert_eq!(parse_i64("-9223372036854775809"), None);
    assert_eq!(parse_i64("99999999999999999999999999"), None);
    assert_eq!(parse_i64(""), None);
    assert_eq!(parse_i64("+"), None);
    assert_eq!(parse_i64("-"), None);
    assert_eq!(parse_i64("--1"), None);
    assert_eq!(parse_i64("1 "), None);
    assert_eq!(parse_i64("12a"), None);
    assert_eq!(parse_i64("١٢"), None);
}

#[test]
fn signed_numerals_agree_with_the_standard_library() {
    for text in ["0", "-0", "+0", "7", "-7", "+-7", "00", "1_000", " 1", "9223372036854775807"] {
        assert_eq!(parse_i64(text), text.parse::<i64>().ok());
    }
}

#[test]
fn unsigned_numerals() {
    assert_eq!(parse_usize("0"), Some(0));
    assert_eq!(parse_usize("+17"), Some(17));
    assert_eq!(parse_usize("-17"), None);
    assert_eq!(parse_usize("-0"), None);
    assert_eq!(parse_usize(""), None);
    assert_eq!(parse_usize("+"), None);
    assert_eq!(parse_usize(&usize::MAX.to_string()), Some(usize::MAX));
    assert_eq!(parse_usize(&format!("{}0", usize::MAX)), None);
    assert_eq!(parse_usize("18446744073709551616"), "18446744073709551616".parse::<usize>().ok());
}

#[test]
fn character_classes() {
    assert!(is_letter('a') && is_letter('Z') && is_letter('é') && is_letter('京'));
    assert!(!is_letter('1') && !is_letter('_') && !is_letter('\0') && !is_letter(' '));
    assert!(is_digit('0') && is_digit('9') && !is_digit('a') && !is_digit('٣'));
    assert!(is_blank(' ') && is_blank('\n') && is_blank('\t') && is_blank('\r'));
    assert!(is_blank('\u{a0}') && is_blank('\u{3000}'));
    assert!(!is_blank('\0') && !is_blank('a') && !is_blank('!') && !is_blank('\u{200b}'));
    assert!(is_operator_char('+') && is_operator_char('\\') && is_operator_char('='));
    assert!(!is_operator_char('!') && !is_operator_char('~') && !is_operator_char(':'));
}

#[test]
fn character_classes_agree_with_the_standard_library() {
    for code in 0u32..0x3000 {
        if let Some(c) = char::from_u32(code) {
            assert_eq!(is_letter(c), c.is_alphabetic());
            assert_eq!(is_blank(c), c.is_whitespace());
            assert_eq!(is_digit(c), c.is_digit(10));
        }
    }
}

#[test]
fn remove_parentheses_drops_the_list_marks() {
    assert_eq!(remove_parentheses("Call(\"f\", [Number(1), Number(2)])"), "Call\"f\" Number1 Number2");
    assert_eq!(remove_parentheses("plain"), "plain");
    assert_eq!(remove_parentheses("()[],"), "");
    assert_eq!(remove_parentheses(""), "");
    assert_eq!(remove_parentheses("{a}\n(b)"), "{a}\nb");
}
