//! Token kinds and positioned tokens.

use vstd::prelude::*;
use crate::text::{chars_of, spells};

verus! {

/// The closed set of token kinds.
#[derive(Debug, Clone, Copy, PartialEq, Eq, Structural)]
pub enum TokenType {
    EOF,
    Illegal,
    Identifier,
    IntegerLiteral,
    CharLiteral,
    Operator,
    Array,
    Begin,
    Const,
    Do,
    Else,
    End,
    Func,
    If,
    In,
    Let,
    Of,
    Proc,
    Record,
    Then,
    Type,
    Var,
    While,
    Period,
    Colon,
    Semicolon,
    Comma,
    Equals,
    Tilde,
    LeftParen,
    RightParen,
    LeftBracket,
    RightBracket,
    LeftBrace,
    RightBrace,
    Assign,
}

/// A token: its kind, the exact text it was read from, and the 1-based line
/// and column of its first character.
#[derive(Debug, PartialEq, Eq)]
pub struct Token {
    pub token_type: TokenType,
    pub lexeme: String,
    pub row: usize,
    pub col: usize,
}

/// The mathematical value of a [`Token`]: the same fields, with the lexeme as
/// a sequence of characters.
pub struct TokenView {
    pub token_type: TokenType,
    pub lexeme: Seq<char>,
    pub row: usize,
    pub col: usize,
}

impl View for Token {
    type V = TokenView;

    open spec fn view(&self) -> TokenView {
        TokenView {
            token_type: self.token_type,
            lexeme: self.lexeme@,
            row: self.row,
            col: self.col,
        }
    }
}

impl Clone for Token {
    fn clone(&self) -> (r: Self)
        ensures
            r@ == self@,
    {
        Token {
            token_type: self.token_type,
            lexeme: self.lexeme.clone(),
            row: self.row,
            col: self.col,
        }
    }
}

impl Token {
    /// Builds a token from its four fields.
    pub fn new(token_type: TokenType, lexeme: String, row: usize, col: usize) -> (r: Self)
        ensures
            r.token_type == token_type,
            r.lexeme == lexeme,
            r.row == row,
            r.col == col,
    {
        Token { token_type, lexeme, row, col }
    }
}

/// The views of a sequence of tokens, element by element.
pub open spec fn tokens_view(tokens: Seq<Token>) -> Seq<TokenView> {
    Seq::new(tokens.len(), |i: int| tokens[i]@)
}

impl TokenType {
    /// The name of the kind: the name of the variant, as it is written.
    pub open spec fn name(self) -> Seq<char> {
        match self {
            TokenType::EOF => "EOF"@,
            TokenType::Illegal => "Illegal"@,
            TokenType::Identifier => "Identifier"@,
            TokenType::IntegerLiteral => "IntegerLiteral"@,
            TokenType::CharLiteral => "CharLiteral"@,
            TokenType::Operator => "Operator"@,
            TokenType::Array => "Array"@,
            TokenType::Begin => "Begin"@,
            TokenType::Const => "Const"@,
            TokenType::Do => "Do"@,
            TokenType::Else => "Else"@,
            TokenType::End => "End"@,
            TokenType::Func => "Func"@,
            TokenType::If => "If"@,
            TokenType::In => "In"@,
            TokenType::Let => "Let"@,
            TokenType::Of => "Of"@,
            TokenType::Proc => "Proc"@,
            TokenType::Record => "Record"@,
            TokenType::Then => "Then"@,
            TokenType::Type => "Type"@,
            TokenType::Var => "Var"@,
            TokenType::While => "While"@,
            TokenType::Period => "Period"@,
            TokenType::Colon => "Colon"@,
            TokenType::Semicolon => "Semicolon"@,
            TokenType::Comma => "Comma"@,
            TokenType::Equals => "Equals"@,
            TokenType::Tilde => "Tilde"@,
            TokenType::LeftParen => "LeftParen"@,
            TokenType::RightParen => "RightParen"@,
            TokenType::LeftBracket => "LeftBracket"@,
            TokenType::RightBracket => "RightBracket"@,
            TokenType::LeftBrace => "LeftBrace"@,
            TokenType::RightBrace => "RightBrace"@,
            TokenType::Assign => "Assign"@,
        }
    }

    /// The name of the kind.
    pub fn as_str(self) -> (name: &'static str)
        ensures
            name@ == self.name(),
    {
        match self {
            TokenType::EOF => "EOF",
            TokenType::Illegal => "Illegal",
            TokenType::Identifier => "Identifier",
            TokenType::IntegerLiteral => "IntegerLiteral",
            TokenType::CharLiteral => "CharLiteral",
            TokenType::Operator => "Operator",
            TokenType::Array => "Array",
            TokenType::Begin => "Begin",
            TokenType::Const => "Const",
            TokenType::Do => "Do",
            TokenType::Else => "Else",
            TokenType::End => "End",
            TokenType::Func => "Func",
            TokenType::If => "If",
            TokenType::In => "In",
            TokenType::Let => "Let",
            TokenType::Of => "Of",
            TokenType::Proc => "Proc",
            TokenType::Record => "Record",
            TokenType::Then => "Then",
            TokenType::Type => "Type",
            TokenType::Var => "Var",
            TokenType::While => "While",
            TokenType::Period => "Period",
            TokenType::Colon => "Colon",
            TokenType::Semicolon => "Semicolon",
            TokenType::Comma => "Comma",
            TokenType::Equals => "Equals",
            TokenType::Tilde => "Tilde",
            TokenType::LeftParen => "LeftParen",
            TokenType::RightParen => "RightParen",
            TokenType::LeftBracket => "LeftBracket",
            TokenType::RightBracket => "RightBracket",
            TokenType::LeftBrace => "LeftBrace",
            TokenType::RightBrace => "RightBrace",
            TokenType::Assign => "Assign",
        }
    }
}

/// The kind that `name` names, if it names one.
pub open spec fn kind_named(name: Seq<char>) -> Option<TokenType> {
    if name == "EOF"@ {
        Some(TokenType::EOF)
    } else if name == "Illegal"@ {
        Some(TokenType::Illegal)
    } else if name == "Identifier"@ {
        Some(TokenType::Identifier)
    } else if name == "IntegerLiteral"@ {
        Some(TokenType::IntegerLiteral)
    } else if name == "CharLiteral"@ {
        Some(TokenType::CharLiteral)
    } else if name == "Operator"@ {
        Some(TokenType::Operator)
    } else if name == "Array"@ {
        Some(TokenType::Array)
    } else if name == "Begin"@ {
        Some(TokenType::Begin)
    } else if name == "Const"@ {
        Some(TokenType::Const)
    } else if name == "Do"@ {
        Some(TokenType::Do)
    } else if name == "Else"@ {
        Some(TokenType::Else)
    } else if name == "End"@ {
        Some(TokenType::End)
    } else if name == "Func"@ {
        Some(TokenType::Func)
    } else if name == "If"@ {
        Some(TokenType::If)
    } else if name == "In"@ {
        Some(TokenType::In)
    } else if name == "Let"@ {
        Some(TokenType::Let)
    } else if name == "Of"@ {
        Some(TokenType::Of)
    } else if name == "Proc"@ {
        Some(TokenType::Proc)
    } else if name == "Record"@ {
        Some(TokenType::Record)
    } else if name == "Then"@ {
        Some(TokenType::Then)
    } else if name == "Type"@ {
        Some(TokenType::Type)
    } else if name == "Var"@ {
        Some(TokenType::Var)
    } else if name == "While"@ {
        Some(TokenType::While)
    } else if name == "Period"@ {
        Some(TokenType::Period)
    } else if name == "Colon"@ {
        Some(TokenType::Colon)
    } else if name == "Semicolon"@ {
        Some(TokenType::Semicolon)
    } else if name == "Comma"@ {
        Some(TokenType::Comma)
    } else if name == "Equals"@ {
        Some(TokenType::Equals)
    } else if name == "Tilde"@ {
        Some(TokenType::Tilde)
    } else if name == "LeftParen"@ {
        Some(TokenType::LeftParen)
    } else if name == "RightParen"@ {
        Some(TokenType::RightParen)
    } else if name == "LeftBracket"@ {
        Some(TokenType::LeftBracket)
    } else if name == "RightBracket"@ {
        Some(TokenType::RightBracket)
    } else if name == "LeftBrace"@ {
        Some(TokenType::LeftBrace)
    } else if name == "RightBrace"@ {
        Some(TokenType::RightBrace)
    } else if name == "Assign"@ {
        Some(TokenType::Assign)
    } else {
        None
    }
}

/// A text that had to name a token kind and names none.
#[derive(Debug, PartialEq, Eq)]
pub struct UnknownTokenType {
    pub found: String,
}

/// The kind that `input` names, or the input back as the error.
pub fn match_token(input: &str) -> (r: Result<TokenType, UnknownTokenType>)
    ensures
        match r {
            Ok(kind) => kind_named(input@) == Some(kind),
            Err(e) => kind_named(input@) is None && e.found@ == input@,
        },
{
    let chars = chars_of(input);
    let text = chars.as_slice();
    if spells(text, "EOF") {
        Ok(TokenType::EOF)
    } else if spells(text, "Illegal") {
        Ok(TokenType::Illegal)
    } else if spells(text, "Identifier") {
        Ok(TokenType::Identifier)
    } else if spells(text, "IntegerLiteral") {
        Ok(TokenType::IntegerLiteral)
    } else if spells(text, "CharLiteral") {
        Ok(TokenType::CharLiteral)
    } else if spells(text, "Operator") {
        Ok(TokenType::Operator)
    } else if spells(text, "Array") {
        Ok(TokenType::Array)
    } else if spells(text, "Begin") {
        Ok(TokenType::Begin)
    } else if spells(text, "Const") {
        Ok(TokenType::Const)
    } else if spells(text, "Do") {
        Ok(TokenType::Do)
    } else if spells(text, "Else") {
        Ok(TokenType::Else)
    } else if spells(text, "End") {
        Ok(TokenType::End)
    } else if spells(text, "Func") {
        Ok(TokenType::Func)
    } else if spells(text, "If") {
        Ok(TokenType::If)
    } else if spells(text, "In") {
        Ok(TokenType::In)
    } else if spells(text, "Let") {
        Ok(TokenType::Let)
    } else if spells(text, "Of") {
        Ok(TokenType::Of)
    } else if spells(text, "Proc") {
        Ok(TokenType::Proc)
    } else if spells(text, "Record") {
        Ok(TokenType::Record)
    } else if spells(text, "Then") {
        Ok(TokenType::Then)
    } else if spells(text, "Type") {
        Ok(TokenType::Type)
    } else if spells(text, "Var") {
        Ok(TokenType::Var)
    } else if spells(text, "While") {
        Ok(TokenType::While)
    } else if spells(text, "Period") {
        Ok(TokenType::Period)
    } else if spells(text, "Colon") {
        Ok(TokenType::Colon)
    } else if spells(text, "Semicolon") {
        Ok(TokenType::Semicolon)
    } else if spells(text, "Comma") {
        Ok(TokenType::Comma)
    } else if spells(text, "Equals") {
        Ok(TokenType::Equals)
    } else if spells(text, "Tilde") {
        Ok(TokenType::Tilde)
    } else if spells(text, "LeftParen") {
        Ok(TokenType::LeftParen)
    } else if spells(text, "RightParen") {
        Ok(TokenType::RightParen)
    } else if spells(text, "LeftBracket") {
        Ok(TokenType::LeftBracket)
    } else if spells(text, "RightBracket") {
        Ok(TokenType::RightBracket)
    } else if spells(text, "LeftBrace") {
        Ok(TokenType::LeftBrace)
    } else if spells(text, "RightBrace") {
        Ok(TokenType::RightBrace)
    } else if spells(text, "Assign") {
        Ok(TokenType::Assign)
    } else {
        Err(UnknownTokenType { found: String::from_str(input) })
    }
}

/// Every kind is the kind that its name names: no two kinds share a name.
pub proof fn lemma_name_names_kind(kind: TokenType)
    ensures
        kind_named(kind.name()) == Some(kind),
{
    reveal_strlit("EOF");
    reveal_strlit("Illegal");
    reveal_strlit("Identifier");
    reveal_strlit("IntegerLiteral");
    reveal_strlit("CharLiteral");
    reveal_strlit("Operator");
    reveal_strlit("Array");
    reveal_strlit("Begin");
    reveal_strlit("Const");
    reveal_strlit("Do");
    reveal_strlit("Else");
    reveal_strlit("End");
    reveal_strlit("Func");
    reveal_strlit("If");
    reveal_strlit("In");
    reveal_strlit("Let");
    reveal_strlit("Of");
    reveal_strlit("Proc");
    reveal_strlit("Record");
    reveal_strlit("Then");
    reveal_strlit("Type");
    reveal_strlit("Var");
    reveal_strlit("While");
    reveal_strlit("Period");
    reveal_strlit("Colon");
    reveal_strlit("Semicolon");
    reveal_strlit("Comma");
    reveal_strlit("Equals");
    reveal_strlit("Tilde");
    reveal_strlit("LeftParen");
    reveal_strlit("RightParen");
    reveal_strlit("LeftBracket");
    reveal_strlit("RightBracket");
    reveal_strlit("LeftBrace");
    reveal_strlit("RightBrace");
    reveal_strlit("Assign");
    assert("EOF"@.len() == 3 && "EOF"@[0] == 'E' && "EOF"@[2] == 'F');
    assert("Illegal"@.len() == 7 && "Illegal"@[0] == 'I' && "Illegal"@[6] == 'l');
    assert("Identifier"@.len() == 10 && "Identifier"@[0] == 'I' && "Identifier"@[9] == 'r');
    assert("IntegerLiteral"@.len() == 14 && "IntegerLiteral"@[0] == 'I' && "IntegerLiteral"@[13] == 'l');
    assert("CharLiteral"@.len() == 11 && "CharLiteral"@[0] == 'C' && "CharLiteral"@[10] == 'l');
    assert("Operator"@.len() == 8 && "Operator"@[0] == 'O' && "Operator"@[7] == 'r');
    assert("Array"@.len() == 5 && "Array"@[0] == 'A' && "Array"@[4] == 'y');
    assert("Begin"@.len() == 5 && "Begin"@[0] == 'B' && "Begin"@[4] == 'n');
    assert("Const"@.len() == 5 && "Const"@[0] == 'C' && "Const"@[4] == 't');
    assert("Do"@.len() == 2 && "Do"@[0] == 'D' && "Do"@[1] == 'o');
    assert("Else"@.len() == 4 && "Else"@[0] == 'E' && "Else"@[3] == 'e');
    assert("End"@.len() == 3 && "End"@[0] == 'E' && "End"@[2] == 'd');
    assert("Func"@.len() == 4 && "Func"@[0] == 'F' && "Func"@[3] == 'c');
    assert("If"@.len() == 2 && "If"@[0] == 'I' && "If"@[1] == 'f');
    assert("In"@.len() == 2 && "In"@[0] == 'I' && "In"@[1] == 'n');
    assert("Let"@.len() == 3 && "Let"@[0] == 'L' && "Let"@[2] == 't');
    assert("Of"@.len() == 2 && "Of"@[0] == 'O' && "Of"@[1] == 'f');
    assert("Proc"@.len() == 4 && "Proc"@[0] == 'P' && "Proc"@[3] == 'c');
    assert("Record"@.len() == 6 && "Record"@[0] == 'R' && "Record"@[5] == 'd');
    assert("Then"@.len() == 4 && "Then"@[0] == 'T' && "Then"@[3] == 'n');
    assert("Type"@.len() == 4 && "Type"@[0] == 'T' && "Type"@[3] == 'e');
    assert("Var"@.len() == 3 && "Var"@[0] == 'V' && "Var"@[2] == 'r');
    assert("While"@.len() == 5 && "While"@[0] == 'W' && "While"@[4] == 'e');
    assert("Period"@.len() == 6 && "Period"@[0] == 'P' && "Period"@[5] == 'd');
    assert("Colon"@.len() == 5 && "Colon"@[0] == 'C' && "Colon"@[4] == 'n');
    assert("Semicolon"@.len() == 9 && "Semicolon"@[0] == 'S' && "Semicolon"@[8] == 'n');
    assert("Comma"@.len() == 5 && "Comma"@[0] == 'C' && "Comma"@[4] == 'a');
    assert("Equals"@.len() == 6 && "Equals"@[0] == 'E' && "Equals"@[5] == 's');
    assert("Tilde"@.len() == 5 && "Tilde"@[0] == 'T' && "Tilde"@[4] == 'e');
    assert("LeftParen"@.len() == 9 && "LeftParen"@[0] == 'L' && "LeftParen"@[8] == 'n');
    assert("RightParen"@.len() == 10 && "RightParen"@[0] == 'R' && "RightParen"@[9] == 'n');
    assert("LeftBracket"@.len() == 11 && "LeftBracket"@[0] == 'L' && "LeftBracket"@[10] == 't');
    assert("RightBracket"@.len() == 12 && "RightBracket"@[0] == 'R' && "RightBracket"@[11] == 't');
    assert("LeftBrace"@.len() == 9 && "LeftBrace"@[0] == 'L' && "LeftBrace"@[8] == 'e');
    assert("RightBrace"@.len() == 10 && "RightBrace"@[0] == 'R' && "RightBrace"@[9] == 'e');
    assert("Assign"@.len() == 6 && "Assign"@[0] == 'A' && "Assign"@[5] == 'n');
}

} // verus!
