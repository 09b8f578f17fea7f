//! What the lexer does, as mathematical functions on the input text and a
//! position in it: how the position moves, what is skipped, and which token
//! starts where.
//!
//! Beyond the end of the input the current character is NUL. Line, column
//! and position count up to the largest `usize` and stay there. The input is
//! one that a `Vec` can hold: no longer than the largest `usize`.

use vstd::prelude::*;
use crate::text::{is_blank_char, is_digit_char, is_letter_char, is_operator_symbol};
use crate::token::{TokenType, TokenView};

verus! {

/// Where the lexer stands: the input, the index of the current character,
/// and the line and column that the lexer counts for it.
pub struct LexerState {
    pub input: Seq<char>,
    pub pos: usize,
    pub row: usize,
    pub col: usize,
}

/// One more, unless `x` is the largest `usize`.
pub open spec fn bump(x: usize) -> usize {
    if x < usize::MAX {
        (x + 1) as usize
    } else {
        x
    }
}

/// The character at index `i`, NUL beyond the end.
pub open spec fn char_at(input: Seq<char>, i: int) -> char {
    if 0 <= i < input.len() {
        input[i]
    } else {
        '\0'
    }
}

impl LexerState {
    /// The current character.
    pub open spec fn current(self) -> char {
        char_at(self.input, self.pos as int)
    }

    /// How many characters of the input lie at or behind the position.
    pub open spec fn remaining(self) -> nat {
        if self.pos < self.input.len() {
            (self.input.len() - self.pos) as nat
        } else {
            0
        }
    }

    /// The state after one step to the next character. A newline starts a
    /// new line at column 0; any other character is one column further.
    pub open spec fn advance(self) -> LexerState {
        let pos = bump(self.pos);
        if char_at(self.input, pos as int) == '\n' {
            LexerState { input: self.input, pos, row: bump(self.row), col: 0 }
        } else {
            LexerState { input: self.input, pos, row: self.row, col: bump(self.col) }
        }
    }
}

/// The state in which a lexer starts on `input`: on its first character, in
/// line 1.
pub open spec fn start_state(input: Seq<char>) -> LexerState {
    if char_at(input, 0) == '\n' {
        LexerState { input, pos: 0, row: 2, col: 0 }
    } else {
        LexerState { input, pos: 0, row: 1, col: 1 }
    }
}

/// The state at the end of the line: on the next newline or NUL.
pub open spec fn skip_line(s: LexerState) -> LexerState
    decreases s.remaining(),
    when s.input.len() <= usize::MAX
{
    if s.current() != '\n' && s.current() != '\0' {
        skip_line(s.advance())
    } else {
        s
    }
}

/// Skipping to the end of the line does not move backwards, nor beyond the
/// end of the input.
pub proof fn lemma_skip_line_moves_on(s: LexerState)
    requires
        s.input.len() <= usize::MAX,
    ensures
        skip_line(s).input == s.input,
        skip_line(s).pos >= s.pos,
        s.pos <= s.input.len() ==> skip_line(s).pos <= s.input.len(),
        s.current() != '\n' && s.current() != '\0' ==> skip_line(s).pos > s.pos,
    decreases s.remaining(),
{
    if s.current() != '\n' && s.current() != '\0' {
        lemma_skip_line_moves_on(s.advance());
    }
}

/// The state after blanks and comments: on the first character that is
/// neither a blank nor the `!` that opens a comment. A comment runs to the
/// end of its line; the character that ends it is skipped with it.
pub open spec fn skip_blanks(s: LexerState) -> LexerState
    decreases s.remaining(),
    when s.input.len() <= usize::MAX
{
    if s.current() == '!' {
        proof {
            lemma_skip_line_moves_on(s);
        }
        skip_blanks(skip_line(s).advance())
    } else if is_blank_char(s.current()) {
        skip_blanks(s.advance())
    } else {
        s
    }
}

/// The three kinds of token that are runs of characters of one class.
pub enum Run {
    /// Letters and digits: an identifier or keyword.
    Word,
    /// Digits: an integer literal.
    Number,
    /// Operator characters: an operator.
    Operator,
}

impl Run {
    /// Whether `c` continues a run of this kind.
    pub open spec fn holds(self, c: char) -> bool {
        match self {
            Run::Word => is_letter_char(c) || is_digit_char(c),
            Run::Number => is_digit_char(c),
            Run::Operator => is_operator_symbol(c),
        }
    }
}

/// The state behind the longest run of `run` characters that starts at the
/// current one.
pub open spec fn run_end(run: Run, s: LexerState) -> LexerState
    decreases s.remaining(),
    when s.input.len() <= usize::MAX
{
    if run.holds(s.current()) {
        run_end(run, s.advance())
    } else {
        s
    }
}

/// The kind of a word: the keyword it spells, else an identifier.
pub open spec fn word_kind(word: Seq<char>) -> TokenType {
    if word == "array"@ {
        TokenType::Array
    } else if word == "begin"@ {
        TokenType::Begin
    } else if word == "const"@ {
        TokenType::Const
    } else if word == "do"@ {
        TokenType::Do
    } else if word == "else"@ {
        TokenType::Else
    } else if word == "end"@ {
        TokenType::End
    } else if word == "func"@ {
        TokenType::Func
    } else if word == "if"@ {
        TokenType::If
    } else if word == "in"@ {
        TokenType::In
    } else if word == "let"@ {
        TokenType::Let
    } else if word == "of"@ {
        TokenType::Of
    } else if word == "proc"@ {
        TokenType::Proc
    } else if word == "record"@ {
        TokenType::Record
    } else if word == "then"@ {
        TokenType::Then
    } else if word == "type"@ {
        TokenType::Type
    } else if word == "var"@ {
        TokenType::Var
    } else if word == "while"@ {
        TokenType::While
    } else {
        TokenType::Identifier
    }
}

/// The kind of the token that is the one character `c`, for the punctuation
/// marks; `Illegal` for every other character.
pub open spec fn mark_kind(c: char) -> TokenType {
    if c == '{' {
        TokenType::LeftBrace
    } else if c == '}' {
        TokenType::RightBrace
    } else if c == '(' {
        TokenType::LeftParen
    } else if c == ')' {
        TokenType::RightParen
    } else if c == '[' {
        TokenType::LeftBracket
    } else if c == ']' {
        TokenType::RightBracket
    } else if c == ':' {
        TokenType::Colon
    } else if c == ';' {
        TokenType::Semicolon
    } else if c == ',' {
        TokenType::Comma
    } else if c == '.' {
        TokenType::Period
    } else if c == '=' {
        TokenType::Equals
    } else if c == '~' {
        TokenType::Tilde
    } else {
        TokenType::Illegal
    }
}

/// A token and the state behind it.
pub struct Lexed {
    pub token: TokenView,
    pub next: LexerState,
}

/// The token that is the run of `run` characters at `s`. Its text is the
/// run; a word's kind is looked up, the others have the kind given.
pub open spec fn run_token(run: Run, kind: TokenType, s: LexerState) -> Lexed {
    let end = run_end(run, s);
    let lexeme = s.input.subrange(s.pos as int, end.pos as int);
    Lexed {
        token: TokenView {
            token_type: match run {
                Run::Word => word_kind(lexeme),
                _ => kind,
            },
            lexeme,
            row: s.row,
            col: s.col,
        },
        next: end,
    }
}

/// The token that starts at `s`, where `s` is on no blank and on no
/// comment. The token's line and column are those of its first character.
///
/// - a punctuation mark is a token of its own, `:=` the assignment token;
/// - a quote takes the character behind it as a character literal, and the
///   character behind that as the closing quote, whatever it is;
/// - NUL, which also stands for the end of the input, is the end-of-input
///   token, with no text;
/// - a letter starts a word, a digit a number, an operator character an
///   operator: each the longest run of its class;
/// - any other character is an illegal token of that character.
pub open spec fn token_at(s: LexerState) -> Lexed {
    let c = s.current();
    let here = |kind: TokenType, lexeme: Seq<char>|
        TokenView { token_type: kind, lexeme, row: s.row, col: s.col };
    if c == ':' && char_at(s.input, bump(s.pos) as int) == '=' {
        Lexed { token: here(TokenType::Assign, seq![':', '=']), next: s.advance().advance() }
    } else if mark_kind(c) != TokenType::Illegal {
        Lexed { token: here(mark_kind(c), seq![c]), next: s.advance() }
    } else if c == '\'' {
        Lexed {
            token: here(TokenType::CharLiteral, seq![s.advance().current()]),
            next: s.advance().advance().advance(),
        }
    } else if c == '\0' {
        Lexed { token: here(TokenType::EOF, Seq::empty()), next: s.advance() }
    } else if is_letter_char(c) {
        run_token(Run::Word, TokenType::Identifier, s)
    } else if is_digit_char(c) {
        run_token(Run::Number, TokenType::IntegerLiteral, s)
    } else if is_operator_symbol(c) {
        run_token(Run::Operator, TokenType::Operator, s)
    } else {
        Lexed { token: here(TokenType::Illegal, seq![c]), next: s.advance() }
    }
}

/// The next token from `s`: the token that starts behind the blanks and
/// comments at `s`.
pub open spec fn next_lexed(s: LexerState) -> Lexed {
    token_at(skip_blanks(s))
}

/// Skipping blanks and comments does not move backwards and keeps the
/// input.
pub proof fn lemma_skip_blanks_moves_on(s: LexerState)
    requires
        s.input.len() <= usize::MAX,
    ensures
        skip_blanks(s).input == s.input,
        skip_blanks(s).pos >= s.pos,
    decreases s.remaining(),
{
    if s.current() == '!' {
        lemma_skip_line_moves_on(s);
        lemma_skip_blanks_moves_on(skip_line(s).advance());
    } else if is_blank_char(s.current()) {
        lemma_skip_blanks_moves_on(s.advance());
    }
}

/// A run ends inside the input, not before its start, and behind its start
/// if the character there belongs to it.
pub proof fn lemma_run_end_moves_on(run: Run, s: LexerState)
    requires
        s.input.len() <= usize::MAX,
    ensures
        run_end(run, s).input == s.input,
        run_end(run, s).pos >= s.pos,
        s.pos <= s.input.len() ==> run_end(run, s).pos <= s.input.len(),
        run.holds(s.current()) ==> run_end(run, s).pos > s.pos,
    decreases s.remaining(),
{
    if run.holds(s.current()) {
        lemma_run_end_moves_on(run, s.advance());
    }
}

/// Every token but the end-of-input token takes at least one character, and
/// no token changes the input.
pub proof fn lemma_token_moves_on(s: LexerState)
    requires
        s.input.len() <= usize::MAX,
    ensures
        next_lexed(s).next.input == s.input,
        next_lexed(s).token.token_type != TokenType::EOF ==> next_lexed(s).next.remaining()
            < s.remaining(),
{
    let at = skip_blanks(s);
    lemma_skip_blanks_moves_on(s);
    lemma_run_end_moves_on(Run::Word, at);
    lemma_run_end_moves_on(Run::Number, at);
    lemma_run_end_moves_on(Run::Operator, at);
}

/// All the tokens from `s` on, up to and with the first end-of-input token.
pub open spec fn token_sequence(s: LexerState) -> Seq<TokenView>
    decreases s.remaining(),
    when s.input.len() <= usize::MAX
{
    let step = next_lexed(s);
    if step.token.token_type == TokenType::EOF {
        seq![step.token]
    } else {
        proof {
            lemma_token_moves_on(s);
        }
        seq![step.token] + token_sequence(step.next)
    }
}

/// The tokens of a source text.
pub open spec fn tokens_of(input: Seq<char>) -> Seq<TokenView> {
    token_sequence(start_state(input))
}

/// A token sequence ends with its only end-of-input token.
pub proof fn lemma_token_sequence_ends(s: LexerState)
    requires
        s.input.len() <= usize::MAX,
    ensures
        token_sequence(s).len() >= 1,
        token_sequence(s).last().token_type == TokenType::EOF,
        forall|i: int|
            0 <= i < token_sequence(s).len() - 1 ==> (#[trigger] token_sequence(s)[i]).token_type
                != TokenType::EOF,
    decreases s.remaining(),
{
    let step = next_lexed(s);
    if step.token.token_type != TokenType::EOF {
        lemma_token_moves_on(s);
        lemma_token_sequence_ends(step.next);
    }
}

} // verus!
