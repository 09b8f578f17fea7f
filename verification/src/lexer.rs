//! The lexer: reads a source text token by token.

use vstd::prelude::*;
use vstd::slice::slice_subrange;
use crate::scan::{
    LexerState, Run, bump, char_at, lemma_skip_line_moves_on, lemma_token_moves_on,
    lemma_token_sequence_ends, next_lexed, run_end, run_token, skip_blanks, skip_line,
    start_state, token_sequence, tokens_of, word_kind,
};
use crate::text::{
    chars_of, is_blank, is_digit, is_letter, is_operator_char, spells, string_of,
};
use crate::token::{Token, TokenType, TokenView, tokens_view};

verus! {

/// A lexer over one source text.
pub struct Lexer {
    input: Vec<char>,
    curr_pos: usize,
    next_pos: usize,
    curr_char: char,
    row: usize,
    col: usize,
}

impl View for Lexer {
    type V = LexerState;

    closed spec fn view(&self) -> LexerState {
        LexerState { input: self.input@, pos: self.curr_pos, row: self.row, col: self.col }
    }
}

/// The kind of a word: the keyword it spells, else an identifier.
fn word_type(word: &[char]) -> (kind: TokenType)
    ensures
        kind == word_kind(word@),
{
    if spells(word, "array") {
        TokenType::Array
    } else if spells(word, "begin") {
        TokenType::Begin
    } else if spells(word, "const") {
        TokenType::Const
    } else if spells(word, "do") {
        TokenType::Do
    } else if spells(word, "else") {
        TokenType::Else
    } else if spells(word, "end") {
        TokenType::End
    } else if spells(word, "func") {
        TokenType::Func
    } else if spells(word, "if") {
        TokenType::If
    } else if spells(word, "in") {
        TokenType::In
    } else if spells(word, "let") {
        TokenType::Let
    } else if spells(word, "of") {
        TokenType::Of
    } else if spells(word, "proc") {
        TokenType::Proc
    } else if spells(word, "record") {
        TokenType::Record
    } else if spells(word, "then") {
        TokenType::Then
    } else if spells(word, "type") {
        TokenType::Type
    } else if spells(word, "var") {
        TokenType::Var
    } else if spells(word, "while") {
        TokenType::While
    } else {
        TokenType::Identifier
    }
}

/// One more, unless `x` is the largest `usize`.
fn bumped(x: usize) -> (r: usize)
    ensures
        r == bump(x),
{
    if x < usize::MAX {
        x + 1
    } else {
        x
    }
}

impl Lexer {
    /// The lexer looks one character ahead of the current one, and the
    /// current character is the one at its position.
    pub closed spec fn wf(&self) -> bool {
        &&& self.input@.len() <= usize::MAX
        &&& self.next_pos == bump(self.curr_pos)
        &&& self.curr_char == char_at(self.input@, self.curr_pos as int)
    }

    /// A lexer at the start of `input`.
    pub fn new(input: String) -> (lexer: Lexer)
        ensures
            lexer.wf(),
            lexer@ == start_state(input@),
    {
        let mut lexer = Lexer {
            input: chars_of(input.as_str()),
            curr_pos: 0,
            next_pos: 0,
            curr_char: '\0',
            row: 1,
            col: 0,
        };
        assert(lexer.input@.len() == lexer.input.len());
        lexer.read_char();
        lexer
    }

    /// Steps to the next character.
    fn read_char(&mut self)
        ensures
            final(self).input == old(self).input,
            final(self).curr_pos == old(self).next_pos,
            final(self).next_pos == bump(old(self).next_pos),
            final(self).curr_char == char_at(old(self).input@, old(self).next_pos as int),
            final(self).curr_char == '\n' ==> final(self).row == bump(old(self).row),
            final(self).curr_char == '\n' ==> final(self).col == 0,
            final(self).curr_char != '\n' ==> final(self).row == old(self).row,
            final(self).curr_char != '\n' ==> final(self).col == bump(old(self).col),
            old(self).wf() ==> final(self).wf() && final(self)@ == old(self)@.advance(),
    {
        if self.next_pos >= self.input.len() {
            self.curr_char = '\0';
        } else {
            self.curr_char = self.input[self.next_pos];
        }
        if self.curr_char == '\n' {
            self.row = bumped(self.row);
            self.col = 0;
        } else {
            self.col = bumped(self.col);
        }
        self.curr_pos = self.next_pos;
        self.next_pos = bumped(self.next_pos);
    }

    /// The character behind the current one, NUL at the end.
    fn look_ahead(&self) -> (c: char)
        requires
            self.wf(),
        ensures
            c == char_at(self@.input, bump(self@.pos) as int),
    {
        if self.next_pos >= self.input.len() {
            '\0'
        } else {
            self.input[self.next_pos]
        }
    }

    /// Skips blanks and comments.
    fn skip_whitespace_and_comments(&mut self)
        requires
            old(self).wf(),
        ensures
            final(self).wf(),
            final(self)@ == skip_blanks(old(self)@),
    {
        while is_blank(self.curr_char) || self.curr_char == '!'
            invariant
                self.wf(),
                self@.input == old(self)@.input,
                skip_blanks(self@) == skip_blanks(old(self)@),
            decreases self@.remaining(),
        {
            if self.curr_char == '!' {
                let ghost from = self@;
                while self.curr_char != '\n' && self.curr_char != '\0'
                    invariant
                        self.wf(),
                        self@.input == from.input,
                        skip_line(self@) == skip_line(from),
                    decreases self@.remaining(),
                {
                    self.read_char();
                }
                proof {
                    lemma_skip_line_moves_on(from);
                }
            }
            self.read_char();
        }
    }

    /// The token of the text from `start` to the current position, which
    /// began in line `row`, column `col`.
    fn token_from(&self, token_type: TokenType, start: usize, row: usize, col: usize) -> (tok:
        Token)
        requires
            start <= self.curr_pos <= self.input.len(),
        ensures
            tok@ == (TokenView {
                token_type,
                lexeme: self@.input.subrange(start as int, self@.pos as int),
                row,
                col,
            }),
    {
        let text = slice_subrange(self.input.as_slice(), start, self.curr_pos);
        Token::new(token_type, string_of(text), row, col)
    }

    /// Reads a word: a keyword or an identifier.
    fn read_identifier(&mut self) -> (tok: Token)
        requires
            old(self).wf(),
            old(self)@.pos < old(self)@.input.len(),
        ensures
            final(self).wf(),
            tok@ == run_token(Run::Word, TokenType::Identifier, old(self)@).token,
            final(self)@ == run_token(Run::Word, TokenType::Identifier, old(self)@).next,
    {
        let start_row = self.row;
        let start_col = self.col;
        let start_pos = self.curr_pos;
        while is_letter(self.curr_char) || is_digit(self.curr_char)
            invariant
                self.wf(),
                self@.input == old(self)@.input,
                run_end(Run::Word, self@) == run_end(Run::Word, old(self)@),
                start_pos <= self@.pos <= self@.input.len(),
            decreases self@.remaining(),
        {
            self.read_char();
        }
        let text = slice_subrange(self.input.as_slice(), start_pos, self.curr_pos);
        let token_type = word_type(text);
        Token::new(token_type, string_of(text), start_row, start_col)
    }

    /// Reads an integer literal.
    fn read_number(&mut self) -> (tok: Token)
        requires
            old(self).wf(),
            old(self)@.pos < old(self)@.input.len(),
        ensures
            final(self).wf(),
            tok@ == run_token(Run::Number, TokenType::IntegerLiteral, old(self)@).token,
            final(self)@ == run_token(Run::Number, TokenType::IntegerLiteral, old(self)@).next,
    {
        let start_row = self.row;
        let start_col = self.col;
        let start_pos = self.curr_pos;
        while is_digit(self.curr_char)
            invariant
                self.wf(),
                self@.input == old(self)@.input,
                run_end(Run::Number, self@) == run_end(Run::Number, old(self)@),
                start_pos <= self@.pos <= self@.input.len(),
            decreases self@.remaining(),
        {
            self.read_char();
        }
        self.token_from(TokenType::IntegerLiteral, start_pos, start_row, start_col)
    }

    /// Reads an operator: the whole run of operator characters, whichever
    /// they are.
    fn read_operator(&mut self) -> (tok: Token)
        requires
            old(self).wf(),
            old(self)@.pos < old(self)@.input.len(),
        ensures
            final(self).wf(),
            tok@ == run_token(Run::Operator, TokenType::Operator, old(self)@).token,
            final(self)@ == run_token(Run::Operator, TokenType::Operator, old(self)@).next,
    {
        let start_row = self.row;
        let start_col = self.col;
        let start_pos = self.curr_pos;
        while is_operator_char(self.curr_char)
            invariant
                self.wf(),
                self@.input == old(self)@.input,
                run_end(Run::Operator, self@) == run_end(Run::Operator, old(self)@),
                start_pos <= self@.pos <= self@.input.len(),
            decreases self@.remaining(),
        {
            self.read_char();
        }
        self.token_from(TokenType::Operator, start_pos, start_row, start_col)
    }

    /// The token of the one character `c`, at line `row`, column `col`.
    fn char_token(token_type: TokenType, c: char, row: usize, col: usize) -> (tok: Token)
        ensures
            tok@ == (TokenView { token_type, lexeme: seq![c], row, col }),
    {
        let mut text: Vec<char> = Vec::new();
        text.push(c);
        proof {
            assert(text@ =~= seq![c]);
        }
        Token::new(token_type, string_of(text.as_slice()), row, col)
    }

    /// The token of the current character, in the current line, at column
    /// `start_col`.
    fn create_token(&self, token_type: TokenType, start_col: usize) -> (tok: Token)
        ensures
            tok@ == (TokenView {
                token_type,
                lexeme: seq![self.curr_char],
                row: self.row,
                col: start_col,
            }),
    {
        Lexer::char_token(token_type, self.curr_char, self.row, start_col)
    }

    /// Reads a character literal: the quote, the character, and one more
    /// character where the closing quote stands.
    fn read_character(&mut self) -> (tok: Token)
        requires
            old(self).wf(),
        ensures
            final(self).wf(),
            tok@ == (TokenView {
                token_type: TokenType::CharLiteral,
                lexeme: seq![old(self)@.advance().current()],
                row: old(self)@.row,
                col: old(self)@.col,
            }),
            final(self)@ == old(self)@.advance().advance().advance(),
    {
        let start_row = self.row;
        let start_col = self.col;
        self.read_char();
        let char_lit = self.curr_char;
        self.read_char();
        self.read_char();
        Lexer::char_token(TokenType::CharLiteral, char_lit, start_row, start_col)
    }

    /// Reads the next token: skips blanks and comments, then takes the token
    /// that starts at the current character. At the end of the input the
    /// token is the end-of-input token, on every call.
    pub fn next_token(&mut self) -> (tok: Token)
        requires
            old(self).wf(),
        ensures
            final(self).wf(),
            tok@ == next_lexed(old(self)@).token,
            final(self)@ == next_lexed(old(self)@).next,
    {
        self.skip_whitespace_and_comments();
        let start_row = self.row;
        let start_col = self.col;
        let c = self.curr_char;
        let tok = match c {
            '{' => self.create_token(TokenType::LeftBrace, start_col),
            '}' => self.create_token(TokenType::RightBrace, start_col),
            '(' => self.create_token(TokenType::LeftParen, start_col),
            ')' => self.create_token(TokenType::RightParen, start_col),
            '[' => self.create_token(TokenType::LeftBracket, start_col),
            ']' => self.create_token(TokenType::RightBracket, start_col),
            ':' => {
                if self.look_ahead() == '=' {
                    self.read_char();
                    proof {
                        reveal_strlit(":=");
                        assert(":="@ =~= seq![':', '=']);
                    }
                    Token::new(TokenType::Assign, String::from_str(":="), start_row, start_col)
                } else {
                    self.create_token(TokenType::Colon, start_col)
                }
            },
            ';' => self.create_token(TokenType::Semicolon, start_col),
            ',' => self.create_token(TokenType::Comma, start_col),
            '.' => self.create_token(TokenType::Period, start_col),
            '=' => self.create_token(TokenType::Equals, start_col),
            '~' => self.create_token(TokenType::Tilde, start_col),
            '\'' => {
                return self.read_character();
            },
            '\0' => Token::new(TokenType::EOF, String::new(), start_row, start_col),
            _ => {
                if is_letter(c) {
                    return self.read_identifier();
                } else if is_digit(c) {
                    return self.read_number();
                } else if is_operator_char(c) {
                    return self.read_operator();
                } else {
                    self.create_token(TokenType::Illegal, start_col)
                }
            },
        };
        self.read_char();
        tok
    }
}

/// Reads a whole source text: every token up to and with the first
/// end-of-input token. The result is never empty, its last token is the
/// end-of-input token and no other is.
pub fn tokenize(input: String) -> (tokens: Vec<Token>)
    ensures
        tokens_view(tokens@) == tokens_of(input@),
        tokens.len() >= 1,
        tokens[tokens.len() - 1].token_type == TokenType::EOF,
        forall|i: int| 0 <= i < tokens.len() - 1 ==> tokens[i].token_type != TokenType::EOF,
{
    let mut lexer = Lexer::new(input);
    let mut tokens: Vec<Token> = Vec::new();
    proof {
        assert(tokens_view(tokens@) =~= Seq::<TokenView>::empty());
        assert(tokens_of(input@) =~= tokens_view(tokens@) + token_sequence(lexer@));
    }
    loop
        invariant_except_break
            lexer.wf(),
            lexer@.input.len() <= usize::MAX,
            tokens_of(input@) == tokens_view(tokens@) + token_sequence(lexer@),
        ensures
            tokens_view(tokens@) == tokens_of(input@),
        decreases lexer@.remaining(),
    {
        let ghost before = lexer@;
        let ghost sofar = tokens@;
        let tok = lexer.next_token();
        let done = tok.token_type == TokenType::EOF;
        tokens.push(tok);
        proof {
            lemma_token_moves_on(before);
            assert(tokens_view(tokens@) =~= tokens_view(sofar) + seq![tok@]);
            if done {
                assert(tokens_of(input@) =~= tokens_view(tokens@));
            } else {
                assert(tokens_of(input@) =~= tokens_view(tokens@) + token_sequence(lexer@));
            }
        }
        if done {
            break ;
        }
    }
    proof {
        lemma_token_sequence_ends(start_state(input@));
        assert(tokens_view(tokens@).len() == tokens.len());
        assert(tokens_view(tokens@).last() == tokens[tokens.len() - 1]@);
        assert forall|i: int| 0 <= i < tokens.len() - 1 implies tokens[i].token_type
            != TokenType::EOF by {
            assert(tokens_view(tokens@)[i] == tokens[i]@);
        }
    }
    tokens
}

} // verus!
