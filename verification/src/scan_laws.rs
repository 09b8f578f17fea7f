//! What holds of the tokens of the shortest texts, one for each class of
//! character, and of the literals among the tokens of any text.

use vstd::prelude::*;
use crate::grammar::{token_readable, well_formed_stream};
use crate::numbers::{all_digits, digits_value};
use crate::scan::{
    LexerState, Run, lemma_run_end_moves_on, lemma_skip_blanks_moves_on, lemma_token_moves_on,
    lemma_token_sequence_ends, mark_kind, next_lexed, run_end, skip_blanks, skip_line,
    start_state, token_sequence, tokens_of, word_kind,
};
use crate::text::{is_blank_char, is_digit_char, is_letter_char, is_operator_symbol};
use crate::token::{TokenType, TokenView};

verus! {

/// The kind of the token that one character alone makes: its own kind for a
/// punctuation mark, else the kind of its class, else `Illegal`.
pub open spec fn lone_kind(c: char) -> TokenType {
    if mark_kind(c) != TokenType::Illegal {
        mark_kind(c)
    } else if is_letter_char(c) {
        TokenType::Identifier
    } else if is_digit_char(c) {
        TokenType::IntegerLiteral
    } else if is_operator_symbol(c) {
        TokenType::Operator
    } else {
        TokenType::Illegal
    }
}

/// The end-of-input token at a line and column.
pub open spec fn end_token(row: usize, col: usize) -> TokenView {
    TokenView { token_type: TokenType::EOF, lexeme: Seq::empty(), row, col }
}

/// No keyword is one character long.
proof fn lemma_one_character_word(c: char)
    ensures
        word_kind(seq![c]) == TokenType::Identifier,
{
    reveal_strlit("array");
    reveal_strlit("begin");
    reveal_strlit("const");
    reveal_strlit("do");
    reveal_strlit("else");
    reveal_strlit("end");
    reveal_strlit("func");
    reveal_strlit("if");
    reveal_strlit("in");
    reveal_strlit("let");
    reveal_strlit("of");
    reveal_strlit("proc");
    reveal_strlit("record");
    reveal_strlit("then");
    reveal_strlit("type");
    reveal_strlit("var");
    reveal_strlit("while");
    assert(seq![c].len() == 1);
}

/// A text of one character that starts a token (no blank, no `!`, no quote,
/// no NUL) is that one token, of the kind of the character, at line 1,
/// column 1, and then the end of the input at column 2.
pub proof fn lemma_one_character(c: char)
    requires
        !is_blank_char(c),
        c != '!',
        c != '\'',
        c != '\0',
    ensures
        tokens_of(seq![c]) == seq![
            TokenView { token_type: lone_kind(c), lexeme: seq![c], row: 1, col: 1 },
            end_token(1, 2),
        ],
{
    let input = seq![c];
    let s0 = start_state(input);
    let s1 = s0.advance();
    assert(s0 == LexerState { input, pos: 0, row: 1, col: 1 });
    assert(s1 == LexerState { input, pos: 1, row: 1, col: 2 });
    assert(skip_blanks(s0) == s0);
    assert(skip_blanks(s1) == s1);
    assert(input.subrange(0, 1) =~= seq![c]);
    lemma_one_character_word(c);
    assert(next_lexed(s0).next == s1 && next_lexed(s0).token == TokenView {
        token_type: lone_kind(c),
        lexeme: seq![c],
        row: 1,
        col: 1,
    }) by {
        reveal_with_fuel(run_end, 2);
    }
    assert(next_lexed(s1).token == end_token(1, 2));
    assert(token_sequence(s1) == seq![end_token(1, 2)]);
    assert(token_sequence(s0) =~= seq![next_lexed(s0).token] + token_sequence(s1));
}

/// A text of one blank has no token but the end of the input: at the start
/// of line 2 behind a newline, at column 2 of line 1 behind any other blank.
pub proof fn lemma_one_blank(c: char)
    requires
        is_blank_char(c),
    ensures
        tokens_of(seq![c]) == seq![
            if c == '\n' {
                end_token(2, 1)
            } else {
                end_token(1, 2)
            },
        ],
{
    let input = seq![c];
    let s0 = start_state(input);
    let s1 = s0.advance();
    assert(skip_blanks(s1) == s1);
    assert(skip_blanks(s0) == s1) by {
        reveal_with_fuel(skip_blanks, 2);
    }
}

/// Inside a line, skipping to its end keeps the line and counts one column
/// a character.
proof fn lemma_skip_line_within(s: LexerState)
    requires
        s.input.len() < usize::MAX,
        s.pos <= s.input.len(),
        s.col == s.pos + 1,
        forall|i: int| s.pos <= i < s.input.len() ==> s.input[i] != '\n' && s.input[i] != '\0',
    ensures
        skip_line(s) == (LexerState {
            input: s.input,
            pos: s.input.len() as usize,
            row: s.row,
            col: (s.input.len() + 1) as usize,
        }),
    decreases s.remaining(),
{
    if s.pos < s.input.len() {
        lemma_skip_line_within(s.advance());
    }
}

/// A text that is one comment without a line end has no token but the end
/// of the input, two columns behind the last character of the comment.
pub proof fn lemma_one_comment(body: Seq<char>)
    requires
        body.len() + 3 <= usize::MAX,
        forall|i: int| 0 <= i < body.len() ==> body[i] != '\n' && body[i] != '\0',
    ensures
        tokens_of(seq!['!'] + body) == seq![end_token(1, (body.len() + 3) as usize)],
{
    let input = seq!['!'] + body;
    let s0 = start_state(input);
    assert forall|i: int| 0 <= i < input.len() implies input[i] != '\n' && input[i] != '\0' by {
        if i > 0 {
            assert(input[i] == body[i - 1]);
        }
    }
    lemma_skip_line_within(s0);
    let s1 = skip_line(s0);
    let s2 = s1.advance();
    assert(s2 == LexerState {
        input,
        pos: (input.len() + 1) as usize,
        row: 1,
        col: (input.len() + 2) as usize,
    });
    assert(skip_blanks(s2) == s2);
    assert(skip_blanks(s0) == s2);
}

/// A character between two quotes is one character literal of that
/// character, at line 1, column 1, and then the end of the input at
/// column 4.
pub proof fn lemma_one_character_literal(c: char)
    requires
        c != '\n',
    ensures
        tokens_of(seq!['\'', c, '\'']) == seq![
            TokenView { token_type: TokenType::CharLiteral, lexeme: seq![c], row: 1, col: 1 },
            end_token(1, 4),
        ],
{
    let input = seq!['\'', c, '\''];
    let s0 = start_state(input);
    let s1 = s0.advance();
    let s2 = s1.advance();
    let s3 = s2.advance();
    assert(s3 == LexerState { input, pos: 3, row: 1, col: 4 });
    assert(skip_blanks(s0) == s0);
    assert(skip_blanks(s3) == s3);
    assert(next_lexed(s0).next == s3);
    assert(next_lexed(s3).token == end_token(1, 4));
    assert(token_sequence(s3) == seq![end_token(1, 4)]);
    assert(token_sequence(s0) =~= seq![next_lexed(s0).token] + token_sequence(s3));
}

/// Every character of a run belongs to the run's class.
proof fn lemma_run_holds(run: Run, s: LexerState)
    requires
        s.input.len() <= usize::MAX,
    ensures
        forall|i: int| s.pos <= i < run_end(run, s).pos ==> run.holds(#[trigger] s.input[i]),
        s.pos <= s.input.len() ==> run_end(run, s).pos <= s.input.len(),
        run_end(run, s).pos >= s.pos,
    decreases s.remaining(),
{
    if run.holds(s.current()) {
        lemma_run_holds(run, s.advance());
    }
}

/// What the lexer gives for a literal: one character for a character
/// literal, one or more digits for an integer literal.
pub open spec fn literal_shaped(t: TokenView) -> bool {
    &&& t.token_type == TokenType::CharLiteral ==> t.lexeme.len() == 1
    &&& t.token_type == TokenType::IntegerLiteral ==> t.lexeme.len() >= 1 && all_digits(t.lexeme)
}

/// The next token, if it is a literal, has the shape of one.
pub proof fn lemma_next_token_shaped(s: LexerState)
    requires
        s.input.len() <= usize::MAX,
    ensures
        literal_shaped(next_lexed(s).token),
{
    let at = skip_blanks(s);
    lemma_skip_blanks_moves_on(s);
    lemma_run_holds(Run::Number, at);
    lemma_run_end_moves_on(Run::Number, at);
    let t = next_lexed(s).token;
    if t.token_type == TokenType::IntegerLiteral {
        assert(is_digit_char(at.current()));
        let end = run_end(Run::Number, at);
        assert forall|i: int| 0 <= i < t.lexeme.len() implies is_digit_char(
            #[trigger] t.lexeme[i],
        ) by {
            assert(t.lexeme[i] == at.input[at.pos + i]);
        }
    }
}

/// Every literal among the tokens of a text has the shape of one.
pub proof fn lemma_tokens_shaped(s: LexerState)
    requires
        s.input.len() <= usize::MAX,
    ensures
        forall|i: int|
            0 <= i < token_sequence(s).len() ==> literal_shaped(#[trigger] token_sequence(s)[i]),
    decreases s.remaining(),
{
    lemma_next_token_shaped(s);
    let step = next_lexed(s);
    if step.token.token_type != TokenType::EOF {
        lemma_token_moves_on(s);
        lemma_tokens_shaped(step.next);
        assert forall|i: int| 0 <= i < token_sequence(s).len() implies literal_shaped(
            #[trigger] token_sequence(s)[i],
        ) by {
            if i > 0 {
                assert(token_sequence(s)[i] == token_sequence(step.next)[i - 1]);
            }
        }
    }
}

/// The parser can take the tokens of a text if and only if none of its
/// integer literals is worth more than the largest `i64`.
pub proof fn lemma_tokens_well_formed(input: Seq<char>)
    requires
        input.len() <= usize::MAX,
    ensures
        well_formed_stream(tokens_of(input)) <==> forall|i: int|
            0 <= i < tokens_of(input).len() && (#[trigger] tokens_of(input)[i]).token_type
                == TokenType::IntegerLiteral ==> digits_value(tokens_of(input)[i].lexeme)
                <= i64::MAX,
{
    reveal(token_readable);
    let toks = tokens_of(input);
    lemma_token_sequence_ends(start_state(input));
    lemma_tokens_shaped(start_state(input));
    assert forall|i: int| 0 <= i < toks.len() implies (token_readable(#[trigger] toks[i]) <==> (
    toks[i].token_type == TokenType::IntegerLiteral ==> digits_value(toks[i].lexeme)
        <= i64::MAX)) by {
        assert(literal_shaped(toks[i]));
    }
}

} // verus!
