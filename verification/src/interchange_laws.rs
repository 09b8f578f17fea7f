//! Writing a token as a line and reading the line gives the token back.

use vstd::prelude::*;
use crate::interchange::{
    ReadErrorView, Trim, field, field_end, field_start, line_of, strip, strip_back, strip_front,
    token_of_line,
};
use crate::numbers::{decimal, lemma_decimal_digits, lemma_decimal_reads_back};
use crate::token::{TokenType, TokenView, lemma_name_names_kind};

verus! {

/// A letter of the Latin alphabet.
pub open spec fn is_latin_letter(c: char) -> bool {
    ('a' <= c && c <= 'z') || ('A' <= c && c <= 'Z')
}

/// The name of a kind is not empty and made of Latin letters.
pub proof fn lemma_name_is_letters(kind: TokenType)
    ensures
        kind.name().len() > 0,
        forall|i: int| 0 <= i < kind.name().len() ==> is_latin_letter(#[trigger] kind.name()[i]),
{
    match kind {
        TokenType::EOF => {
            reveal_strlit("EOF");
        },
        TokenType::Illegal => {
            reveal_strlit("Illegal");
        },
        TokenType::Identifier => {
            reveal_strlit("Identifier");
        },
        TokenType::IntegerLiteral => {
            reveal_strlit("IntegerLiteral");
        },
        TokenType::CharLiteral => {
            reveal_strlit("CharLiteral");
        },
        TokenType::Operator => {
            reveal_strlit("Operator");
        },
        TokenType::Array => {
            reveal_strlit("Array");
        },
        TokenType::Begin => {
            reveal_strlit("Begin");
        },
        TokenType::Const => {
            reveal_strlit("Const");
        },
        TokenType::Do => {
            reveal_strlit("Do");
        },
        TokenType::Else => {
            reveal_strlit("Else");
        },
        TokenType::End => {
            reveal_strlit("End");
        },
        TokenType::Func => {
            reveal_strlit("Func");
        },
        TokenType::If => {
            reveal_strlit("If");
        },
        TokenType::In => {
            reveal_strlit("In");
        },
        TokenType::Let => {
            reveal_strlit("Let");
        },
        TokenType::Of => {
            reveal_strlit("Of");
        },
        TokenType::Proc => {
            reveal_strlit("Proc");
        },
        TokenType::Record => {
            reveal_strlit("Record");
        },
        TokenType::Then => {
            reveal_strlit("Then");
        },
        TokenType::Type => {
            reveal_strlit("Type");
        },
        TokenType::Var => {
            reveal_strlit("Var");
        },
        TokenType::While => {
            reveal_strlit("While");
        },
        TokenType::Period => {
            reveal_strlit("Period");
        },
        TokenType::Colon => {
            reveal_strlit("Colon");
        },
        TokenType::Semicolon => {
            reveal_strlit("Semicolon");
        },
        TokenType::Comma => {
            reveal_strlit("Comma");
        },
        TokenType::Equals => {
            reveal_strlit("Equals");
        },
        TokenType::Tilde => {
            reveal_strlit("Tilde");
        },
        TokenType::LeftParen => {
            reveal_strlit("LeftParen");
        },
        TokenType::RightParen => {
            reveal_strlit("RightParen");
        },
        TokenType::LeftBracket => {
            reveal_strlit("LeftBracket");
        },
        TokenType::RightBracket => {
            reveal_strlit("RightBracket");
        },
        TokenType::LeftBrace => {
            reveal_strlit("LeftBrace");
        },
        TokenType::RightBrace => {
            reveal_strlit("RightBrace");
        },
        TokenType::Assign => {
            reveal_strlit("Assign");
        },
    }
}

/// The field that starts at `from` ends at `k`, if no comma stands before
/// `k` and a comma or the end of the line at `k`.
pub proof fn lemma_field_ends(s: Seq<char>, from: int, k: int)
    requires
        0 <= from <= k <= s.len(),
        forall|i: int| from <= i < k ==> s[i] != ',',
        k == s.len() || s[k] == ',',
    ensures
        field_end(s, from) == k,
    decreases k - from,
{
    if from < k {
        lemma_field_ends(s, from + 1, k);
    }
}

/// Nothing is taken off a text whose first and last characters stay.
pub proof fn lemma_strip_nothing(s: Seq<char>, trim: Trim)
    requires
        s.len() > 0 ==> !trim.takes(s.first()) && !trim.takes(s.last()),
    ensures
        strip(s, trim) == s,
{
}

/// Every character of `s` is taken off by `trim`.
pub open spec fn all_taken(s: Seq<char>, trim: Trim) -> bool {
    forall|i: int| 0 <= i < s.len() ==> trim.takes(#[trigger] s[i])
}

/// What is taken off the front of a text does not count.
proof fn lemma_strip_front_skips(front: Seq<char>, rest: Seq<char>, trim: Trim)
    requires
        all_taken(front, trim),
    ensures
        strip_front(front + rest, trim) == strip_front(rest, trim),
    decreases front.len(),
{
    if front.len() == 0 {
        assert(front + rest =~= rest);
    } else {
        assert((front + rest).drop_first() =~= front.drop_first() + rest);
        assert((front + rest)[0] == front[0]);
        lemma_strip_front_skips(front.drop_first(), rest, trim);
    }
}

/// What is taken off the back of a text does not count.
proof fn lemma_strip_back_skips(rest: Seq<char>, back: Seq<char>, trim: Trim)
    requires
        all_taken(back, trim),
    ensures
        strip_back(rest + back, trim) == strip_back(rest, trim),
    decreases back.len(),
{
    if back.len() == 0 {
        assert(rest + back =~= rest);
    } else {
        assert((rest + back).drop_last() =~= rest + back.drop_last());
        assert((rest + back).last() == back.last());
        lemma_strip_back_skips(rest, back.drop_last(), trim);
    }
}

/// A text that stays, wrapped in characters that are taken off, is what is
/// left of the whole.
pub proof fn lemma_strip_wrapped(front: Seq<char>, core: Seq<char>, back: Seq<char>, trim: Trim)
    requires
        all_taken(front, trim),
        all_taken(back, trim),
        core.len() > 0 ==> !trim.takes(core.first()) && !trim.takes(core.last()),
    ensures
        strip(front + core + back, trim) == core,
{
    assert(front + core + back =~= front + (core + back));
    lemma_strip_front_skips(front, core + back, trim);
    if core.len() == 0 {
        assert(core + back =~= back + core);
        lemma_strip_front_skips(back, core, trim);
    } else {
        assert((core + back)[0] == core[0]);
        lemma_strip_back_skips(core, back, trim);
    }
}

/// A text that a line keeps: it holds no comma, and no quote at either end.
pub open spec fn kept_by_a_line(lexeme: Seq<char>) -> bool {
    &&& forall|i: int| 0 <= i < lexeme.len() ==> lexeme[i] != ','
    &&& lexeme.len() > 0 ==> lexeme.first() != '\'' && lexeme.last() != '\''
}

/// Reading the line of a token gives the token back, if a line keeps its
/// text.
pub proof fn lemma_line_reads_back(t: TokenView)
    requires
        kept_by_a_line(t.lexeme),
    ensures
        token_of_line(line_of(t)) == Ok::<_, ReadErrorView>(Some(t)),
{
    let name = t.token_type.name();
    let row = decimal(t.row as nat);
    let col = decimal(t.col as nat);
    let quoted = seq!['\''] + t.lexeme + seq!['\''];
    let spaced = seq![' '] + col;
    let f0 = seq!['{'] + name;
    let f1 = seq![' '] + quoted;
    let f2 = seq![' '] + row;
    let f3 = spaced + seq!['}'];
    let s = line_of(t);
    let c0 = f0.len() as int;
    let c1 = c0 + 1 + f1.len();
    let c2 = c1 + 1 + f2.len();
    lemma_name_is_letters(t.token_type);
    lemma_name_names_kind(t.token_type);
    lemma_decimal_digits(t.row as nat);
    lemma_decimal_digits(t.col as nat);
    lemma_decimal_reads_back(t.row as nat, usize::MAX as nat);
    lemma_decimal_reads_back(t.col as nat, usize::MAX as nat);
    assert(s =~= f0 + seq![','] + f1 + seq![','] + f2 + seq![','] + f3);
    assert(s.len() == c2 + 1 + f3.len());
    assert forall|i: int| 0 <= i < c0 implies s[i] != ',' by {
        if i > 0 {
            assert(s[i] == name[i - 1]);
        }
    }
    assert forall|i: int| c0 + 1 <= i < c1 implies s[i] != ',' by {
        assert(s[i] == f1[i - c0 - 1]);
        if i - c0 - 1 >= 2 && i - c0 - 1 < 2 + t.lexeme.len() {
            assert(f1[i - c0 - 1] == t.lexeme[i - c0 - 3]);
        }
    }
    assert forall|i: int| c1 + 1 <= i < c2 implies s[i] != ',' by {
        assert(s[i] == f2[i - c1 - 1]);
        if i - c1 - 1 >= 1 {
            assert(f2[i - c1 - 1] == row[i - c1 - 2]);
        }
    }
    assert forall|i: int| c2 + 1 <= i < s.len() implies s[i] != ',' by {
        assert(s[i] == f3[i - c2 - 1]);
        if 1 <= i - c2 - 1 < 1 + col.len() {
            assert(f3[i - c2 - 1] == col[i - c2 - 2]);
        }
    }
    lemma_field_ends(s, 0, c0);
    lemma_field_ends(s, c0 + 1, c1);
    lemma_field_ends(s, c1 + 1, c2);
    lemma_field_ends(s, c2 + 1, s.len() as int);
    reveal_with_fuel(field_start, 4);
    assert(field_start(s, 1) == c0 + 1);
    assert(field_start(s, 2) == c1 + 1);
    assert(field_start(s, 3) == c2 + 1);
    assert(field(s, 0) =~= f0);
    assert(field(s, 1) =~= f1);
    assert(field(s, 2) =~= f2);
    assert(field(s, 3) =~= f3);
    let none = Seq::<char>::empty();
    assert(f0 =~= seq!['{'] + name + none);
    lemma_strip_wrapped(seq!['{'], name, none, Trim::Mark('{'));
    lemma_strip_nothing(name, Trim::Blanks);
    assert(f1 =~= seq![' '] + quoted + none);
    lemma_strip_wrapped(seq![' '], quoted, none, Trim::Blanks);
    lemma_strip_wrapped(seq!['\''], t.lexeme, seq!['\''], Trim::Mark('\''));
    assert(f2 =~= seq![' '] + row + none);
    lemma_strip_wrapped(seq![' '], row, none, Trim::Blanks);
    assert(f3 =~= none + spaced + seq!['}']);
    lemma_strip_wrapped(none, spaced, seq!['}'], Trim::Mark('}'));
    assert(spaced =~= seq![' '] + col + none);
    lemma_strip_wrapped(seq![' '], col, none, Trim::Blanks);
}

} // verus!
