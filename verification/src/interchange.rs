//! The line format in which tokens are handed from the lexer to the parser:
//! one token a line, `{Kind, 'text', line, column}`.

use vstd::prelude::*;
use vstd::slice::slice_subrange;
use crate::numbers::{decimal, parse_usize, push_decimal, unsigned_value};
use crate::text::{chars_of, is_blank, is_blank_char, string_of};
use crate::token::{Token, TokenView, kind_named, match_token, tokens_view};

verus! {

/// The line that stands for a token.
pub open spec fn line_of(t: TokenView) -> Seq<char> {
    seq!['{'] + t.token_type.name() + seq![',', ' ', '\''] + t.lexeme + seq!['\'', ',', ' ']
        + decimal(t.row as nat) + seq![',', ' '] + decimal(t.col as nat) + seq!['}']
}

/// What is taken off the two ends of a field.
#[derive(Clone, Copy)]
pub enum Trim {
    /// Blanks.
    Blanks,
    /// Every occurrence of one character.
    Mark(char),
}

impl Trim {
    /// Whether `c` is taken off.
    pub open spec fn takes(self, c: char) -> bool {
        match self {
            Trim::Blanks => is_blank_char(c),
            Trim::Mark(m) => c == m,
        }
    }
}

/// `s` without the characters that `trim` takes off its front.
pub open spec fn strip_front(s: Seq<char>, trim: Trim) -> Seq<char>
    decreases s.len(),
{
    if s.len() > 0 && trim.takes(s[0]) {
        strip_front(s.drop_first(), trim)
    } else {
        s
    }
}

/// `s` without the characters that `trim` takes off its back.
pub open spec fn strip_back(s: Seq<char>, trim: Trim) -> Seq<char>
    decreases s.len(),
{
    if s.len() > 0 && trim.takes(s.last()) {
        strip_back(s.drop_last(), trim)
    } else {
        s
    }
}

/// `s` without the characters that `trim` takes off its two ends.
pub open spec fn strip(s: Seq<char>, trim: Trim) -> Seq<char> {
    strip_back(strip_front(s, trim), trim)
}

/// The index of the first comma of `s` at or behind `from`, the length of
/// `s` if there is none.
pub open spec fn field_end(s: Seq<char>, from: int) -> int
    decreases s.len() - from,
{
    if from >= s.len() {
        s.len() as int
    } else if s[from] == ',' {
        from
    } else {
        field_end(s, from + 1)
    }
}

/// The index at which the field of number `k` starts, counted from 0: one
/// behind the comma that ends the field before it. Beyond the length of `s`
/// if there is no such field.
pub open spec fn field_start(s: Seq<char>, k: nat) -> int
    decreases k,
{
    if k == 0 {
        0
    } else {
        field_end(s, field_start(s, (k - 1) as nat)) + 1
    }
}

/// The field of number `k` of a line that has one.
pub open spec fn field(s: Seq<char>, k: nat) -> Seq<char> {
    s.subrange(field_start(s, k), field_end(s, field_start(s, k)))
}

/// Why a line that has four fields is no token.
pub enum ReadErrorView {
    /// The first field names no token kind.
    NoFoundToken { found: Seq<char> },
    /// The third field is no line number.
    InvalidRow,
    /// The fourth field is no column number.
    InvalidColumn,
}

/// What a line holds: nothing if it has fewer than four fields separated by
/// commas; else the token of its first four fields, or the reason why they
/// are none. The kind is the first field without `{` and blanks around it,
/// the text the second without blanks and quotes, the line the third
/// without blanks, the column the fourth without `}` and blanks. A bad line
/// number is reported before a bad column, and that before an unknown kind.
pub open spec fn token_of_line(s: Seq<char>) -> Result<Option<TokenView>, ReadErrorView> {
    if field_start(s, 3) > s.len() {
        Ok(None)
    } else {
        let kind_text = strip(strip(field(s, 0), Trim::Mark('{')), Trim::Blanks);
        let lexeme = strip(strip(field(s, 1), Trim::Blanks), Trim::Mark('\''));
        let row = unsigned_value(strip(field(s, 2), Trim::Blanks), usize::MAX as nat);
        let col = unsigned_value(
            strip(strip(field(s, 3), Trim::Mark('}')), Trim::Blanks),
            usize::MAX as nat,
        );
        if row is None {
            Err(ReadErrorView::InvalidRow)
        } else if col is None {
            Err(ReadErrorView::InvalidColumn)
        } else {
            match kind_named(kind_text) {
                None => Err(ReadErrorView::NoFoundToken { found: kind_text }),
                Some(token_type) => Ok(
                    Some(
                        TokenView {
                            token_type,
                            lexeme,
                            row: row.unwrap() as usize,
                            col: col.unwrap() as usize,
                        },
                    ),
                ),
            }
        }
    }
}

/// Why a line that has four fields is no token.
#[derive(Debug, PartialEq, Eq)]
pub enum ReadError {
    /// The first field names no token kind.
    NoFoundToken { found: String },
    /// The third field is no line number.
    InvalidRow,
    /// The fourth field is no column number.
    InvalidColumn,
}

impl View for ReadError {
    type V = ReadErrorView;

    open spec fn view(&self) -> ReadErrorView {
        match self {
            ReadError::NoFoundToken { found } => ReadErrorView::NoFoundToken { found: found@ },
            ReadError::InvalidRow => ReadErrorView::InvalidRow,
            ReadError::InvalidColumn => ReadErrorView::InvalidColumn,
        }
    }
}

/// The value of what was read from a line.
pub open spec fn line_outcome(r: Result<Option<Token>, ReadError>) -> Result<
    Option<TokenView>,
    ReadErrorView,
> {
    match r {
        Ok(Some(token)) => Ok(Some(token@)),
        Ok(None) => Ok(None),
        Err(e) => Err(e@),
    }
}

/// Appends the characters of `text` to `out`.
pub(crate) fn push_text(out: &mut Vec<char>, text: &str)
    ensures
        final(out)@ == old(out)@ + text@,
{
    let mut chars = chars_of(text);
    out.append(&mut chars);
}

/// The line that stands for `token`.
pub fn token_line(token: &Token) -> (line: String)
    ensures
        line@ == line_of(token@),
{
    let mut out: Vec<char> = Vec::new();
    out.push('{');
    push_text(&mut out, token.token_type.as_str());
    out.push(',');
    out.push(' ');
    out.push('\'');
    push_text(&mut out, token.lexeme.as_str());
    out.push('\'');
    out.push(',');
    out.push(' ');
    push_decimal(&mut out, token.row);
    out.push(',');
    out.push(' ');
    push_decimal(&mut out, token.col);
    out.push('}');
    proof {
        assert(out@ =~= line_of(token@));
    }
    string_of(out.as_slice())
}

/// The index of the first comma at or behind `from`.
fn find_field_end(chars: &Vec<char>, from: usize) -> (end: usize)
    requires
        from <= chars.len(),
    ensures
        end == field_end(chars@, from as int),
        from <= end <= chars.len(),
{
    let mut i = from;
    while i < chars.len() && chars[i] != ','
        invariant
            from <= i <= chars.len(),
            field_end(chars@, i as int) == field_end(chars@, from as int),
        decreases chars.len() - i,
    {
        i = i + 1;
    }
    i
}

/// The bounds of `chars[lo..hi]` without what `trim` takes off its ends.
fn trim_range(chars: &Vec<char>, lo: usize, hi: usize, trim: Trim) -> (r: (usize, usize))
    requires
        lo <= hi <= chars.len(),
    ensures
        lo <= r.0 <= r.1 <= hi,
        chars@.subrange(r.0 as int, r.1 as int) == strip(
            chars@.subrange(lo as int, hi as int),
            trim,
        ),
{
    let mut front = lo;
    loop
        invariant_except_break
            lo <= front <= hi <= chars.len(),
            strip_front(chars@.subrange(front as int, hi as int), trim) == strip_front(
                chars@.subrange(lo as int, hi as int),
                trim,
            ),
        ensures
            lo <= front <= hi <= chars.len(),
            chars@.subrange(front as int, hi as int) == strip_front(
                chars@.subrange(lo as int, hi as int),
                trim,
            ),
        decreases hi - front,
    {
        if front >= hi {
            break ;
        }
        let taken = match trim {
            Trim::Blanks => is_blank(chars[front]),
            Trim::Mark(m) => chars[front] == m,
        };
        if !taken {
            break ;
        }
        proof {
            assert(chars@.subrange(front as int, hi as int).drop_first() =~= chars@.subrange(
                front + 1,
                hi as int,
            ));
        }
        front = front + 1;
    }
    let mut back = hi;
    loop
        invariant_except_break
            front <= back <= hi <= chars.len(),
            strip_back(chars@.subrange(front as int, back as int), trim) == strip_back(
                chars@.subrange(front as int, hi as int),
                trim,
            ),
        ensures
            front <= back <= hi <= chars.len(),
            chars@.subrange(front as int, back as int) == strip_back(
                chars@.subrange(front as int, hi as int),
                trim,
            ),
        decreases back - front,
    {
        if back <= front {
            break ;
        }
        let taken = match trim {
            Trim::Blanks => is_blank(chars[back - 1]),
            Trim::Mark(m) => chars[back - 1] == m,
        };
        if !taken {
            break ;
        }
        proof {
            assert(chars@.subrange(front as int, back as int).drop_last() =~= chars@.subrange(
                front as int,
                back - 1,
            ));
        }
        back = back - 1;
    }
    (front, back)
}

/// The text `chars[lo..hi]`.
fn text_of(chars: &Vec<char>, lo: usize, hi: usize) -> (text: String)
    requires
        lo <= hi <= chars.len(),
    ensures
        text@ == chars@.subrange(lo as int, hi as int),
{
    string_of(slice_subrange(chars.as_slice(), lo, hi))
}

/// Reads one line: nothing if the line has fewer than four fields, else the
/// token that its first four fields spell, or the reason why they spell
/// none.
pub fn read_token_line(line: &str) -> (r: Result<Option<Token>, ReadError>)
    ensures
        line_outcome(r) == token_of_line(line@),
{
    proof {
        reveal_with_fuel(field_start, 4);
    }
    let chars = chars_of(line);
    let n = chars.len();
    let end0 = find_field_end(&chars, 0);
    if end0 >= n {
        return Ok(None);
    }
    let end1 = find_field_end(&chars, end0 + 1);
    if end1 >= n {
        return Ok(None);
    }
    let end2 = find_field_end(&chars, end1 + 1);
    if end2 >= n {
        return Ok(None);
    }
    let end3 = find_field_end(&chars, end2 + 1);
    let (k0, k1) = trim_range(&chars, 0, end0, Trim::Mark('{'));
    let (k2, k3) = trim_range(&chars, k0, k1, Trim::Blanks);
    let (l0, l1) = trim_range(&chars, end0 + 1, end1, Trim::Blanks);
    let (l2, l3) = trim_range(&chars, l0, l1, Trim::Mark('\''));
    let (r0, r1) = trim_range(&chars, end1 + 1, end2, Trim::Blanks);
    let (c0, c1) = trim_range(&chars, end2 + 1, end3, Trim::Mark('}'));
    let (c2, c3) = trim_range(&chars, c0, c1, Trim::Blanks);
    let kind_text = text_of(&chars, k2, k3);
    let lexeme = text_of(&chars, l2, l3);
    let row_text = text_of(&chars, r0, r1);
    let col_text = text_of(&chars, c2, c3);
    let row = match parse_usize(row_text.as_str()) {
        Some(row) => row,
        None => {
            return Err(ReadError::InvalidRow);
        },
    };
    let col = match parse_usize(col_text.as_str()) {
        Some(col) => col,
        None => {
            return Err(ReadError::InvalidColumn);
        },
    };
    match match_token(kind_text.as_str()) {
        Ok(token_type) => Ok(Some(Token::new(token_type, lexeme, row, col))),
        Err(e) => Err(ReadError::NoFoundToken { found: e.found }),
    }
}

/// The texts of a list of lines.
pub open spec fn lines_view(lines: Seq<String>) -> Seq<Seq<char>> {
    Seq::new(lines.len(), |i: int| lines[i]@)
}

/// The tokens of a list of lines, in order, without the lines that hold
/// none; or the error of the first line that has one.
pub open spec fn tokens_of_lines(lines: Seq<Seq<char>>) -> Result<Seq<TokenView>, ReadErrorView>
    decreases lines.len(),
{
    if lines.len() == 0 {
        Ok(Seq::empty())
    } else {
        match tokens_of_lines(lines.drop_last()) {
            Err(e) => Err(e),
            Ok(tokens) => match token_of_line(lines.last()) {
                Err(e) => Err(e),
                Ok(None) => Ok(tokens),
                Ok(Some(token)) => Ok(tokens.push(token)),
            },
        }
    }
}

/// Reads the lines of a token file.
pub fn read_tokens(lines: &Vec<String>) -> (r: Result<Vec<Token>, ReadError>)
    ensures
        match r {
            Ok(tokens) => tokens_of_lines(lines_view(lines@)) == Ok::<_, ReadErrorView>(
                tokens_view(tokens@),
            ),
            Err(e) => tokens_of_lines(lines_view(lines@)) == Err::<Seq<TokenView>, _>(e@),
        },
{
    let mut tokens: Vec<Token> = Vec::new();
    let ghost all = lines_view(lines@);
    let mut i: usize = 0;
    proof {
        assert(tokens_view(tokens@) =~= Seq::<TokenView>::empty());
        assert(all.take(0) =~= Seq::<Seq<char>>::empty());
    }
    while i < lines.len()
        invariant
            i <= lines.len(),
            all == lines_view(lines@),
            tokens_of_lines(all.take(i as int)) == Ok::<_, ReadErrorView>(tokens_view(tokens@)),
        decreases lines.len() - i,
    {
        let ghost sofar = tokens@;
        proof {
            assert(all.take(i + 1).drop_last() =~= all.take(i as int));
            assert(all.take(i + 1).last() == lines[i as int]@);
        }
        match read_token_line(lines[i].as_str()) {
            Err(e) => {
                proof {
                    lemma_first_error(all, i + 1);
                }
                return Err(e);
            },
            Ok(None) => {},
            Ok(Some(token)) => {
                tokens.push(token);
                proof {
                    assert(tokens_view(tokens@) =~= tokens_view(sofar).push(token@));
                }
            },
        }
        i = i + 1;
    }
    proof {
        assert(all.take(i as int) =~= all);
    }
    Ok(tokens)
}

/// An error among the first `k` lines is the error of all the lines.
proof fn lemma_first_error(lines: Seq<Seq<char>>, k: int)
    requires
        0 <= k <= lines.len(),
        tokens_of_lines(lines.take(k)) is Err,
    ensures
        tokens_of_lines(lines) == tokens_of_lines(lines.take(k)),
    decreases lines.len(),
{
    if k == lines.len() {
        assert(lines.take(k) =~= lines);
    } else {
        assert(lines.drop_last().take(k) =~= lines.take(k));
        lemma_first_error(lines.drop_last(), k);
    }
}

} // verus!
