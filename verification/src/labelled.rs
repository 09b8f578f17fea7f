//! The labelled line format for tokens,
//! `Token { Tipo: Kind, Lexema: 'text', Ln: line, Col: column }`, which is
//! found in a text by a regular expression.

use vstd::prelude::*;
use crate::interchange::push_text;
use crate::numbers::{decimal, parse_usize, push_decimal, unsigned_value};
use crate::text::string_of;
use crate::token::{Token, TokenView, kind_named, match_token, tokens_view};

verus! {

/// What the `regex` crate finds when it compiles `pattern` and searches
/// `text` for all matches that do not overlap: nothing if the pattern does
/// not compile; else, for every match in the order of the text, the texts of
/// its capture groups in the order of the pattern, the whole match first and
/// no text for a group that took no part in the match.
pub uninterp spec fn regex_captures(pattern: Seq<char>, text: Seq<char>) -> Option<
    Seq<Seq<Option<Seq<char>>>>,
>;

/// Compiles `pattern` with `regex::Regex::new` and collects what
/// `Regex::captures_iter` yields on `text`, each group of each match as the
/// text that `Match::as_str` gives for it. The result is what the crate
/// computes from the two texts; nothing is claimed about what it holds.
#[verifier::external_body]
fn all_captures(pattern: &str, text: &str) -> (r: Option<Vec<Vec<Option<String>>>>)
    ensures
        r.deep_view() == regex_captures(pattern@, text@),
{
    match regex::Regex::new(pattern) {
        Ok(re) => Some(
            re.captures_iter(text).map(
                |c| c.iter().map(|m| m.map(|g| g.as_str().to_string())).collect(),
            ).collect(),
        ),
        Err(_) => None,
    }
}

/// The pattern of one labelled line. Its groups are, in order, the kind,
/// the text, the line and the column.
pub const TOKEN_PATTERN: &'static str =
    r"Token\s*\{\s*Tipo:\s*(?P<tipo>\w+),\s*Lexema:\s*'(?P<lexema>.*?)',\s*Ln:\s*(?P<ln>\d+),\s*Col:\s*(?P<col>\d+)\s*\}";

/// Why the matches of the pattern are no tokens.
pub enum ExtractErrorView {
    /// The pattern did not compile.
    Pattern,
    /// A match lacks one of its four groups.
    Incomplete,
    /// The kind of a match names no token kind.
    NoFoundToken { found: Seq<char> },
}

/// Why the matches of the pattern are no tokens.
#[derive(Debug, PartialEq, Eq)]
pub enum ExtractError {
    /// The pattern did not compile.
    Pattern,
    /// A match lacks one of its four groups.
    Incomplete,
    /// The kind of a match names no token kind.
    NoFoundToken { found: String },
}

impl View for ExtractError {
    type V = ExtractErrorView;

    open spec fn view(&self) -> ExtractErrorView {
        match self {
            ExtractError::Pattern => ExtractErrorView::Pattern,
            ExtractError::Incomplete => ExtractErrorView::Incomplete,
            ExtractError::NoFoundToken { found } => ExtractErrorView::NoFoundToken {
                found: found@,
            },
        }
    }
}

/// The number that `text` denotes, 0 if it denotes none that fits.
pub open spec fn number_or_zero(text: Seq<char>) -> usize {
    match unsigned_value(text, usize::MAX as nat) {
        Some(v) => v as usize,
        None => 0,
    }
}

/// The token of one match: its kind named by group 1, its text group 2, its
/// line and column the numbers of groups 3 and 4, or 0 where a group is no
/// number that fits.
pub open spec fn token_of_groups(groups: Seq<Option<Seq<char>>>) -> Result<
    TokenView,
    ExtractErrorView,
> {
    if groups.len() < 5 || groups[1] is None || groups[2] is None || groups[3] is None
        || groups[4] is None {
        Err(ExtractErrorView::Incomplete)
    } else {
        match kind_named(groups[1].unwrap()) {
            None => Err(ExtractErrorView::NoFoundToken { found: groups[1].unwrap() }),
            Some(token_type) => Ok(
                TokenView {
                    token_type,
                    lexeme: groups[2].unwrap(),
                    row: number_or_zero(groups[3].unwrap()),
                    col: number_or_zero(groups[4].unwrap()),
                },
            ),
        }
    }
}

/// The tokens of a list of matches, in order, or the error of the first
/// match that has one.
pub open spec fn tokens_of_captures(captures: Seq<Seq<Option<Seq<char>>>>) -> Result<
    Seq<TokenView>,
    ExtractErrorView,
>
    decreases captures.len(),
{
    if captures.len() == 0 {
        Ok(Seq::empty())
    } else {
        match tokens_of_captures(captures.drop_last()) {
            Err(e) => Err(e),
            Ok(tokens) => match token_of_groups(captures.last()) {
                Err(e) => Err(e),
                Ok(token) => Ok(tokens.push(token)),
            },
        }
    }
}

/// The tokens that the matches of `pattern` in `text` spell.
pub open spec fn tokens_found(pattern: Seq<char>, text: Seq<char>) -> Result<
    Seq<TokenView>,
    ExtractErrorView,
> {
    match regex_captures(pattern, text) {
        None => Err(ExtractErrorView::Pattern),
        Some(captures) => tokens_of_captures(captures),
    }
}

/// The value of extracted tokens or of the error.
pub open spec fn extract_outcome(r: Result<Vec<Token>, ExtractError>) -> Result<
    Seq<TokenView>,
    ExtractErrorView,
> {
    match r {
        Ok(tokens) => Ok(tokens_view(tokens@)),
        Err(e) => Err(e@),
    }
}

/// The number that `text` denotes, 0 if it denotes none that fits.
fn parse_or_zero(text: &str) -> (n: usize)
    ensures
        n == number_or_zero(text@),
{
    match parse_usize(text) {
        Some(n) => n,
        None => 0,
    }
}

/// The token of one match.
fn token_from_groups(groups: &Vec<Option<String>>) -> (r: Result<Token, ExtractError>)
    ensures
        match r {
            Ok(token) => token_of_groups(groups.deep_view()) == Ok::<_, ExtractErrorView>(token@),
            Err(e) => token_of_groups(groups.deep_view()) == Err::<TokenView, _>(e@),
        },
{
    if groups.len() < 5 {
        return Err(ExtractError::Incomplete);
    }
    proof {
        assert(groups.deep_view().len() == groups.len());
        assert(groups.deep_view()[1] == groups[1].deep_view());
        assert(groups.deep_view()[2] == groups[2].deep_view());
        assert(groups.deep_view()[3] == groups[3].deep_view());
        assert(groups.deep_view()[4] == groups[4].deep_view());
    }
    match (&groups[1], &groups[2], &groups[3], &groups[4]) {
        (Some(kind), Some(lexeme), Some(row), Some(col)) => {
            match match_token(kind.as_str()) {
                Ok(token_type) => Ok(
                    Token::new(
                        token_type,
                        lexeme.clone(),
                        parse_or_zero(row.as_str()),
                        parse_or_zero(col.as_str()),
                    ),
                ),
                Err(e) => Err(ExtractError::NoFoundToken { found: e.found }),
            }
        },
        _ => Err(ExtractError::Incomplete),
    }
}

/// An error among the first `k` matches is the error of all the matches.
proof fn lemma_first_error(captures: Seq<Seq<Option<Seq<char>>>>, k: int)
    requires
        0 <= k <= captures.len(),
        tokens_of_captures(captures.take(k)) is Err,
    ensures
        tokens_of_captures(captures) == tokens_of_captures(captures.take(k)),
    decreases captures.len(),
{
    if k == captures.len() {
        assert(captures.take(k) =~= captures);
    } else {
        assert(captures.drop_last().take(k) =~= captures.take(k));
        lemma_first_error(captures.drop_last(), k);
    }
}

/// The tokens of the matches of [`TOKEN_PATTERN`]: one token for each
/// match, in order, or the error of the first match that is none.
pub fn tokens_from_captures(captures: &Vec<Vec<Option<String>>>) -> (r: Result<
    Vec<Token>,
    ExtractError,
>)
    ensures
        extract_outcome(r) == tokens_of_captures(captures.deep_view()),
{
    let mut tokens: Vec<Token> = Vec::new();
    let ghost all = captures.deep_view();
    let mut i: usize = 0;
    proof {
        assert(tokens_view(tokens@) =~= Seq::<TokenView>::empty());
        assert(all.take(0) =~= Seq::<Seq<Option<Seq<char>>>>::empty());
    }
    while i < captures.len()
        invariant
            i <= captures.len(),
            all == captures.deep_view(),
            all.len() == captures.len(),
            tokens_of_captures(all.take(i as int)) == Ok::<_, ExtractErrorView>(
                tokens_view(tokens@),
            ),
        decreases captures.len() - i,
    {
        let ghost sofar = tokens@;
        proof {
            assert(all.take(i + 1).drop_last() =~= all.take(i as int));
            assert(all.take(i + 1).last() == captures[i as int].deep_view());
        }
        match token_from_groups(&captures[i]) {
            Err(e) => {
                proof {
                    lemma_first_error(all, i + 1);
                }
                return Err(e);
            },
            Ok(token) => {
                tokens.push(token);
                proof {
                    assert(tokens_view(tokens@) =~= tokens_view(sofar).push(token@));
                }
            },
        }
        i = i + 1;
    }
    proof {
        assert(all.take(i as int) =~= all);
    }
    Ok(tokens)
}

/// Finds the matches of `pattern` in `content` and gives their tokens. The
/// pattern must have the four groups of [`TOKEN_PATTERN`], in its order.
pub fn extract_tokens_with(pattern: &str, content: &str) -> (r: Result<Vec<Token>, ExtractError>)
    ensures
        extract_outcome(r) == tokens_found(pattern@, content@),
{
    match all_captures(pattern, content) {
        None => Err(ExtractError::Pattern),
        Some(captures) => tokens_from_captures(&captures),
    }
}

/// Finds the labelled lines in `content` and gives their tokens.
pub fn extract_tokens(content: &str) -> (r: Result<Vec<Token>, ExtractError>)
    ensures
        extract_outcome(r) == tokens_found(TOKEN_PATTERN@, content@),
{
    extract_tokens_with(TOKEN_PATTERN, content)
}

/// The labelled line that stands for a token.
pub open spec fn labelled_line_of(t: TokenView) -> Seq<char> {
    "Token { Tipo: "@ + t.token_type.name() + ", Lexema: '"@ + t.lexeme + "', Ln: "@ + decimal(
        t.row as nat,
    ) + ", Col: "@ + decimal(t.col as nat) + " }"@
}

/// The labelled line that stands for `token`.
pub fn labelled_line(token: &Token) -> (line: String)
    ensures
        line@ == labelled_line_of(token@),
{
    let mut out: Vec<char> = Vec::new();
    push_text(&mut out, "Token { Tipo: ");
    push_text(&mut out, token.token_type.as_str());
    push_text(&mut out, ", Lexema: '");
    push_text(&mut out, token.lexeme.as_str());
    push_text(&mut out, "', Ln: ");
    push_decimal(&mut out, token.row);
    push_text(&mut out, ", Col: ");
    push_decimal(&mut out, token.col);
    push_text(&mut out, " }");
    proof {
        assert(out@ =~= labelled_line_of(token@));
    }
    string_of(out.as_slice())
}

} // verus!
