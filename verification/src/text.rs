//! Character classes and conversions between strings and character vectors.
//!
//! Which characters beyond ASCII are letters or blanks is what the standard
//! library says of them; the library asks it and proves nothing about the
//! answer. Within ASCII the classes are defined here.

use vstd::prelude::*;

verus! {

/// Whether Unicode counts `c` as alphabetic, as the standard library's
/// `char::is_alphabetic` decides it.
pub uninterp spec fn unicode_alphabetic(c: char) -> bool;

/// Whether Unicode counts `c` as white space, as the standard library's
/// `char::is_whitespace` decides it.
pub uninterp spec fn unicode_whitespace(c: char) -> bool;

/// Calls `char::is_alphabetic`. The answer depends on the character alone;
/// nothing more is claimed about which characters are alphabetic.
#[verifier::external_body]
fn alphabetic(c: char) -> (r: bool)
    ensures
        r == unicode_alphabetic(c),
{
    c.is_alphabetic()
}

/// Calls `char::is_whitespace`. The answer depends on the character alone;
/// nothing more is claimed about which characters are white space.
#[verifier::external_body]
fn whitespace(c: char) -> (r: bool)
    ensures
        r == unicode_whitespace(c),
{
    c.is_whitespace()
}

/// Collects a slice of characters into a `String` with `Iterator::collect`.
/// The string holds exactly the characters of the slice, in order.
#[verifier::external_body]
pub(crate) fn string_of(chars: &[char]) -> (s: String)
    ensures
        s@ == chars@,
{
    chars.iter().collect()
}

/// A letter: within ASCII `a` to `z` and `A` to `Z`, beyond ASCII every
/// character that Unicode calls alphabetic.
pub open spec fn is_letter_char(c: char) -> bool {
    if c <= '\x7f' {
        ('a' <= c && c <= 'z') || ('A' <= c && c <= 'Z')
    } else {
        unicode_alphabetic(c)
    }
}

/// A blank: within ASCII the space and the five controls from tab to
/// carriage return, beyond ASCII every character that Unicode calls white
/// space.
pub open spec fn is_blank_char(c: char) -> bool {
    if c <= '\x7f' {
        c == ' ' || ('\t' <= c && c <= '\r')
    } else {
        unicode_whitespace(c)
    }
}

/// A decimal digit, `0` to `9`.
pub open spec fn is_digit_char(c: char) -> bool {
    '0' <= c && c <= '9'
}

/// A character of the operator alphabet: `+ - * / = < > & @ % ^ ? \`.
pub open spec fn is_operator_symbol(c: char) -> bool {
    c == '+' || c == '-' || c == '*' || c == '/' || c == '=' || c == '<' || c == '>' || c == '&'
        || c == '@' || c == '%' || c == '^' || c == '?' || c == '\\'
}

/// Whether `ch` is a letter.
pub fn is_letter(ch: char) -> (r: bool)
    ensures
        r == is_letter_char(ch),
{
    if ch <= '\x7f' {
        ('a' <= ch && ch <= 'z') || ('A' <= ch && ch <= 'Z')
    } else {
        alphabetic(ch)
    }
}

/// Whether `ch` is a blank.
pub fn is_blank(ch: char) -> (r: bool)
    ensures
        r == is_blank_char(ch),
{
    if ch <= '\x7f' {
        ch == ' ' || ('\t' <= ch && ch <= '\r')
    } else {
        whitespace(ch)
    }
}

/// Whether `ch` is a decimal digit.
pub fn is_digit(ch: char) -> (r: bool)
    ensures
        r == is_digit_char(ch),
{
    '0' <= ch && ch <= '9'
}

/// Whether `ch` is a character of the operator alphabet.
pub fn is_operator_char(ch: char) -> (r: bool)
    ensures
        r == is_operator_symbol(ch),
{
    ch == '+' || ch == '-' || ch == '*' || ch == '/' || ch == '=' || ch == '<' || ch == '>' || ch
        == '&' || ch == '@' || ch == '%' || ch == '^' || ch == '?' || ch == '\\'
}

/// The characters of a string, in order.
pub fn chars_of(s: &str) -> (v: Vec<char>)
    ensures
        v@ == s@,
{
    let mut v: Vec<char> = Vec::new();
    for c in it: s.chars()
        invariant
            it.seq() == s@,
            v@ == it.seq().take(it.index() as int),
    {
        v.push(c);
    }
    v
}

/// Whether the characters of `chars` spell `word`.
pub fn spells(chars: &[char], word: &str) -> (r: bool)
    ensures
        r == (chars@ == word@),
{
    let n = word.unicode_len();
    if chars.len() != n {
        return false;
    }
    let mut i: usize = 0;
    while i < n
        invariant
            i <= n,
            n == word@.len(),
            n == chars@.len(),
            forall|k: int| 0 <= k < i ==> chars@[k] == word@[k],
        decreases n - i,
    {
        if chars[i] != word.get_char(i) {
            return false;
        }
        i = i + 1;
    }
    proof {
        assert(chars@ =~= word@);
    }
    true
}

/// One of the five marks that set off lists in a printed tree:
/// `( ) , [ ]`.
pub open spec fn is_list_mark(c: char) -> bool {
    c == '(' || c == ')' || c == ',' || c == '[' || c == ']'
}

/// `s` without its list marks.
pub open spec fn without_list_marks(s: Seq<char>) -> Seq<char>
    decreases s.len(),
{
    if s.len() == 0 {
        s
    } else if is_list_mark(s.last()) {
        without_list_marks(s.drop_last())
    } else {
        without_list_marks(s.drop_last()).push(s.last())
    }
}

/// The text without its parentheses, brackets and commas.
pub fn remove_parentheses(input: &str) -> (r: String)
    ensures
        r@ == without_list_marks(input@),
{
    let chars = chars_of(input);
    let mut kept: Vec<char> = Vec::new();
    let mut i: usize = 0;
    proof {
        assert(chars@.take(0) =~= Seq::<char>::empty());
    }
    while i < chars.len()
        invariant
            i <= chars.len(),
            kept@ == without_list_marks(chars@.take(i as int)),
        decreases chars.len() - i,
    {
        let c = chars[i];
        proof {
            assert(chars@.take(i + 1).drop_last() =~= chars@.take(i as int));
            assert(chars@.take(i + 1).last() == c);
        }
        if !(c == '(' || c == ')' || c == ',' || c == '[' || c == ']') {
            kept.push(c);
        }
        i = i + 1;
    }
    proof {
        assert(chars@.take(i as int) =~= chars@);
    }
    string_of(kept.as_slice())
}

} // verus!
