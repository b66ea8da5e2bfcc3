//! The mathematical model of scanning: character classes, maximal-run
//! endpoints, the lexeme recognized at a position, and the token sequence
//! produced from a whole buffer.

use vstd::prelude::*;

use crate::token::SpecError;
use crate::token::SpecToken;
use crate::token::TokenTypes;

verus! {

/// Insignificant whitespace: space, carriage return, horizontal tab.
/// A newline is handled separately because it advances the line counter.
pub open spec fn is_space_char(c: char) -> bool {
    c == ' ' || c == '\r' || c == '\t'
}

/// An ASCII decimal digit.
pub open spec fn is_digit_char(c: char) -> bool {
    ('0' as u32) <= (c as u32) && (c as u32) <= ('9' as u32)
}

/// An ASCII alphabetic character.
pub open spec fn is_alpha_char(c: char) -> bool {
    (('a' as u32) <= (c as u32) && (c as u32) <= ('z' as u32)) || (('A' as u32) <= (c as u32)
        && (c as u32) <= ('Z' as u32))
}

/// A character that may begin an identifier or keyword lexeme.
pub open spec fn is_ident_start_char(c: char) -> bool {
    is_alpha_char(c) || c == '_'
}

/// A character that may continue an identifier or keyword lexeme.
pub open spec fn is_ident_continue_char(c: char) -> bool {
    is_alpha_char(c) || is_digit_char(c) || c == '_'
}

/// A punctuation character that always forms a one-character token.
pub open spec fn is_plain_symbol_char(c: char) -> bool {
    c == '-' || c == '+' || c == ';' || c == '*' || c == '(' || c == ')'
}

/// An operator character that combines with an immediately following `=`
/// into a two-character token.
pub open spec fn is_pair_start_char(c: char) -> bool {
    c == '!' || c == '=' || c == '>' || c == '<'
}

/// The kind of the one-character token formed by a plain punctuation
/// character.
pub open spec fn plain_symbol_kind(c: char) -> TokenTypes
    recommends
        is_plain_symbol_char(c),
{
    if c == '-' {
        TokenTypes::Minus
    } else if c == '+' {
        TokenTypes::Plus
    } else if c == ';' {
        TokenTypes::Semicolon
    } else if c == '*' {
        TokenTypes::Star
    } else if c == '(' {
        TokenTypes::LeftParen
    } else {
        TokenTypes::RightParen
    }
}

/// The kind of the one-character token formed by `!`, `=`, `>` or `<` when
/// no `=` follows.
pub open spec fn lone_pair_start_kind(c: char) -> TokenTypes
    recommends
        is_pair_start_char(c),
{
    if c == '!' {
        TokenTypes::Bang
    } else if c == '=' {
        TokenTypes::Equal
    } else if c == '>' {
        TokenTypes::Greater
    } else {
        TokenTypes::Less
    }
}

/// The kind of the two-character token formed by `!`, `=`, `>` or `<`
/// combined with an immediately following `=`.
pub open spec fn paired_kind(c: char) -> TokenTypes
    recommends
        is_pair_start_char(c),
{
    if c == '!' {
        TokenTypes::BangEqual
    } else if c == '=' {
        TokenTypes::EqualEqual
    } else if c == '>' {
        TokenTypes::GreaterEqual
    } else {
        TokenTypes::LessEqual
    }
}

/// The kind of the one-character token formed at a symbol position when the
/// following character is not `=` (or there is none): either a plain
/// punctuation kind or the lone form of a pairable operator.
pub open spec fn one_char_symbol_kind(c: char) -> TokenTypes
    recommends
        is_plain_symbol_char(c) || is_pair_start_char(c),
{
    if is_plain_symbol_char(c) {
        plain_symbol_kind(c)
    } else {
        lone_pair_start_kind(c)
    }
}

/// The symbol or operator lexeme recognized at position `i`, or `None` if
/// the character there is not a recognized punctuation or operator
/// character.
pub open spec fn symbol_token_at(s: Seq<char>, i: int) -> Option<(Seq<char>, TokenTypes)>
    recommends
        0 <= i < s.len(),
{
    let c = s[i];
    if is_plain_symbol_char(c) {
        Some((seq![c], plain_symbol_kind(c)))
    } else if is_pair_start_char(c) {
        if i + 1 < s.len() && s[i + 1] == '=' {
            Some((seq![c, '='], paired_kind(c)))
        } else {
            Some((seq![c], lone_pair_start_kind(c)))
        }
    } else {
        None
    }
}

/// The first position at or after `i` that does not hold an ASCII digit
/// (the end of the maximal digit run starting at `i`).
pub open spec fn digit_run_end(s: Seq<char>, i: int) -> int
    recommends
        0 <= i <= s.len(),
    decreases s.len() - i,
    when i <= s.len()
{
    if i < s.len() && is_digit_char(s[i]) {
        digit_run_end(s, i + 1)
    } else {
        i
    }
}

/// The end of the numeric literal starting at `i`: the maximal digit run,
/// extended past a single `.` by a further (possibly empty) digit run.
pub open spec fn number_end(s: Seq<char>, i: int) -> int
    recommends
        0 <= i <= s.len(),
{
    let d = digit_run_end(s, i);
    if d < s.len() && s[d] == '.' {
        digit_run_end(s, d + 1)
    } else {
        d
    }
}

/// The first position at or after `i` that does not hold an identifier
/// character (the end of the maximal identifier run starting at `i`).
pub open spec fn ident_run_end(s: Seq<char>, i: int) -> int
    recommends
        0 <= i <= s.len(),
    decreases s.len() - i,
    when i <= s.len()
{
    if i < s.len() && is_ident_continue_char(s[i]) {
        ident_run_end(s, i + 1)
    } else {
        i
    }
}

/// The kind of an identifier-shaped lexeme: a keyword kind if it exactly
/// matches an entry of the keyword table, `Identifier` otherwise.
pub open spec fn ident_kind(lexeme: Seq<char>) -> TokenTypes {
    if lexeme == "let"@ {
        TokenTypes::Let
    } else if lexeme == "print"@ {
        TokenTypes::Print
    } else {
        TokenTypes::Identifier
    }
}

/// The lexeme beginning at position `i` together with its kind, or `None`
/// if the character at `i` cannot begin any recognized lexeme.
pub open spec fn token_at(s: Seq<char>, i: int) -> Option<(Seq<char>, TokenTypes)>
    recommends
        0 <= i < s.len(),
{
    if is_digit_char(s[i]) {
        Some((s.subrange(i, number_end(s, i)), TokenTypes::Number))
    } else if is_ident_start_char(s[i]) {
        Some((s.subrange(i, ident_run_end(s, i)), ident_kind(s.subrange(i, ident_run_end(s, i)))))
    } else {
        symbol_token_at(s, i)
    }
}

/// The digit run starting at `i` ends no earlier than `i` and no later than
/// the end of the buffer.
pub proof fn lemma_digit_run_end_bounds(s: Seq<char>, i: int)
    requires
        0 <= i <= s.len(),
    ensures
        i <= digit_run_end(s, i) <= s.len(),
    decreases s.len() - i,
{
    if i < s.len() && is_digit_char(s[i]) {
        lemma_digit_run_end_bounds(s, i + 1);
    }
}

/// A run of digits bounded by a non-digit (or the buffer's end) is maximal:
/// `digit_run_end` lands exactly on its bound.
pub proof fn lemma_digit_run_end_exact(s: Seq<char>, i: int, j: int)
    requires
        0 <= i <= j <= s.len(),
        forall|k: int| i <= k < j ==> is_digit_char(s[k]),
        j == s.len() || !is_digit_char(s[j]),
    ensures
        digit_run_end(s, i) == j,
    decreases j - i,
{
    if i < j {
        lemma_digit_run_end_exact(s, i + 1, j);
    }
}

/// The identifier run starting at `i` ends no earlier than `i` and no later
/// than the end of the buffer.
pub proof fn lemma_ident_run_end_bounds(s: Seq<char>, i: int)
    requires
        0 <= i <= s.len(),
    ensures
        i <= ident_run_end(s, i) <= s.len(),
    decreases s.len() - i,
{
    if i < s.len() && is_ident_continue_char(s[i]) {
        lemma_ident_run_end_bounds(s, i + 1);
    }
}

/// A run of identifier characters bounded by a non-identifier character (or
/// the buffer's end) is maximal: `ident_run_end` lands exactly on its bound.
pub proof fn lemma_ident_run_end_exact(s: Seq<char>, i: int, j: int)
    requires
        0 <= i <= j <= s.len(),
        forall|k: int| i <= k < j ==> is_ident_continue_char(s[k]),
        j == s.len() || !is_ident_continue_char(s[j]),
    ensures
        ident_run_end(s, i) == j,
    decreases j - i,
{
    if i < j {
        lemma_ident_run_end_exact(s, i + 1, j);
    }
}

/// The end of the numeric literal starting at a digit lies strictly past
/// the digit and within the buffer.
pub proof fn lemma_number_end_bounds(s: Seq<char>, i: int)
    requires
        0 <= i < s.len(),
        is_digit_char(s[i]),
    ensures
        i < number_end(s, i) <= s.len(),
{
    assert(digit_run_end(s, i) == digit_run_end(s, i + 1));
    lemma_digit_run_end_bounds(s, i + 1);
    let d = digit_run_end(s, i);
    if d < s.len() && s[d] == '.' {
        lemma_digit_run_end_bounds(s, d + 1);
    }
}

/// Every recognized lexeme is non-empty and lies within the buffer.
pub proof fn lemma_token_at_len(s: Seq<char>, i: int)
    requires
        0 <= i < s.len(),
        token_at(s, i) is Some,
    ensures
        1 <= token_at(s, i)->Some_0.0.len(),
        i + token_at(s, i)->Some_0.0.len() <= s.len(),
{
    if is_digit_char(s[i]) {
        lemma_number_end_bounds(s, i);
    } else if is_ident_start_char(s[i]) {
        assert(ident_run_end(s, i) == ident_run_end(s, i + 1));
        lemma_ident_run_end_bounds(s, i + 1);
    }
}

/// Prepends an already scanned token group to the outcome of scanning the
/// rest of the buffer: an error swallows everything scanned before it.
pub open spec fn prepend_tokens(ts: Seq<SpecToken>, r: Result<Seq<SpecToken>, SpecError>) -> Result<
    Seq<SpecToken>,
    SpecError,
> {
    match r {
        Ok(rest) => Ok(ts + rest),
        Err(e) => Err(e),
    }
}

/// The token sequence produced by scanning the buffer `s` from position `i`
/// with the line counter at `line`, or the first lexical error met.
pub open spec fn scan_from(s: Seq<char>, i: int, line: nat) -> Result<Seq<SpecToken>, SpecError>
    recommends
        0 <= i <= s.len(),
    decreases s.len() - i,
    when 0 <= i <= s.len()
    via scan_from_decreases
{
    if i >= s.len() {
        Ok(Seq::empty())
    } else if s[i] == '\n' {
        scan_from(s, i + 1, line + 1)
    } else if is_space_char(s[i]) {
        scan_from(s, i + 1, line)
    } else {
        match token_at(s, i) {
            Some(t) => match scan_from(s, i + t.0.len(), line) {
                Ok(rest) => Ok(seq![(SpecToken { lexeme: t.0, kind: t.1, line })] + rest),
                Err(e) => Err(e),
            },
            None => Err(SpecError { line, ch: s[i] }),
        }
    }
}

#[via_fn]
proof fn scan_from_decreases(s: Seq<char>, i: int, line: nat) {
    if 0 <= i < s.len() && s[i] != '\n' && !is_space_char(s[i]) && token_at(s, i) is Some {
        lemma_token_at_len(s, i);
    }
}

} // verus!
