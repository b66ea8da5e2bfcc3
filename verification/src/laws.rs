//! Laws of the scanner, proved once and for all against the model in
//! [`crate::model`].

use vstd::prelude::*;

use crate::model::ident_kind;
use crate::model::is_digit_char;
use crate::model::is_ident_continue_char;
use crate::model::is_ident_start_char;
use crate::model::is_pair_start_char;
use crate::model::is_plain_symbol_char;
use crate::model::is_space_char;
use crate::model::lemma_digit_run_end_exact;
use crate::model::lemma_ident_run_end_exact;
use crate::model::number_end;
use crate::model::one_char_symbol_kind;
use crate::model::paired_kind;
use crate::model::scan_from;
use crate::model::token_at;
use crate::token::SpecError;
use crate::token::SpecToken;
use crate::token::TokenTypes;

verus! {

proof fn lemma_blank_suffix_scans_empty(s: Seq<char>, i: int, line: nat)
    requires
        0 <= i <= s.len(),
        forall|k: int| i <= k < s.len() ==> is_space_char(#[trigger] s[k]) || s[k] == '\n',
    ensures
        scan_from(s, i, line) == Ok::<Seq<SpecToken>, SpecError>(Seq::empty()),
    decreases s.len() - i,
{
    if i < s.len() {
        if s[i] == '\n' {
            lemma_blank_suffix_scans_empty(s, i + 1, line + 1);
        } else {
            lemma_blank_suffix_scans_empty(s, i + 1, line);
        }
    }
}

/// An input consisting solely of whitespace and newlines scans to the empty
/// token sequence, without error.
pub proof fn lemma_blank_input_scans_empty(s: Seq<char>)
    requires
        forall|k: int| 0 <= k < s.len() ==> is_space_char(#[trigger] s[k]) || s[k] == '\n',
    ensures
        scan_from(s, 0, 1) == Ok::<Seq<SpecToken>, SpecError>(Seq::empty()),
{
    lemma_blank_suffix_scans_empty(s, 0, 1);
}

/// An input holding exactly one supported operator character (with no `=`
/// after it) scans to exactly one token of the corresponding one-character
/// kind, whose lexeme is that character, on line 1.
pub proof fn lemma_single_operator(c: char)
    requires
        is_plain_symbol_char(c) || is_pair_start_char(c),
    ensures
        scan_from(seq![c], 0, 1) == Ok::<Seq<SpecToken>, SpecError>(
            seq![(SpecToken { lexeme: seq![c], kind: one_char_symbol_kind(c), line: 1 })],
        ),
{
    let s = seq![c];
    let t = (SpecToken { lexeme: seq![c], kind: one_char_symbol_kind(c), line: 1 });
    assert(scan_from(s, 1, 1) == Ok::<Seq<SpecToken>, SpecError>(Seq::empty()));
    assert(token_at(s, 0) == Some((seq![c], one_char_symbol_kind(c))));
    assert(seq![t] + Seq::<SpecToken>::empty() =~= seq![t]);
}

/// An input holding one of `! = > <` immediately followed by `=` scans to
/// exactly one token of the corresponding two-character kind, consuming
/// both characters, on line 1.
pub proof fn lemma_paired_operator(c: char)
    requires
        is_pair_start_char(c),
    ensures
        scan_from(seq![c, '='], 0, 1) == Ok::<Seq<SpecToken>, SpecError>(
            seq![(SpecToken { lexeme: seq![c, '='], kind: paired_kind(c), line: 1 })],
        ),
{
    let s = seq![c, '='];
    let t = (SpecToken { lexeme: seq![c, '='], kind: paired_kind(c), line: 1 });
    assert(scan_from(s, 2, 1) == Ok::<Seq<SpecToken>, SpecError>(Seq::empty()));
    assert(token_at(s, 0) == Some((seq![c, '='], paired_kind(c))));
    assert(seq![t] + Seq::<SpecToken>::empty() =~= seq![t]);
}

/// Whether `d` splits `s` as the grammar `digit+ ('.' digit*)?` demands:
/// digits up to `d`, then either the end of the string or a dot followed by
/// digits only.
pub open spec fn number_split_at(s: Seq<char>, d: int) -> bool {
    1 <= d <= s.len() && (forall|k: int| 0 <= k < d ==> is_digit_char(#[trigger] s[k])) && (d
        == s.len() || (s[d] == '.' && forall|k: int|
        d < k < s.len() ==> is_digit_char(#[trigger] s[k])))
}

/// Whether `s` matches the numeric-literal grammar `digit+ ('.' digit*)?`.
pub open spec fn is_number_string(s: Seq<char>) -> bool {
    exists|d: int| #[trigger] number_split_at(s, d)
}

/// An input matching `digit+ ('.' digit*)?` scans to exactly one `Number`
/// token whose lexeme is the full input, on line 1.
pub proof fn lemma_number_string_scans_one_token(s: Seq<char>)
    requires
        is_number_string(s),
    ensures
        scan_from(s, 0, 1) == Ok::<Seq<SpecToken>, SpecError>(
            seq![(SpecToken { lexeme: s, kind: TokenTypes::Number, line: 1 })],
        ),
{
    let d = choose|d: int| #[trigger] number_split_at(s, d);
    lemma_digit_run_end_exact(s, 0, d);
    if d < s.len() {
        lemma_digit_run_end_exact(s, d + 1, s.len() as int);
    }
    assert(number_end(s, 0) == s.len());
    let t = (SpecToken { lexeme: s, kind: TokenTypes::Number, line: 1 });
    assert(s.subrange(0, s.len() as int) =~= s);
    assert(token_at(s, 0) == Some((s, TokenTypes::Number)));
    assert(scan_from(s, s.len() as int, 1) == Ok::<Seq<SpecToken>, SpecError>(Seq::empty()));
    assert(seq![t] + Seq::<SpecToken>::empty() =~= seq![t]);
}

/// Whether `s` matches the identifier grammar
/// `(alpha | '_') (alpha | digit | '_')*`.
pub open spec fn is_ident_string(s: Seq<char>) -> bool {
    s.len() >= 1 && is_ident_start_char(s[0]) && (forall|k: int|
        1 <= k < s.len() ==> is_ident_continue_char(#[trigger] s[k]))
}

/// An input matching `(alpha | '_') (alpha | digit | '_')*` scans to
/// exactly one token whose lexeme is the full input, on line 1: of kind
/// `Let` if the input is `let`, `Print` if it is `print`, and `Identifier`
/// otherwise.
pub proof fn lemma_ident_string_scans_one_token(s: Seq<char>)
    requires
        is_ident_string(s),
    ensures
        scan_from(s, 0, 1) == Ok::<Seq<SpecToken>, SpecError>(
            seq![(SpecToken { lexeme: s, kind: ident_kind(s), line: 1 })],
        ),
{
    lemma_ident_run_end_exact(s, 0, s.len() as int);
    let t = (SpecToken { lexeme: s, kind: ident_kind(s), line: 1 });
    assert(s.subrange(0, s.len() as int) =~= s);
    assert(token_at(s, 0) == Some((s, ident_kind(s))));
    assert(scan_from(s, s.len() as int, 1) == Ok::<Seq<SpecToken>, SpecError>(Seq::empty()));
    assert(seq![t] + Seq::<SpecToken>::empty() =~= seq![t]);
}

/// A newline advances the line counter and is otherwise skipped: scanning
/// on from a newline is scanning on from the next position with the line
/// counter one higher, whatever follows.
pub proof fn lemma_newline_increments_line(s: Seq<char>, i: int, line: nat)
    requires
        0 <= i < s.len(),
        s[i] == '\n',
    ensures
        scan_from(s, i, line) == scan_from(s, i + 1, line + 1),
{
}

/// A character that begins no recognized lexeme — not whitespace, not a
/// newline, not a digit, not alphabetic or an underscore, and not a
/// supported punctuation or operator character — stops the scan at once
/// with a lexical error naming that character and the current line.
pub proof fn lemma_unrecognized_char_errors(s: Seq<char>, i: int, line: nat)
    requires
        0 <= i < s.len(),
        !is_space_char(s[i]),
        s[i] != '\n',
        !is_digit_char(s[i]),
        !is_ident_start_char(s[i]),
        !is_plain_symbol_char(s[i]),
        !is_pair_start_char(s[i]),
    ensures
        scan_from(s, i, line) == Err::<Seq<SpecToken>, SpecError>(
            (SpecError { line, ch: s[i] }),
        ),
{
}

} // verus!
