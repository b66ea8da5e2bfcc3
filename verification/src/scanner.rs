//! The executable scanner: per-category sub-scanners and the scan loop,
//! each proved against the model in [`crate::model`].

use vstd::prelude::*;
use vstd::string::StrSliceExecFns;
use vstd::string::StringExecFns;

use crate::model::digit_run_end;
use crate::model::ident_kind;
use crate::model::ident_run_end;
use crate::model::is_digit_char;
use crate::model::is_ident_continue_char;
use crate::model::is_ident_start_char;
use crate::model::is_space_char;
use crate::model::lemma_token_at_len;
use crate::model::number_end;
use crate::model::prepend_tokens;
use crate::model::scan_from;
use crate::model::symbol_token_at;
use crate::model::token_at;
use crate::token::LexError;
use crate::token::SpecError;
use crate::token::SpecToken;
use crate::token::Token;
use crate::token::TokenTypes;

verus! {

/// Relies on String::push: appends the given character to the end of the
/// string.
#[verifier::external_body]
fn push_char(s: &mut String, c: char)
    ensures
        final(s)@ == old(s)@.push(c),
{
    s.push(c);
}

/// Copies the characters of `source` in positions `start..end` into an
/// owned string.
fn chars_to_string(source: &Vec<char>, start: usize, end: usize) -> (r: String)
    requires
        start <= end <= source@.len(),
    ensures
        r@ == source@.subrange(start as int, end as int),
{
    let mut r = String::new();
    proof {
        assert(r@ =~= source@.subrange(start as int, start as int));
    }
    let mut j = start;
    while j < end
        invariant
            start <= j <= end <= source@.len(),
            r@ == source@.subrange(start as int, j as int),
        decreases end - j,
    {
        push_char(&mut r, source[j]);
        proof {
            assert(source@.subrange(start as int, j as int).push(source@[j as int]) =~= source@
                .subrange(start as int, j as int + 1));
        }
        j += 1;
    }
    r
}

/// Decides whether `c` is insignificant whitespace (space, carriage return,
/// horizontal tab). A newline is not whitespace in this sense: it advances
/// the line counter.
pub fn is_whitespace(c: char) -> (r: bool)
    ensures
        r == is_space_char(c),
{
    c == ' ' || c == '\r' || c == '\t'
}

/// Decides whether `c` is an ASCII decimal digit.
fn char_is_digit(c: char) -> (r: bool)
    ensures
        r == is_digit_char(c),
{
    let u: u32 = c as u32;
    ('0' as u32) <= u && u <= ('9' as u32)
}

/// Decides whether `c` may begin an identifier or keyword lexeme.
fn char_is_ident_start(c: char) -> (r: bool)
    ensures
        r == is_ident_start_char(c),
{
    let u: u32 = c as u32;
    (('a' as u32) <= u && u <= ('z' as u32)) || (('A' as u32) <= u && u <= ('Z' as u32)) || c == '_'
}

/// Decides whether `c` may continue an identifier or keyword lexeme.
fn char_is_ident_continue(c: char) -> (r: bool)
    ensures
        r == is_ident_continue_char(c),
{
    char_is_ident_start(c) || char_is_digit(c)
}

/// Builds the one-character string holding exactly `c`.
fn one_char_string(c: char) -> (r: String)
    ensures
        r@ == seq![c],
{
    let mut r = String::new();
    push_char(&mut r, c);
    proof {
        assert(r@ =~= seq![c]);
    }
    r
}

/// Builds the two-character string holding exactly `a` then `b`.
fn two_char_string(a: char, b: char) -> (r: String)
    ensures
        r@ == seq![a, b],
{
    let mut r = String::new();
    push_char(&mut r, a);
    push_char(&mut r, b);
    proof {
        assert(r@ =~= seq![a, b]);
    }
    r
}

/// Scans the symbol or operator lexeme at `lexeme_start`: a one-character
/// punctuation token, or one of `! = > <` combined with an immediately
/// following `=` into its two-character form. Any other character is a
/// lexical error and is returned in `Err`.
pub fn scan_symbol(source: &Vec<char>, lexeme_start: usize) -> (r: Result<
    (String, TokenTypes),
    char,
>)
    requires
        lexeme_start < source@.len(),
    ensures
        match r {
            Ok(t) => symbol_token_at(source@, lexeme_start as int) == Some((t.0@, t.1)),
            Err(c) => symbol_token_at(source@, lexeme_start as int) is None && c
                == source@[lexeme_start as int],
        },
{
    let c = source[lexeme_start];
    let next_char_is_equal = if lexeme_start < source.len() - 1 {
        source[lexeme_start + 1] == '='
    } else {
        false
    };
    match c {
        '-' => Ok((one_char_string(c), TokenTypes::Minus)),
        '+' => Ok((one_char_string(c), TokenTypes::Plus)),
        ';' => Ok((one_char_string(c), TokenTypes::Semicolon)),
        '*' => Ok((one_char_string(c), TokenTypes::Star)),
        '(' => Ok((one_char_string(c), TokenTypes::LeftParen)),
        ')' => Ok((one_char_string(c), TokenTypes::RightParen)),
        '!' => if next_char_is_equal {
            Ok((two_char_string(c, '='), TokenTypes::BangEqual))
        } else {
            Ok((one_char_string(c), TokenTypes::Bang))
        },
        '=' => if next_char_is_equal {
            Ok((two_char_string(c, '='), TokenTypes::EqualEqual))
        } else {
            Ok((one_char_string(c), TokenTypes::Equal))
        },
        '>' => if next_char_is_equal {
            Ok((two_char_string(c, '='), TokenTypes::GreaterEqual))
        } else {
            Ok((one_char_string(c), TokenTypes::Greater))
        },
        '<' => if next_char_is_equal {
            Ok((two_char_string(c, '='), TokenTypes::LessEqual))
        } else {
            Ok((one_char_string(c), TokenTypes::Less))
        },
        _ => Err(c),
    }
}

/// Scans the numeric literal at `lexeme_start`: the maximal run of ASCII
/// digits, extended past a single `.` by a further (possibly empty) digit
/// run. The caller guarantees that a digit stands at `lexeme_start`, so
/// this sub-scanner always succeeds.
pub fn scan_number(source: &Vec<char>, lexeme_start: usize) -> (r: (String, TokenTypes))
    requires
        lexeme_start < source@.len(),
        is_digit_char(source@[lexeme_start as int]),
    ensures
        r.0@ == source@.subrange(
            lexeme_start as int,
            number_end(source@, lexeme_start as int),
        ),
        r.1 == TokenTypes::Number,
{
    let ghost s = source@;
    let mut j = lexeme_start;
    while j < source.len() && char_is_digit(source[j])
        invariant
            lexeme_start <= j <= s.len(),
            s == source@,
            digit_run_end(s, j as int) == digit_run_end(s, lexeme_start as int),
        decreases s.len() - j,
    {
        j += 1;
    }
    let mut end = j;
    proof {
        assert(end == digit_run_end(s, lexeme_start as int));
    }
    if end < source.len() && source[end] == '.' {
        let mut k = end + 1;
        while k < source.len() && char_is_digit(source[k])
            invariant
                end + 1 <= k <= s.len(),
                s == source@,
                digit_run_end(s, k as int) == digit_run_end(s, end as int + 1),
            decreases s.len() - k,
        {
            k += 1;
        }
        end = k;
    }
    proof {
        assert(end == number_end(s, lexeme_start as int));
    }
    (chars_to_string(source, lexeme_start, end), TokenTypes::Number)
}

/// Scans the identifier or keyword lexeme at `lexeme_start`: the maximal
/// run of ASCII alphabetic characters, digits and underscores, classified
/// against the keyword table. The caller guarantees that an alphabetic
/// character or underscore stands at `lexeme_start`, so this sub-scanner
/// always succeeds.
pub fn scan_alphabetic(source: &Vec<char>, lexeme_start: usize) -> (r: (String, TokenTypes))
    requires
        lexeme_start < source@.len(),
        is_ident_start_char(source@[lexeme_start as int]),
    ensures
        r.0@ == source@.subrange(
            lexeme_start as int,
            ident_run_end(source@, lexeme_start as int),
        ),
        r.1 == ident_kind(r.0@),
{
    let ghost s = source@;
    let mut j = lexeme_start;
    while j < source.len() && char_is_ident_continue(source[j])
        invariant
            lexeme_start <= j <= s.len(),
            s == source@,
            ident_run_end(s, j as int) == ident_run_end(s, lexeme_start as int),
        decreases s.len() - j,
    {
        j += 1;
    }
    proof {
        assert(j == ident_run_end(s, lexeme_start as int));
    }
    let lexeme = chars_to_string(source, lexeme_start, j);
    let kw_let = String::from_str("let");
    let kw_print = String::from_str("print");
    let token_type = if lexeme == kw_let {
        TokenTypes::Let
    } else if lexeme == kw_print {
        TokenTypes::Print
    } else {
        TokenTypes::Identifier
    };
    (lexeme, token_type)
}

/// Scans the lexeme at `lexeme_start`, dispatching on the class of its
/// first character: digit, identifier start, or symbol. A character that
/// begins no recognized lexeme is returned in `Err`.
pub fn scan_token(source: &Vec<char>, lexeme_start: usize) -> (r: Result<
    (String, TokenTypes),
    char,
>)
    requires
        lexeme_start < source@.len(),
    ensures
        match r {
            Ok(t) => token_at(source@, lexeme_start as int) == Some((t.0@, t.1)),
            Err(c) => token_at(source@, lexeme_start as int) is None && c
                == source@[lexeme_start as int],
        },
{
    let start_char = source[lexeme_start];
    if char_is_digit(start_char) {
        Ok(scan_number(source, lexeme_start))
    } else if char_is_ident_start(start_char) {
        Ok(scan_alphabetic(source, lexeme_start))
    } else {
        scan_symbol(source, lexeme_start)
    }
}

/// The views of a sequence of tokens, in order.
pub open spec fn views_of(tokens: Seq<Token>) -> Seq<SpecToken> {
    tokens.map_values(|t: Token| t@)
}

/// Scans the whole buffer left to right, producing the ordered token
/// sequence the model prescribes, or the first lexical error met, with the
/// offending character and its 1-based line.
pub fn scan_source(source: &Vec<char>) -> (r: Result<Vec<Token>, LexError>)
    requires
        source@.len() < usize::MAX,
    ensures
        match r {
            Ok(tokens) => scan_from(source@, 0, 1) == Ok::<Seq<SpecToken>, SpecError>(
                views_of(tokens@),
            ),
            Err(e) => scan_from(source@, 0, 1) == Err::<Seq<SpecToken>, SpecError>(e@),
        },
{
    let ghost s = source@;
    let mut tokens: Vec<Token> = Vec::new();
    let mut line: usize = 1;
    let mut i: usize = 0;
    proof {
        assert(views_of(tokens@) =~= Seq::<SpecToken>::empty());
    }
    while i < source.len()
        invariant
            i <= s.len(),
            s == source@,
            s.len() < usize::MAX,
            1 <= line,
            line <= 1 + i,
            scan_from(s, 0, 1) == prepend_tokens(
                views_of(tokens@),
                scan_from(s, i as int, line as nat),
            ),
        decreases s.len() - i,
    {
        let current = source[i];
        if current == '\n' {
            line += 1;
            i += 1;
        } else if is_whitespace(current) {
            i += 1;
        } else {
            match scan_token(source, i) {
                Err(ch) => {
                    proof {
                        assert(scan_from(s, i as int, line as nat) == Err::<
                            Seq<SpecToken>,
                            SpecError,
                        >((SpecError { line: line as nat, ch })));
                    }
                    return Err(LexError { line, ch });
                },
                Ok((lexeme, token_type)) => {
                    proof {
                        lemma_token_at_len(s, i as int);
                    }
                    let lexeme_len = lexeme.as_str().unicode_len();
                    let ghost t = (SpecToken {
                        lexeme: lexeme@,
                        kind: token_type,
                        line: line as nat,
                    });
                    let ghost rest = scan_from(s, i as int + lexeme_len as int, line as nat);
                    let ghost prev = tokens@;
                    proof {
                        assert(scan_from(s, i as int, line as nat) == prepend_tokens(
                            seq![t],
                            rest,
                        ));
                        lemma_prepend_one(views_of(prev), t, rest);
                    }
                    let token = Token { lexeme, token_type, line };
                    tokens.push(token);
                    proof {
                        assert(views_of(tokens@) =~= views_of(prev).push(t));
                    }
                    i += lexeme_len;
                },
            }
        }
    }
    proof {
        assert(views_of(tokens@) + Seq::<SpecToken>::empty() =~= views_of(tokens@));
    }
    Ok(tokens)
}

/// Prepending the tokens of `ts` one group at a time is the same as
/// prepending them at once: pushing `t` onto `ts` and prepending commutes
/// with prepending `ts` after `t`.
proof fn lemma_prepend_one(
    ts: Seq<SpecToken>,
    t: SpecToken,
    r: Result<Seq<SpecToken>, SpecError>,
)
    ensures
        prepend_tokens(ts.push(t), r) == prepend_tokens(ts, prepend_tokens(seq![t], r)),
{
    match r {
        Ok(rest) => {
            assert(ts.push(t) + rest =~= ts + (seq![t] + rest));
        },
        Err(_) => {},
    }
}

} // verus!
