//! Functional model of the scanning pass.
//!
//! `scan` describes, over a `Seq<char>`, exactly which tokens and diagnostics
//! one left-to-right pass produces and what the line counter is at the end.
//! The executable `Scanner` is verified to return precisely this model's
//! output, so every property of the scanner can be stated and proved here.
//!
//! Number recognition is deliberately ASCII: literals admit only the ten
//! decimal digits.  Identifiers are Unicode: they begin with an alphabetic
//! character or underscore and continue through alphanumeric characters and
//! underscores, with the two Unicode classes named by `unicode_alpha` and
//! `unicode_alnum` rather than spelled out.  Any other character outside
//! whitespace, punctuation and string quotes is reported as an unexpected
//! character and skipped.

use vstd::prelude::*;

use crate::tokens::{SpecDiagnostic, SpecToken, TokenType};

verus! {

// ---------------------------------------------------------------------------
// Small facts about sequence concatenation, used to stitch loop iterations
// together with the recursive pass below.
// ---------------------------------------------------------------------------

pub proof fn lemma_push_is_concat<A>(s: Seq<A>, x: A)
    ensures
        s.push(x) == s + seq![x],
{
    assert(s.push(x) =~= s + seq![x]);
}

pub proof fn lemma_concat_empty<A>(s: Seq<A>)
    ensures
        s + Seq::<A>::empty() == s,
        Seq::<A>::empty() + s == s,
{
    assert(s + Seq::<A>::empty() =~= s);
    assert(Seq::<A>::empty() + s =~= s);
}

pub proof fn lemma_concat_assoc<A>(a: Seq<A>, b: Seq<A>, c: Seq<A>)
    ensures
        (a + b) + c == a + (b + c),
{
    assert((a + b) + c =~= a + (b + c));
}

// ---------------------------------------------------------------------------
// Character classification
// ---------------------------------------------------------------------------

/// An ASCII decimal digit, the only digits number literals admit.
pub open spec fn is_digit(c: char) -> bool {
    ('0' as u32) <= (c as u32) && (c as u32) <= ('9' as u32)
}

/// Whether a character has Unicode's alphabetic property: the result of
/// `char::is_alphabetic`, named rather than spelled out because stating the
/// class outright would reproduce the Unicode tables.
pub uninterp spec fn unicode_alpha(c: char) -> bool;

/// Whether a character is alphanumeric in Unicode's sense (alphabetic or
/// numeric): the result of `char::is_alphanumeric`, named for the same
/// reason as `unicode_alpha`.
pub uninterp spec fn unicode_alnum(c: char) -> bool;

/// An alphabetic character or underscore: the characters that may begin an
/// identifier or reserved word.
pub open spec fn is_alpha(c: char) -> bool {
    unicode_alpha(c) || c == '_'
}

/// An alphanumeric character or underscore: the characters that may
/// continue an identifier or reserved word.
pub open spec fn is_ident_char(c: char) -> bool {
    unicode_alnum(c) || c == '_'
}

/// Punctuation recognized as a complete token from a single character,
/// with no lookahead.
pub open spec fn is_single_punct(c: char) -> bool {
    ||| c == '(' ||| c == ')' ||| c == '{' ||| c == '}' ||| c == ','
    ||| c == '.' ||| c == '-' ||| c == '+' ||| c == ';' ||| c == '*'
}

/// The kind a single-character punctuation token gets.
pub open spec fn punct_kind(c: char) -> TokenType
    recommends
        is_single_punct(c),
{
    if c == '(' {
        TokenType::LEFT_PAREN
    } else if c == ')' {
        TokenType::RIGHT_PAREN
    } else if c == '{' {
        TokenType::LEFT_BRACE
    } else if c == '}' {
        TokenType::RIGHT_BRACE
    } else if c == ',' {
        TokenType::COMMA
    } else if c == '.' {
        TokenType::DOT
    } else if c == '-' {
        TokenType::MINUS
    } else if c == '+' {
        TokenType::PLUS
    } else if c == ';' {
        TokenType::SEMICOLON
    } else {
        TokenType::STAR
    }
}

/// A character whose classification needs one character of lookahead for a
/// possible `=` suffix.
pub open spec fn is_lookahead_op(c: char) -> bool {
    c == '=' || c == '!' || c == '<' || c == '>'
}

/// The kind emitted when a lookahead operator is *not* followed by `=`.
pub open spec fn one_char_kind(c: char) -> TokenType
    recommends
        is_lookahead_op(c),
{
    if c == '=' {
        TokenType::EQUAL
    } else if c == '!' {
        TokenType::BANG
    } else if c == '<' {
        TokenType::LESS
    } else {
        TokenType::GREATER
    }
}

/// The kind emitted when a lookahead operator *is* followed by `=`.
pub open spec fn two_char_kind(c: char) -> TokenType
    recommends
        is_lookahead_op(c),
{
    if c == '=' {
        TokenType::EQUAL_EQUAL
    } else if c == '!' {
        TokenType::BANG_EQUAL
    } else if c == '<' {
        TokenType::LESS_EQUAL
    } else {
        TokenType::GREATER_EQUAL
    }
}

/// The reserved-word table: the kind an identifier-shaped lexeme receives.
/// Lookup is exact and case-sensitive; anything not listed is `IDENTIFIER`.
pub open spec fn keyword_kind(t: Seq<char>) -> TokenType {
    if t.len() == 2 {
        if t[0] == 'i' && t[1] == 'f' {
            TokenType::IF
        } else if t[0] == 'o' && t[1] == 'r' {
            TokenType::OR
        } else {
            TokenType::IDENTIFIER
        }
    } else if t.len() == 3 {
        if t[0] == 'a' && t[1] == 'n' && t[2] == 'd' {
            TokenType::AND
        } else if t[0] == 'f' && t[1] == 'o' && t[2] == 'r' {
            TokenType::FOR
        } else if t[0] == 'f' && t[1] == 'u' && t[2] == 'n' {
            TokenType::FUN
        } else if t[0] == 'n' && t[1] == 'i' && t[2] == 'l' {
            TokenType::NIL
        } else if t[0] == 'v' && t[1] == 'a' && t[2] == 'r' {
            TokenType::VAR
        } else {
            TokenType::IDENTIFIER
        }
    } else if t.len() == 4 {
        if t[0] == 'e' && t[1] == 'l' && t[2] == 's' && t[3] == 'e' {
            TokenType::ELSE
        } else if t[0] == 't' && t[1] == 'h' && t[2] == 'i' && t[3] == 's' {
            TokenType::THIS
        } else if t[0] == 't' && t[1] == 'r' && t[2] == 'u' && t[3] == 'e' {
            TokenType::TRUE
        } else {
            TokenType::IDENTIFIER
        }
    } else if t.len() == 5 {
        if t[0] == 'c' && t[1] == 'l' && t[2] == 'a' && t[3] == 's' && t[4] == 's' {
            TokenType::CLASS
        } else if t[0] == 'f' && t[1] == 'a' && t[2] == 'l' && t[3] == 's' && t[4] == 'e' {
            TokenType::FALSE
        } else if t[0] == 'p' && t[1] == 'r' && t[2] == 'i' && t[3] == 'n' && t[4] == 't' {
            TokenType::PRINT
        } else if t[0] == 's' && t[1] == 'u' && t[2] == 'p' && t[3] == 'e' && t[4] == 'r' {
            TokenType::SUPER
        } else if t[0] == 'w' && t[1] == 'h' && t[2] == 'i' && t[3] == 'l' && t[4] == 'e' {
            TokenType::WHILE
        } else {
            TokenType::IDENTIFIER
        }
    } else if t.len() == 6 {
        if t[0] == 'r' && t[1] == 'e' && t[2] == 't' && t[3] == 'u' && t[4] == 'r'
            && t[5] == 'n' {
            TokenType::RETURN
        } else {
            TokenType::IDENTIFIER
        }
    } else {
        TokenType::IDENTIFIER
    }
}

// ---------------------------------------------------------------------------
// Maximal runs: where a comment, string body, digit run or identifier ends
// ---------------------------------------------------------------------------

/// First index at or after `k` holding a newline, or the end of the buffer:
/// where a line comment stops consuming.
pub open spec fn comment_end(s: Seq<char>, k: int) -> int
    decreases s.len() - k,
{
    if k >= s.len() {
        k
    } else if s[k] == '\n' {
        k
    } else {
        comment_end(s, k + 1)
    }
}

/// First index at or after `k` holding a closing quote, or the end of the
/// buffer: where the body of a string literal stops.
pub open spec fn string_body_end(s: Seq<char>, k: int) -> int
    decreases s.len() - k,
{
    if k >= s.len() {
        k
    } else if s[k] == '"' {
        k
    } else {
        string_body_end(s, k + 1)
    }
}

/// First index at or after `k` holding a non-digit, or the end of the
/// buffer: the end of a maximal digit run.
pub open spec fn digits_end(s: Seq<char>, k: int) -> int
    decreases s.len() - k,
{
    if k >= s.len() {
        k
    } else if !is_digit(s[k]) {
        k
    } else {
        digits_end(s, k + 1)
    }
}

/// First index at or after `k` holding a character that cannot continue an
/// identifier, or the end of the buffer.
pub open spec fn ident_end(s: Seq<char>, k: int) -> int
    decreases s.len() - k,
{
    if k >= s.len() {
        k
    } else if !is_ident_char(s[k]) {
        k
    } else {
        ident_end(s, k + 1)
    }
}

pub proof fn lemma_comment_end(s: Seq<char>, k: int)
    requires
        0 <= k <= s.len(),
    ensures
        k <= comment_end(s, k) <= s.len(),
        forall|m: int| k <= m < comment_end(s, k) ==> s[m] != '\n',
        comment_end(s, k) < s.len() ==> s[comment_end(s, k)] == '\n',
    decreases s.len() - k,
{
    if k < s.len() && s[k] != '\n' {
        lemma_comment_end(s, k + 1);
    }
}

pub proof fn lemma_string_body_end(s: Seq<char>, k: int)
    requires
        0 <= k <= s.len(),
    ensures
        k <= string_body_end(s, k) <= s.len(),
        forall|m: int| k <= m < string_body_end(s, k) ==> s[m] != '"',
        string_body_end(s, k) < s.len() ==> s[string_body_end(s, k)] == '"',
    decreases s.len() - k,
{
    if k < s.len() && s[k] != '"' {
        lemma_string_body_end(s, k + 1);
    }
}

pub proof fn lemma_digits_end(s: Seq<char>, k: int)
    requires
        0 <= k <= s.len(),
    ensures
        k <= digits_end(s, k) <= s.len(),
        forall|m: int| k <= m < digits_end(s, k) ==> is_digit(s[m]),
        digits_end(s, k) < s.len() ==> !is_digit(s[digits_end(s, k)]),
    decreases s.len() - k,
{
    if k < s.len() && is_digit(s[k]) {
        lemma_digits_end(s, k + 1);
    }
}

pub proof fn lemma_ident_end(s: Seq<char>, k: int)
    requires
        0 <= k <= s.len(),
    ensures
        k <= ident_end(s, k) <= s.len(),
        forall|m: int| k <= m < ident_end(s, k) ==> is_ident_char(s[m]),
        ident_end(s, k) < s.len() ==> !is_ident_char(s[ident_end(s, k)]),
    decreases s.len() - k,
{
    if k < s.len() && is_ident_char(s[k]) {
        lemma_ident_end(s, k + 1);
    }
}

// ---------------------------------------------------------------------------
// One scanning step
// ---------------------------------------------------------------------------

/// What one iteration of the outer scanning loop does when the cursor stands
/// at `next - (what it consumed)`: the tokens it emits (at most one), the
/// diagnostics it records (at most one), the cursor after it, and the line
/// counter after it.
pub struct ScanStep {
    pub tokens: Seq<SpecToken>,
    pub diags: Seq<SpecDiagnostic>,
    pub next: int,
    pub line: int,
}

/// Step outcome for a string literal beginning at the quote at index `i`.
///
/// The body runs to the next quote; if the buffer ends first the attempt
/// emits no token and records an unterminated-string diagnostic.  Newlines
/// inside a string body do not advance the line counter: the line recorded
/// for tokens after a multi-line string under-reports, a documented quirk of
/// this scanner's line accounting.
pub open spec fn string_step(s: Seq<char>, i: int, line: int) -> ScanStep
    recommends
        0 <= i < s.len(),
        s[i] == '"',
{
    let j = string_body_end(s, i + 1);
    if j >= s.len() {
        ScanStep {
            tokens: Seq::empty(),
            diags: seq![SpecDiagnostic::UnterminatedString { line }],
            next: j,
            line,
        }
    } else {
        ScanStep {
            tokens: seq![
                SpecToken {
                    kind: TokenType::STRING,
                    lexeme: s.subrange(i, j + 1),
                    literal: Option::Some(s.subrange(i + 1, j)),
                    line,
                },
            ],
            diags: Seq::empty(),
            next: j + 1,
            line,
        }
    }
}

/// Step outcome for a number literal whose first digit stands at index `i`.
///
/// A maximal digit run is consumed; a following `.` is consumed only when
/// the character after it is itself a digit (otherwise the dot is left to be
/// re-lexed as its own token), and then a second maximal digit run follows.
pub open spec fn number_step(s: Seq<char>, i: int, line: int) -> ScanStep
    recommends
        0 <= i < s.len(),
        is_digit(s[i]),
{
    let k = digits_end(s, i + 1);
    let j = if k < s.len() && s[k] == '.' && k + 1 < s.len() && is_digit(s[k + 1]) {
        digits_end(s, k + 1)
    } else {
        k
    };
    ScanStep {
        tokens: seq![
            SpecToken {
                kind: TokenType::NUMBER,
                lexeme: s.subrange(i, j),
                literal: Option::Some(s.subrange(i, j)),
                line,
            },
        ],
        diags: Seq::empty(),
        next: j,
        line,
    }
}

/// Step outcome for an identifier or reserved word starting at index `i`.
pub open spec fn ident_step(s: Seq<char>, i: int, line: int) -> ScanStep
    recommends
        0 <= i < s.len(),
        is_alpha(s[i]),
{
    let j = ident_end(s, i + 1);
    ScanStep {
        tokens: seq![
            SpecToken {
                kind: keyword_kind(s.subrange(i, j)),
                lexeme: s.subrange(i, j),
                literal: Option::None,
                line,
            },
        ],
        diags: Seq::empty(),
        next: j,
        line,
    }
}

/// One step of the outer loop: dispatch on the character at `i`.
pub open spec fn step(s: Seq<char>, i: int, line: int) -> ScanStep
    recommends
        0 <= i < s.len(),
{
    let c = s[i];
    if is_single_punct(c) {
        ScanStep {
            tokens: seq![
                SpecToken {
                    kind: punct_kind(c),
                    lexeme: s.subrange(i, i + 1),
                    literal: Option::None,
                    line,
                },
            ],
            diags: Seq::empty(),
            next: i + 1,
            line,
        }
    } else if is_lookahead_op(c) {
        if i + 1 < s.len() && s[i + 1] == '=' {
            ScanStep {
                tokens: seq![
                    SpecToken {
                        kind: two_char_kind(c),
                        lexeme: s.subrange(i, i + 2),
                        literal: Option::None,
                        line,
                    },
                ],
                diags: Seq::empty(),
                next: i + 2,
                line,
            }
        } else {
            ScanStep {
                tokens: seq![
                    SpecToken {
                        kind: one_char_kind(c),
                        lexeme: s.subrange(i, i + 1),
                        literal: Option::None,
                        line,
                    },
                ],
                diags: Seq::empty(),
                next: i + 1,
                line,
            }
        }
    } else if c == '/' {
        if i + 1 < s.len() && s[i + 1] == '/' {
            // A line comment: discarded through the end of the line; the
            // newline itself is left for the next step, which advances the
            // line counter.
            ScanStep { tokens: Seq::empty(), diags: Seq::empty(), next: comment_end(s, i + 2), line }
        } else {
            ScanStep {
                tokens: seq![
                    SpecToken {
                        kind: TokenType::SLASH,
                        lexeme: s.subrange(i, i + 1),
                        literal: Option::None,
                        line,
                    },
                ],
                diags: Seq::empty(),
                next: i + 1,
                line,
            }
        }
    } else if c == '"' {
        string_step(s, i, line)
    } else if c == '\n' {
        ScanStep { tokens: Seq::empty(), diags: Seq::empty(), next: i + 1, line: line + 1 }
    } else if c == ' ' || c == '\t' || c == '\r' {
        ScanStep { tokens: Seq::empty(), diags: Seq::empty(), next: i + 1, line }
    } else if is_digit(c) {
        number_step(s, i, line)
    } else if is_alpha(c) {
        ident_step(s, i, line)
    } else {
        ScanStep {
            tokens: Seq::empty(),
            diags: seq![SpecDiagnostic::UnexpectedCharacter { ch: c, line }],
            next: i + 1,
            line,
        }
    }
}

/// Every step consumes at least one character and never runs past the end.
pub proof fn lemma_step_bounds(s: Seq<char>, i: int, line: int)
    requires
        0 <= i < s.len(),
    ensures
        i < step(s, i, line).next <= s.len(),
{
    if i + 2 <= s.len() {
        lemma_comment_end(s, i + 2);
    }
    lemma_string_body_end(s, i + 1);
    lemma_digits_end(s, i + 1);
    let k = digits_end(s, i + 1);
    if k < s.len() {
        lemma_digits_end(s, k + 1);
    }
    lemma_ident_end(s, i + 1);
}

// ---------------------------------------------------------------------------
// The whole pass
// ---------------------------------------------------------------------------

/// Everything one pass yields: tokens in emission order, diagnostics in scan
/// order, and the final value of the line counter.
pub struct ScanOut {
    pub tokens: Seq<SpecToken>,
    pub diags: Seq<SpecDiagnostic>,
    pub end_line: int,
}

/// The remainder of a pass that stands at cursor `i` with line counter
/// `line`: step after step until the buffer is exhausted.
pub open spec fn scan_from(s: Seq<char>, i: int, line: int) -> ScanOut
    decreases s.len() - i,
        when 0 <= i <= s.len()
        via scan_from_decreases
{
    if i >= s.len() {
        ScanOut { tokens: Seq::empty(), diags: Seq::empty(), end_line: line }
    } else {
        let st = step(s, i, line);
        let rest = scan_from(s, st.next, st.line);
        ScanOut {
            tokens: st.tokens + rest.tokens,
            diags: st.diags + rest.diags,
            end_line: rest.end_line,
        }
    }
}

#[via_fn]
proof fn scan_from_decreases(s: Seq<char>, i: int, line: int) {
    if 0 <= i && i < s.len() {
        lemma_step_bounds(s, i, line);
    }
}

/// The EOF sentinel appended after the buffer is exhausted: empty lexeme, no
/// literal, the final line counter value.
pub open spec fn eof_token(line: int) -> SpecToken {
    SpecToken { kind: TokenType::EOF, lexeme: Seq::empty(), literal: Option::None, line }
}

/// One full pass over `s`: cursor at 0, line counter at 1, and exactly one
/// EOF token appended at the end.
pub open spec fn scan(s: Seq<char>) -> ScanOut {
    let o = scan_from(s, 0, 1);
    ScanOut { tokens: o.tokens.push(eof_token(o.end_line)), diags: o.diags, end_line: o.end_line }
}

// ---------------------------------------------------------------------------
// Laws of the pass
// ---------------------------------------------------------------------------

/// No step of the pass ever emits the EOF sentinel: it is appended only
/// once, after the buffer is exhausted.
proof fn lemma_scan_from_no_eof(s: Seq<char>, i: int, line: int)
    requires
        0 <= i <= s.len(),
    ensures
        forall|k: int|
            0 <= k < scan_from(s, i, line).tokens.len() ==> scan_from(
                s,
                i,
                line,
            ).tokens[k].kind != TokenType::EOF,
    decreases s.len() - i,
{
    if i < s.len() {
        let st = step(s, i, line);
        lemma_step_bounds(s, i, line);
        lemma_scan_from_no_eof(s, st.next, st.line);
        assert(forall|c: char| punct_kind(c) != TokenType::EOF);
        assert(forall|c: char| one_char_kind(c) != TokenType::EOF);
        assert(forall|c: char| two_char_kind(c) != TokenType::EOF);
        assert(forall|t: Seq<char>| keyword_kind(t) != TokenType::EOF);
        assert(forall|k: int|
            0 <= k < st.tokens.len() ==> st.tokens[k].kind != TokenType::EOF);
    }
}

/// For every input, the token list of a full pass is non-empty, ends with
/// the EOF sentinel — empty lexeme, no literal, the final line counter —
/// and contains EOF exactly once.
pub proof fn lemma_scan_terminated_by_eof(s: Seq<char>)
    ensures
        scan(s).tokens.len() >= 1,
        scan(s).tokens.last() == eof_token(scan(s).end_line),
        scan(s).tokens.last().kind == TokenType::EOF,
        scan(s).tokens.last().lexeme == Seq::<char>::empty(),
        forall|k: int|
            0 <= k < scan(s).tokens.len() - 1 ==> scan(s).tokens[k].kind != TokenType::EOF,
{
    lemma_scan_from_no_eof(s, 0, 1);
}

proof fn lemma_scan_from_single_punct(s: Seq<char>, i: int, line: int)
    requires
        0 <= i <= s.len(),
        forall|m: int| i <= m < s.len() ==> is_single_punct(s[m]),
    ensures
        scan_from(s, i, line).tokens.len() == s.len() - i,
    decreases s.len() - i,
{
    if i < s.len() {
        let st = step(s, i, line);
        lemma_step_bounds(s, i, line);
        lemma_scan_from_single_punct(s, st.next, st.line);
    }
}

/// For a source consisting solely of single-character punctuation, every
/// character yields exactly one token, so the full pass yields the source's
/// length plus one tokens (the EOF sentinel included).
pub proof fn lemma_single_punct_token_count(s: Seq<char>)
    requires
        forall|m: int| 0 <= m < s.len() ==> is_single_punct(s[m]),
    ensures
        scan(s).tokens.len() == s.len() + 1,
{
    lemma_scan_from_single_punct(s, 0, 1);
}

proof fn lemma_scan_from_lines(s: Seq<char>, i: int, line: int)
    requires
        0 <= i <= s.len(),
    ensures
        line <= scan_from(s, i, line).end_line,
        forall|k: int|
            0 <= k < scan_from(s, i, line).tokens.len() ==> line <= (#[trigger] scan_from(
                s,
                i,
                line,
            ).tokens[k].line) <= scan_from(s, i, line).end_line,
        forall|k1: int, k2: int|
            0 <= k1 <= k2 < scan_from(s, i, line).tokens.len() ==> (#[trigger] scan_from(
                s,
                i,
                line,
            ).tokens[k1].line) <= (#[trigger] scan_from(s, i, line).tokens[k2].line),
    decreases s.len() - i,
{
    if i < s.len() {
        let st = step(s, i, line);
        lemma_step_bounds(s, i, line);
        lemma_scan_from_lines(s, st.next, st.line);
    }
}

/// Tokens are produced in non-decreasing source order: their recorded line
/// numbers never decrease across the output, they are 1-based, and none
/// exceeds the final line counter, which the EOF sentinel carries.
pub proof fn lemma_token_lines_monotonic(s: Seq<char>)
    ensures
        1 <= scan(s).end_line,
        forall|k: int|
            0 <= k < scan(s).tokens.len() ==> 1 <= (#[trigger] scan(s).tokens[k].line) <= scan(
                s,
            ).end_line,
        forall|k1: int, k2: int|
            0 <= k1 <= k2 < scan(s).tokens.len() ==> (#[trigger] scan(s).tokens[k1].line) <= (
            #[trigger] scan(s).tokens[k2].line),
{
    lemma_scan_from_lines(s, 0, 1);
}

/// Classification is a pure function of the buffer: two passes over equal
/// buffers yield identical tokens, diagnostics and final lines.  Since
/// `Scanner::scan_tokens` pins its whole outcome to `scan` of its buffer,
/// two fresh scanners over the same source return identical results.
pub proof fn lemma_scan_deterministic(s1: Seq<char>, s2: Seq<char>)
    requires
        s1 == s2,
    ensures
        scan(s1) == scan(s2),
{
}

} // verus!

