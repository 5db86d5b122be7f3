//! The token taxonomy, the token record the scanner emits, and the
//! diagnostic records it accumulates for recoverable lexical errors.

use vstd::prelude::*;

verus! {

/// Closed set of lexical categories.  Every character sequence the scanner
/// accepts maps to exactly one of these; `EOF` is the terminal sentinel that
/// ends every token list.
#[allow(non_camel_case_types)]
#[derive(Clone, Copy, Debug, PartialEq, Eq, Structural)]
pub enum TokenType {
    // Single-character punctuation.
    LEFT_PAREN,
    RIGHT_PAREN,
    LEFT_BRACE,
    RIGHT_BRACE,
    COMMA,
    DOT,
    MINUS,
    PLUS,
    SEMICOLON,
    STAR,
    // Operators with a one-character lookahead tie-break.
    BANG,
    BANG_EQUAL,
    EQUAL,
    EQUAL_EQUAL,
    GREATER,
    GREATER_EQUAL,
    LESS,
    LESS_EQUAL,
    // Division marker (doubles as the comment introducer).
    SLASH,
    // Literals.
    STRING,
    NUMBER,
    IDENTIFIER,
    // Reserved words, matched case-sensitively.
    AND,
    CLASS,
    ELSE,
    TRUE,
    FALSE,
    FOR,
    WHILE,
    FUN,
    IF,
    NIL,
    OR,
    PRINT,
    RETURN,
    SUPER,
    THIS,
    VAR,
    // End-of-input sentinel.
    EOF,
}

/// Mathematical model of a token: the classification, the exact source span
/// it was recognized from, the optional parsed payload, and the 1-based line
/// recorded at recognition time.
pub struct SpecToken {
    pub kind: TokenType,
    pub lexeme: Seq<char>,
    pub literal: Option<Seq<char>>,
    pub line: int,
}

/// A classified unit of source text.
///
/// `lexeme` is the exact substring the token spans (empty for `EOF`);
/// `literal` is the parsed payload — the unquoted contents for `STRING`, the
/// digit span for `NUMBER`, and `None` for every other kind; `line` is the
/// 1-based line number at recognition time.
#[derive(Clone, Debug, PartialEq)]
pub struct Token {
    pub kind: TokenType,
    pub lexeme: String,
    pub literal: Option<String>,
    pub line: usize,
}

impl View for Token {
    type V = SpecToken;

    open spec fn view(&self) -> SpecToken {
        SpecToken {
            kind: self.kind,
            lexeme: self.lexeme@,
            literal: match self.literal {
                Option::Some(s) => Option::Some(s@),
                Option::None => Option::None,
            },
            line: self.line as int,
        }
    }
}

/// Mathematical model of a diagnostic record.
pub enum SpecDiagnostic {
    UnexpectedCharacter { ch: char, line: int },
    UnterminatedString { line: int },
}

/// One recoverable lexical error, recorded in scan order.  The scanner never
/// aborts on bad input: it accumulates these and keeps scanning, so a single
/// pass surfaces every lexical problem in the buffer.
#[derive(Clone, Debug, PartialEq)]
pub enum Diagnostic {
    /// A character that matches no recognition rule.
    UnexpectedCharacter { ch: char, line: usize },
    /// A string literal with no closing quote before end of input.
    UnterminatedString { line: usize },
}

impl View for Diagnostic {
    type V = SpecDiagnostic;

    open spec fn view(&self) -> SpecDiagnostic {
        match *self {
            Diagnostic::UnexpectedCharacter { ch, line } => SpecDiagnostic::UnexpectedCharacter {
                ch,
                line: line as int,
            },
            Diagnostic::UnterminatedString { line } => SpecDiagnostic::UnterminatedString {
                line: line as int,
            },
        }
    }
}

/// The token records of a vector, each replaced by its model.
pub open spec fn token_views(ts: Seq<Token>) -> Seq<SpecToken> {
    ts.map_values(|t: Token| t@)
}

/// The diagnostic records of a vector, each replaced by its model.
pub open spec fn diag_views(ds: Seq<Diagnostic>) -> Seq<SpecDiagnostic> {
    ds.map_values(|d: Diagnostic| d@)
}

/// The view of an optional literal payload.
pub open spec fn option_string_view(o: Option<String>) -> Option<Seq<char>> {
    match o {
        Option::Some(s) => Option::Some(s@),
        Option::None => Option::None,
    }
}

pub proof fn lemma_token_views_push(ts: Seq<Token>, t: Token)
    ensures
        token_views(ts.push(t)) == token_views(ts).push(t@),
{
    assert(token_views(ts.push(t)) =~= token_views(ts).push(t@));
}

pub proof fn lemma_diag_views_push(ds: Seq<Diagnostic>, d: Diagnostic)
    ensures
        diag_views(ds.push(d)) == diag_views(ds).push(d@),
{
    assert(diag_views(ds.push(d)) =~= diag_views(ds).push(d@));
}

} // verus!
