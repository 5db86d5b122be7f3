//! The executable scanner: a stateful single-pass driver over a pre-decoded
//! character buffer, verified to produce exactly the token list, diagnostics
//! and error flag that the functional model `scan_spec::scan` describes.

use vstd::prelude::*;

use crate::scan_spec::{
    comment_end, digits_end, ident_end, ident_step, is_alpha, is_digit, is_ident_char,
    keyword_kind, lemma_comment_end, lemma_concat_assoc, lemma_concat_empty, lemma_digits_end,
    lemma_ident_end, lemma_push_is_concat, lemma_step_bounds, lemma_string_body_end, number_step,
    scan, scan_from, step, string_body_end, string_step, unicode_alnum, unicode_alpha,
};
use crate::tokens::{
    diag_views, lemma_diag_views_push, lemma_token_views_push, option_string_view, token_views,
    Diagnostic, SpecDiagnostic, SpecToken, Token, TokenType,
};

verus! {

/// Relies on `str::chars`: the iterator yields exactly the string's
/// characters (Unicode scalar values) in order, so collecting it gives the
/// decoded buffer whose sequence of characters is the string's view.
#[verifier::external_body]
fn chars_of(s: &str) -> (v: Vec<char>)
    ensures
        v@ == s@,
{
    s.chars().collect()
}

/// Relies on `String::push`: it appends exactly the given character at the
/// end of the string.
#[verifier::external_body]
fn push_char(s: &mut String, c: char)
    ensures
        final(s)@ == old(s)@.push(c),
{
    s.push(c);
}

/// Builds the string holding the characters `src[from..to]`.
#[verifier::loop_isolation(false)]
fn text_of_range(src: &Vec<char>, from: usize, to: usize) -> (r: String)
    requires
        from <= to <= src@.len(),
    ensures
        r@ == src@.subrange(from as int, to as int),
{
    let mut r = String::new();
    let mut i = from;
    proof {
        assert(r@ =~= src@.subrange(from as int, from as int));
    }
    while i < to
        invariant
            from <= i <= to <= src@.len(),
            r@ == src@.subrange(from as int, i as int),
        decreases to - i,
    {
        push_char(&mut r, src[i]);
        proof {
            assert(src@.subrange(from as int, i + 1) =~= src@.subrange(from as int, i as int).push(
                src@[i as int],
            ));
        }
        i = i + 1;
    }
    r
}

/// Executable ASCII-digit test, matching the model's classification.
fn is_digit_char(c: char) -> (r: bool)
    ensures
        r == is_digit(c),
{
    ('0' as u32) <= (c as u32) && (c as u32) <= ('9' as u32)
}

/// Relies on `char::is_alphabetic`: the result depends on the character
/// alone; `unicode_alpha` names it.
#[verifier::external_body]
fn char_is_alphabetic(c: char) -> (r: bool)
    ensures
        r == unicode_alpha(c),
{
    c.is_alphabetic()
}

/// Relies on `char::is_alphanumeric`: the result depends on the character
/// alone; `unicode_alnum` names it.
#[verifier::external_body]
fn char_is_alphanumeric(c: char) -> (r: bool)
    ensures
        r == unicode_alnum(c),
{
    c.is_alphanumeric()
}

/// Executable identifier-start test, matching the model's classification.
fn is_alpha_char(c: char) -> (r: bool)
    ensures
        r == is_alpha(c),
{
    char_is_alphabetic(c) || c == '_'
}

/// Executable identifier-continuation test.
fn is_ident_char_exec(c: char) -> (r: bool)
    ensures
        r == is_ident_char(c),
{
    char_is_alphanumeric(c) || c == '_'
}

/// Case-sensitive reserved-word lookup for the lexeme `src[from..to]`.
fn keyword_of_range(src: &Vec<char>, from: usize, to: usize) -> (k: TokenType)
    requires
        from <= to <= src@.len(),
    ensures
        k == keyword_kind(src@.subrange(from as int, to as int)),
{
    let n = to - from;
    if n == 2 {
        if src[from] == 'i' && src[from + 1] == 'f' {
            TokenType::IF
        } else if src[from] == 'o' && src[from + 1] == 'r' {
            TokenType::OR
        } else {
            TokenType::IDENTIFIER
        }
    } else if n == 3 {
        if src[from] == 'a' && src[from + 1] == 'n' && src[from + 2] == 'd' {
            TokenType::AND
        } else if src[from] == 'f' && src[from + 1] == 'o' && src[from + 2] == 'r' {
            TokenType::FOR
        } else if src[from] == 'f' && src[from + 1] == 'u' && src[from + 2] == 'n' {
            TokenType::FUN
        } else if src[from] == 'n' && src[from + 1] == 'i' && src[from + 2] == 'l' {
            TokenType::NIL
        } else if src[from] == 'v' && src[from + 1] == 'a' && src[from + 2] == 'r' {
            TokenType::VAR
        } else {
            TokenType::IDENTIFIER
        }
    } else if n == 4 {
        if src[from] == 'e' && src[from + 1] == 'l' && src[from + 2] == 's' && src[from + 3]
            == 'e' {
            TokenType::ELSE
        } else if src[from] == 't' && src[from + 1] == 'h' && src[from + 2] == 'i' && src[from + 3]
            == 's' {
            TokenType::THIS
        } else if src[from] == 't' && src[from + 1] == 'r' && src[from + 2] == 'u' && src[from + 3]
            == 'e' {
            TokenType::TRUE
        } else {
            TokenType::IDENTIFIER
        }
    } else if n == 5 {
        if src[from] == 'c' && src[from + 1] == 'l' && src[from + 2] == 'a' && src[from + 3] == 's'
            && src[from + 4] == 's' {
            TokenType::CLASS
        } else if src[from] == 'f' && src[from + 1] == 'a' && src[from + 2] == 'l' && src[from + 3]
            == 's' && src[from + 4] == 'e' {
            TokenType::FALSE
        } else if src[from] == 'p' && src[from + 1] == 'r' && src[from + 2] == 'i' && src[from + 3]
            == 'n' && src[from + 4] == 't' {
            TokenType::PRINT
        } else if src[from] == 's' && src[from + 1] == 'u' && src[from + 2] == 'p' && src[from + 3]
            == 'e' && src[from + 4] == 'r' {
            TokenType::SUPER
        } else if src[from] == 'w' && src[from + 1] == 'h' && src[from + 2] == 'i' && src[from + 3]
            == 'l' && src[from + 4] == 'e' {
            TokenType::WHILE
        } else {
            TokenType::IDENTIFIER
        }
    } else if n == 6 {
        if src[from] == 'r' && src[from + 1] == 'e' && src[from + 2] == 't' && src[from + 3] == 'u'
            && src[from + 4] == 'r' && src[from + 5] == 'n' {
            TokenType::RETURN
        } else {
            TokenType::IDENTIFIER
        }
    } else {
        TokenType::IDENTIFIER
    }
}

/// Mathematical state of a scanner: the decoded buffer, the models of the
/// tokens and diagnostics emitted so far, the two cursors, the line counter
/// and the error flag.
pub struct SpecScanner {
    pub source: Seq<char>,
    pub tokens: Seq<SpecToken>,
    pub diags: Seq<SpecDiagnostic>,
    pub start: int,
    pub current: int,
    pub line: int,
    pub errors: bool,
}

/// The single-pass lexer.  One instance is built per source buffer with
/// [`Scanner::new`], consumed once by [`Scanner::scan_tokens`], and then read
/// through its `tokens`, `diagnostics` and `errors` fields.
pub struct Scanner {
    /// The source, pre-decoded into directly indexable scalar values.
    pub source: Vec<char>,
    /// The tokens recognized so far, in emission order.
    pub tokens: Vec<Token>,
    /// Index of the first character of the token being recognized.
    pub start: usize,
    /// Index of the next unread character; `start <= current <= len`.
    pub current: usize,
    /// Current 1-based line, advanced on each newline consumed outside a
    /// string body.
    pub line: usize,
    /// True exactly when at least one diagnostic has been recorded.
    pub errors: bool,
    /// The recoverable lexical errors, in scan order.
    pub diagnostics: Vec<Diagnostic>,
}

impl View for Scanner {
    type V = SpecScanner;

    open spec fn view(&self) -> SpecScanner {
        SpecScanner {
            source: self.source@,
            tokens: token_views(self.tokens@),
            diags: diag_views(self.diagnostics@),
            start: self.start as int,
            current: self.current as int,
            line: self.line as int,
            errors: self.errors,
        }
    }
}

/// The character the model's `peek` sees: the next unread character, or the
/// NUL sentinel at end of input.
pub open spec fn peek_spec(v: SpecScanner) -> char {
    if v.current >= v.source.len() {
        '\0'
    } else {
        v.source[v.current]
    }
}

impl Scanner {
    /// Well-formedness: the cursors stay inside the buffer, the line counter
    /// is 1-based and can grow by at most one per consumed character, and
    /// the error flag agrees with the recorded diagnostics.  The buffer is
    /// strictly shorter than `usize::MAX` so that cursor lookahead and the
    /// line counter fit in `usize`.
    pub open spec fn wf(self) -> bool {
        &&& self@.start <= self@.current <= self@.source.len()
        &&& self@.source.len() < usize::MAX
        &&& 1 <= self@.line <= self@.current + 1
        &&& self@.errors == (self@.diags.len() > 0)
    }

    /// A scanner that has not consumed anything yet: both cursors at 0, line
    /// counter at 1, nothing emitted, no error.
    pub open spec fn fresh(self) -> bool {
        &&& self@.start == 0
        &&& self@.current == 0
        &&& self@.line == 1
        &&& self@.tokens == Seq::<SpecToken>::empty()
        &&& self@.diags == Seq::<SpecDiagnostic>::empty()
        &&& !self@.errors
    }

    /// Builds a fresh scanner over `source`, pre-decoding it into a
    /// directly indexable character buffer.
    ///
    /// The length bound is a machine limit: the cursors and the line counter
    /// are `usize` values that may need to reach one past the buffer's end.
    pub fn new(source: String) -> (s: Scanner)
        requires
            source@.len() < usize::MAX,
        ensures
            s@.source == source@,
            s.fresh(),
            s.wf(),
    {
        let s = Scanner {
            source: chars_of(source.as_str()),
            tokens: Vec::new(),
            start: 0,
            current: 0,
            line: 1,
            errors: false,
            diagnostics: Vec::new(),
        };
        proof {
            assert(token_views(s.tokens@) =~= Seq::<SpecToken>::empty());
            assert(diag_views(s.diagnostics@) =~= Seq::<SpecDiagnostic>::empty());
        }
        s
    }

    /// True when the whole buffer has been consumed.
    fn is_at_end(&self) -> (r: bool)
        ensures
            r == (self@.current >= self@.source.len()),
    {
        self.current >= self.source.len()
    }

    /// Consumes and returns the next character.
    fn advance(&mut self) -> (c: char)
        requires
            old(self).wf(),
            old(self)@.current < old(self)@.source.len(),
        ensures
            final(self).wf(),
            c == old(self)@.source[old(self)@.current],
            final(self)@ == (SpecScanner { current: old(self)@.current + 1, ..old(self)@ }),
    {
        let c = self.source[self.current];
        self.current = self.current + 1;
        c
    }

    /// The next unread character, or NUL at end of input; consumes nothing.
    fn peek(&self) -> (c: char)
        requires
            self.wf(),
        ensures
            c == peek_spec(self@),
    {
        if self.is_at_end() {
            '\0'
        } else {
            self.source[self.current]
        }
    }

    /// The character one past the next unread one, or NUL when that runs off
    /// the buffer; consumes nothing.
    fn peek_next(&self) -> (c: char)
        requires
            self.wf(),
        ensures
            c == (if self@.current + 1 >= self@.source.len() {
                '\0'
            } else {
                self@.source[self@.current + 1]
            }),
    {
        if self.current + 1 >= self.source.len() {
            '\0'
        } else {
            self.source[self.current + 1]
        }
    }

    /// One-character lookahead tie-break: consumes the next character and
    /// reports true exactly when it is `expected`; never crosses the end of
    /// the buffer.
    fn operator_match(&mut self, expected: char) -> (r: bool)
        requires
            old(self).wf(),
        ensures
            final(self).wf(),
            r == (old(self)@.current < old(self)@.source.len() && old(self)@.source[old(
                self,
            )@.current] == expected),
            r ==> final(self)@ == (SpecScanner { current: old(self)@.current + 1, ..old(self)@ }),
            !r ==> final(self)@ == old(self)@,
    {
        if self.is_at_end() {
            return false;
        }
        if self.source[self.current] != expected {
            return false;
        }
        self.current = self.current + 1;
        true
    }

    /// Emits one token: kind `token_type`, lexeme `source[start..current]`,
    /// the given literal payload, and the current line.
    fn add_token(&mut self, token_type: TokenType, literal: Option<String>)
        requires
            old(self).wf(),
        ensures
            final(self).wf(),
            final(self)@ == (SpecScanner {
                tokens: old(self)@.tokens.push(
                    SpecToken {
                        kind: token_type,
                        lexeme: old(self)@.source.subrange(old(self)@.start, old(self)@.current),
                        literal: option_string_view(literal),
                        line: old(self)@.line,
                    },
                ),
                ..old(self)@
            }),
    {
        let text = text_of_range(&self.source, self.start, self.current);
        let tok = Token { kind: token_type, lexeme: text, literal, line: self.line };
        proof {
            lemma_token_views_push(self.tokens@, tok);
        }
        self.tokens.push(tok);
    }

    /// Recognizes a string literal whose opening quote (at `start`) has just
    /// been consumed.  The body runs to the next quote; if the buffer ends
    /// first, a diagnostic is recorded and no token is emitted for the
    /// attempt.  Newlines inside the body are consumed without advancing the
    /// line counter, so the line recorded after a multi-line string
    /// under-reports; `string_step` documents this quirk.
    #[verifier::loop_isolation(false)]
    fn string(&mut self)
        requires
            old(self).wf(),
            old(self)@.start == old(self)@.current - 1,
            0 <= old(self)@.start < old(self)@.source.len(),
            old(self)@.source[old(self)@.start] == '"',
        ensures
            final(self).wf(),
            ({
                let st = string_step(old(self)@.source, old(self)@.start, old(self)@.line);
                final(self)@ == (SpecScanner {
                    tokens: old(self)@.tokens + st.tokens,
                    diags: old(self)@.diags + st.diags,
                    current: st.next,
                    errors: old(self)@.errors || st.diags.len() > 0,
                    ..old(self)@
                })
            }),
    {
        let ghost src = self@.source;
        let ghost entry = self@.current;
        proof {
            lemma_string_body_end(src, entry);
        }
        while self.peek() != '"' && !self.is_at_end()
            invariant
                self.wf(),
                self@ == (SpecScanner { current: self@.current, ..old(self)@ }),
                entry <= self@.current <= src.len(),
                string_body_end(src, entry) == string_body_end(src, self@.current),
            decreases src.len() - self@.current,
        {
            proof {
                assert(string_body_end(src, self@.current) == string_body_end(
                    src,
                    self@.current + 1,
                ));
            }
            self.advance();
        }
        if self.is_at_end() {
            proof {
                assert(string_body_end(src, entry) == src.len());
            }
            let d = Diagnostic::UnterminatedString { line: self.line };
            proof {
                lemma_diag_views_push(self.diagnostics@, d);
                lemma_push_is_concat(old(self)@.diags, d@);
                lemma_concat_empty(old(self)@.tokens);
            }
            self.diagnostics.push(d);
            self.errors = true;
            return ;
        }
        proof {
            assert(string_body_end(src, entry) == self@.current);
        }
        self.advance();
        let lit = text_of_range(&self.source, self.start + 1, self.current - 1);
        self.add_token(TokenType::STRING, Option::Some(lit));
        proof {
            lemma_push_is_concat(old(self)@.tokens, self@.tokens.last());
            lemma_concat_empty(old(self)@.diags);
        }
    }

    /// Recognizes a number literal whose first digit (at `start`) has just
    /// been consumed: a maximal digit run, then a fractional part only when
    /// a dot is directly followed by a digit.  A trailing dot is left
    /// unconsumed, to be re-lexed as its own token.
    #[verifier::loop_isolation(false)]
    fn number(&mut self)
        requires
            old(self).wf(),
            old(self)@.start == old(self)@.current - 1,
            0 <= old(self)@.start < old(self)@.source.len(),
            is_digit(old(self)@.source[old(self)@.start]),
        ensures
            final(self).wf(),
            ({
                let st = number_step(old(self)@.source, old(self)@.start, old(self)@.line);
                final(self)@ == (SpecScanner {
                    tokens: old(self)@.tokens + st.tokens,
                    current: st.next,
                    ..old(self)@
                })
            }),
    {
        let ghost src = self@.source;
        let ghost entry = self@.current;
        proof {
            lemma_digits_end(src, entry);
        }
        while is_digit_char(self.peek())
            invariant
                self.wf(),
                self@ == (SpecScanner { current: self@.current, ..old(self)@ }),
                entry <= self@.current <= src.len(),
                digits_end(src, entry) == digits_end(src, self@.current),
            decreases src.len() - self@.current,
        {
            proof {
                assert(digits_end(src, self@.current) == digits_end(src, self@.current + 1));
            }
            self.advance();
        }
        proof {
            assert(digits_end(src, self@.current) == self@.current);
        }
        let ghost k = self@.current;
        let dot = self.peek();
        let after = self.peek_next();
        if dot == '.' && is_digit_char(after) {
            self.advance();
            proof {
                lemma_digits_end(src, k + 1);
            }
            while is_digit_char(self.peek())
                invariant
                    self.wf(),
                    self@ == (SpecScanner { current: self@.current, ..old(self)@ }),
                    k + 1 <= self@.current <= src.len(),
                    digits_end(src, k + 1) == digits_end(src, self@.current),
                decreases src.len() - self@.current,
            {
                proof {
                    assert(digits_end(src, self@.current) == digits_end(src, self@.current + 1));
                }
                self.advance();
            }
            proof {
                assert(digits_end(src, self@.current) == self@.current);
            }
        }
        let value = text_of_range(&self.source, self.start, self.current);
        self.add_token(TokenType::NUMBER, Option::Some(value));
        proof {
            lemma_push_is_concat(old(self)@.tokens, self@.tokens.last());
        }
    }

    /// Recognizes an identifier or reserved word whose first character (at
    /// `start`) has just been consumed: a maximal run of alphanumerics and
    /// underscores, then an exact, case-sensitive keyword lookup.
    #[verifier::loop_isolation(false)]
    fn identifier(&mut self)
        requires
            old(self).wf(),
            old(self)@.start == old(self)@.current - 1,
            0 <= old(self)@.start < old(self)@.source.len(),
            is_alpha(old(self)@.source[old(self)@.start]),
        ensures
            final(self).wf(),
            ({
                let st = ident_step(old(self)@.source, old(self)@.start, old(self)@.line);
                final(self)@ == (SpecScanner {
                    tokens: old(self)@.tokens + st.tokens,
                    current: st.next,
                    ..old(self)@
                })
            }),
    {
        let ghost src = self@.source;
        let ghost entry = self@.current;
        proof {
            lemma_ident_end(src, entry);
        }
        while !self.is_at_end() && is_ident_char_exec(self.peek())
            invariant
                self.wf(),
                self@ == (SpecScanner { current: self@.current, ..old(self)@ }),
                entry <= self@.current <= src.len(),
                ident_end(src, entry) == ident_end(src, self@.current),
            decreases src.len() - self@.current,
        {
            proof {
                assert(ident_end(src, self@.current) == ident_end(src, self@.current + 1));
            }
            self.advance();
        }
        proof {
            assert(ident_end(src, self@.current) == self@.current);
        }
        let kind = keyword_of_range(&self.source, self.start, self.current);
        self.add_null_token(kind);
        proof {
            lemma_push_is_concat(old(self)@.tokens, self@.tokens.last());
        }
    }

    /// Consumes one character and dispatches on it: emits one token, skips
    /// whitespace or a line comment, advances the line counter on a newline,
    /// begins string, number or identifier recognition, or records a
    /// diagnostic for a character no rule admits.  Performs exactly the
    /// model's `step`.
    #[verifier::loop_isolation(false)]
    fn scan_token(&mut self)
        requires
            old(self).wf(),
            old(self)@.start == old(self)@.current,
            old(self)@.current < old(self)@.source.len(),
        ensures
            final(self).wf(),
            ({
                let st = step(old(self)@.source, old(self)@.current, old(self)@.line);
                final(self)@ == (SpecScanner {
                    tokens: old(self)@.tokens + st.tokens,
                    diags: old(self)@.diags + st.diags,
                    current: st.next,
                    line: st.line,
                    errors: old(self)@.errors || st.diags.len() > 0,
                    ..old(self)@
                })
            }),
    {
        let ghost src = self@.source;
        let ghost i0 = self@.current;
        let ghost l0 = self@.line;
        let c = self.advance();
        match c {
            '(' => {
                self.add_null_token(TokenType::LEFT_PAREN);
                proof {
                    lemma_push_is_concat(old(self)@.tokens, self@.tokens.last());
                    lemma_concat_empty(old(self)@.diags);
                }
            },
            ')' => {
                self.add_null_token(TokenType::RIGHT_PAREN);
                proof {
                    lemma_push_is_concat(old(self)@.tokens, self@.tokens.last());
                    lemma_concat_empty(old(self)@.diags);
                }
            },
            '{' => {
                self.add_null_token(TokenType::LEFT_BRACE);
                proof {
                    lemma_push_is_concat(old(self)@.tokens, self@.tokens.last());
                    lemma_concat_empty(old(self)@.diags);
                }
            },
            '}' => {
                self.add_null_token(TokenType::RIGHT_BRACE);
                proof {
                    lemma_push_is_concat(old(self)@.tokens, self@.tokens.last());
                    lemma_concat_empty(old(self)@.diags);
                }
            },
            ',' => {
                self.add_null_token(TokenType::COMMA);
                proof {
                    lemma_push_is_concat(old(self)@.tokens, self@.tokens.last());
                    lemma_concat_empty(old(self)@.diags);
                }
            },
            '.' => {
                self.add_null_token(TokenType::DOT);
                proof {
                    lemma_push_is_concat(old(self)@.tokens, self@.tokens.last());
                    lemma_concat_empty(old(self)@.diags);
                }
            },
            '-' => {
                self.add_null_token(TokenType::MINUS);
                proof {
                    lemma_push_is_concat(old(self)@.tokens, self@.tokens.last());
                    lemma_concat_empty(old(self)@.diags);
                }
            },
            '+' => {
                self.add_null_token(TokenType::PLUS);
                proof {
                    lemma_push_is_concat(old(self)@.tokens, self@.tokens.last());
                    lemma_concat_empty(old(self)@.diags);
                }
            },
            ';' => {
                self.add_null_token(TokenType::SEMICOLON);
                proof {
                    lemma_push_is_concat(old(self)@.tokens, self@.tokens.last());
                    lemma_concat_empty(old(self)@.diags);
                }
            },
            '*' => {
                self.add_null_token(TokenType::STAR);
                proof {
                    lemma_push_is_concat(old(self)@.tokens, self@.tokens.last());
                    lemma_concat_empty(old(self)@.diags);
                }
            },
            '=' => {
                let is_equal = self.operator_match('=');
                let token_type = if is_equal {
                    TokenType::EQUAL_EQUAL
                } else {
                    TokenType::EQUAL
                };
                self.add_null_token(token_type);
                proof {
                    lemma_push_is_concat(old(self)@.tokens, self@.tokens.last());
                    lemma_concat_empty(old(self)@.diags);
                }
            },
            '!' => {
                let is_equal = self.operator_match('=');
                let token_type = if is_equal {
                    TokenType::BANG_EQUAL
                } else {
                    TokenType::BANG
                };
                self.add_null_token(token_type);
                proof {
                    lemma_push_is_concat(old(self)@.tokens, self@.tokens.last());
                    lemma_concat_empty(old(self)@.diags);
                }
            },
            '<' => {
                let is_equal = self.operator_match('=');
                let token_type = if is_equal {
                    TokenType::LESS_EQUAL
                } else {
                    TokenType::LESS
                };
                self.add_null_token(token_type);
                proof {
                    lemma_push_is_concat(old(self)@.tokens, self@.tokens.last());
                    lemma_concat_empty(old(self)@.diags);
                }
            },
            '>' => {
                let is_equal = self.operator_match('=');
                let token_type = if is_equal {
                    TokenType::GREATER_EQUAL
                } else {
                    TokenType::GREATER
                };
                self.add_null_token(token_type);
                proof {
                    lemma_push_is_concat(old(self)@.tokens, self@.tokens.last());
                    lemma_concat_empty(old(self)@.diags);
                }
            },
            '/' => {
                let is_comment = self.operator_match('/');
                if is_comment {
                    proof {
                        lemma_comment_end(src, i0 + 2);
                    }
                    while self.peek() != '\n' && !self.is_at_end()
                        invariant
                            self.wf(),
                            self@ == (SpecScanner { current: self@.current, ..old(self)@ }),
                            i0 + 2 <= self@.current <= src.len(),
                            comment_end(src, i0 + 2) == comment_end(src, self@.current),
                        decreases src.len() - self@.current,
                    {
                        proof {
                            assert(comment_end(src, self@.current) == comment_end(
                                src,
                                self@.current + 1,
                            ));
                        }
                        self.advance();
                    }
                    proof {
                        assert(comment_end(src, self@.current) == self@.current);
                        lemma_concat_empty(old(self)@.tokens);
                        lemma_concat_empty(old(self)@.diags);
                    }
                } else {
                    self.add_null_token(TokenType::SLASH);
                    proof {
                        lemma_push_is_concat(old(self)@.tokens, self@.tokens.last());
                        lemma_concat_empty(old(self)@.diags);
                    }
                }
            },
            '"' => {
                self.string();
            },
            '\n' => {
                self.line = self.line + 1;
                proof {
                    lemma_concat_empty(old(self)@.tokens);
                    lemma_concat_empty(old(self)@.diags);
                }
            },
            '\t' | '\r' | ' ' => {
                proof {
                    lemma_concat_empty(old(self)@.tokens);
                    lemma_concat_empty(old(self)@.diags);
                }
            },
            _ => {
                if is_digit_char(c) {
                    self.number();
                    proof {
                        lemma_concat_empty(old(self)@.diags);
                    }
                } else if is_alpha_char(c) {
                    self.identifier();
                    proof {
                        lemma_concat_empty(old(self)@.diags);
                    }
                } else {
                    let d = Diagnostic::UnexpectedCharacter { ch: c, line: self.line };
                    proof {
                        lemma_diag_views_push(self.diagnostics@, d);
                        lemma_push_is_concat(old(self)@.diags, d@);
                        lemma_concat_empty(old(self)@.tokens);
                    }
                    self.diagnostics.push(d);
                    self.errors = true;
                }
            },
        }
    }

    /// Performs the whole pass: steps through the buffer until it is
    /// exhausted, then appends the single EOF sentinel.  The token list, the
    /// diagnostics and the error flag afterwards are exactly what the
    /// functional model `scan` gives for the buffer, so they are a function
    /// of the source text alone: re-scanning an equal buffer with a fresh
    /// scanner yields an identical result.
    #[verifier::loop_isolation(false)]
    pub fn scan_tokens(&mut self)
        requires
            old(self).wf(),
            old(self).fresh(),
        ensures
            final(self).wf(),
            final(self)@.source == old(self)@.source,
            token_views(final(self).tokens@) == scan(old(self)@.source).tokens,
            diag_views(final(self).diagnostics@) == scan(old(self)@.source).diags,
            final(self).errors == (scan(old(self)@.source).diags.len() > 0),
            final(self)@.line == scan(old(self)@.source).end_line,
    {
        let ghost src = self@.source;
        proof {
            lemma_concat_empty(scan_from(src, 0, 1).tokens);
            lemma_concat_empty(scan_from(src, 0, 1).diags);
        }
        while !self.is_at_end()
            invariant
                self.wf(),
                self@.source == src,
                scan_from(src, 0, 1).tokens == self@.tokens + scan_from(
                    src,
                    self@.current,
                    self@.line,
                ).tokens,
                scan_from(src, 0, 1).diags == self@.diags + scan_from(
                    src,
                    self@.current,
                    self@.line,
                ).diags,
                scan_from(src, 0, 1).end_line == scan_from(src, self@.current, self@.line).end_line,
            decreases src.len() - self@.current,
        {
            let ghost i0 = self@.current;
            let ghost l0 = self@.line;
            let ghost toks0 = self@.tokens;
            let ghost diags0 = self@.diags;
            self.start = self.current;
            self.scan_token();
            proof {
                let st = step(src, i0, l0);
                lemma_step_bounds(src, i0, l0);
                lemma_concat_assoc(toks0, st.tokens, scan_from(src, st.next, st.line).tokens);
                lemma_concat_assoc(diags0, st.diags, scan_from(src, st.next, st.line).diags);
            }
        }
        proof {
            lemma_concat_empty(self@.tokens);
            lemma_concat_empty(self@.diags);
        }
        let eof = Token {
            kind: TokenType::EOF,
            lexeme: String::new(),
            literal: Option::None,
            line: self.line,
        };
        proof {
            lemma_token_views_push(self.tokens@, eof);
        }
        self.tokens.push(eof);
    }

    /// Emits one token with no literal payload.
    fn add_null_token(&mut self, token_type: TokenType)
        requires
            old(self).wf(),
        ensures
            final(self).wf(),
            final(self)@ == (SpecScanner {
                tokens: old(self)@.tokens.push(
                    SpecToken {
                        kind: token_type,
                        lexeme: old(self)@.source.subrange(old(self)@.start, old(self)@.current),
                        literal: Option::None,
                        line: old(self)@.line,
                    },
                ),
                ..old(self)@
            }),
    {
        self.add_token(token_type, Option::None);
    }
}

} // verus!
