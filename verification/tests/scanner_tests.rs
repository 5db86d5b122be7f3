//! Behavior of the scanner on concrete sources: token classification,
//! lookahead tie-breaks, comments, literals, reserved words, line tracking,
//! and the fail-soft error policy.

use loxlex::{Diagnostic, Scanner, Token, TokenType};

fn scan(source: &str) -> Scanner {
    let mut scanner = Scanner::new(source.to_string());
    scanner.scan_tokens();
    scanner
}

fn kinds(scanner: &Scanner) -> Vec<TokenType> {
    scanner.tokens.iter().map(|t| t.kind).collect()
}

#[test]
fn empty_source_yields_single_eof() {
    let s = scan("");
    assert_eq!(s.tokens.len(), 1);
    assert_eq!(s.tokens[0].kind, TokenType::EOF);
    assert_eq!(s.tokens[0].lexeme, "");
    assert_eq!(s.tokens[0].literal, None);
    assert_eq!(s.tokens[0].line, 1);
    assert!(!s.errors);
    assert!(s.diagnostics.is_empty());
}

#[test]
fn every_output_ends_with_exactly_one_eof() {
    for source in ["", "(", "\"open", "@#^", "var x = 1;", "// only a comment"] {
        let s = scan(source);
        assert!(!s.tokens.is_empty());
        assert_eq!(s.tokens.last().unwrap().kind, TokenType::EOF);
        assert_eq!(s.tokens.last().unwrap().lexeme, "");
        let eof_count = s
            .tokens
            .iter()
            .filter(|t| t.kind == TokenType::EOF)
            .count();
        assert_eq!(eof_count, 1);
    }
}

#[test]
fn punctuation_only_source_has_length_plus_one_tokens() {
    let source = "(){},.-+;*";
    let s = scan(source);
    assert_eq!(s.tokens.len(), source.len() + 1);
    assert!(!s.errors);
    assert_eq!(
        kinds(&s),
        vec![
            TokenType::LEFT_PAREN,
            TokenType::RIGHT_PAREN,
            TokenType::LEFT_BRACE,
            TokenType::RIGHT_BRACE,
            TokenType::COMMA,
            TokenType::DOT,
            TokenType::MINUS,
            TokenType::PLUS,
            TokenType::SEMICOLON,
            TokenType::STAR,
            TokenType::EOF,
        ]
    );
}

#[test]
fn equal_equal_is_one_token() {
    let s = scan("==");
    assert_eq!(kinds(&s), vec![TokenType::EQUAL_EQUAL, TokenType::EOF]);
    assert_eq!(s.tokens[0].lexeme, "==");
}

#[test]
fn lone_equal_is_one_token() {
    let s = scan("=");
    assert_eq!(kinds(&s), vec![TokenType::EQUAL, TokenType::EOF]);
    assert_eq!(s.tokens[0].lexeme, "=");
}

#[test]
fn lookahead_does_not_cross_whitespace() {
    let s = scan("! =");
    assert_eq!(
        kinds(&s),
        vec![TokenType::BANG, TokenType::EQUAL, TokenType::EOF]
    );
}

#[test]
fn maximal_munch_on_three_equals() {
    let s = scan("===");
    assert_eq!(
        kinds(&s),
        vec![TokenType::EQUAL_EQUAL, TokenType::EQUAL, TokenType::EOF]
    );
}

#[test]
fn two_char_operators() {
    let s = scan("!= <= >= < > ! =");
    assert_eq!(
        kinds(&s),
        vec![
            TokenType::BANG_EQUAL,
            TokenType::LESS_EQUAL,
            TokenType::GREATER_EQUAL,
            TokenType::LESS,
            TokenType::GREATER,
            TokenType::BANG,
            TokenType::EQUAL,
            TokenType::EOF,
        ]
    );
}

#[test]
fn comment_contributes_no_token_but_newline_advances_line() {
    let s = scan("// comment\n123");
    assert_eq!(s.tokens.len(), 2);
    assert_eq!(s.tokens[0].kind, TokenType::NUMBER);
    assert_eq!(s.tokens[0].lexeme, "123");
    assert_eq!(s.tokens[0].line, 2);
    assert_eq!(s.tokens[1].kind, TokenType::EOF);
    assert_eq!(s.tokens[1].line, 2);
    assert!(!s.errors);
}

#[test]
fn comment_to_end_of_input() {
    let s = scan("// nothing after");
    assert_eq!(kinds(&s), vec![TokenType::EOF]);
    assert!(!s.errors);
}

#[test]
fn lone_slash_is_a_token() {
    let s = scan("/");
    assert_eq!(kinds(&s), vec![TokenType::SLASH, TokenType::EOF]);
}

#[test]
fn unterminated_string_sets_error_and_emits_no_token() {
    let s = scan("\"unterminated");
    assert_eq!(kinds(&s), vec![TokenType::EOF]);
    assert!(s.errors);
    assert_eq!(
        s.diagnostics,
        vec![Diagnostic::UnterminatedString { line: 1 }]
    );
}

#[test]
fn string_literal_strips_quotes_in_payload() {
    let s = scan("\"hello world\"");
    assert_eq!(kinds(&s), vec![TokenType::STRING, TokenType::EOF]);
    assert_eq!(s.tokens[0].lexeme, "\"hello world\"");
    assert_eq!(s.tokens[0].literal, Some("hello world".to_string()));
    assert!(!s.errors);
}

#[test]
fn reserved_words_are_case_sensitive() {
    let upper = scan("Print");
    assert_eq!(kinds(&upper), vec![TokenType::IDENTIFIER, TokenType::EOF]);
    let lower = scan("print");
    assert_eq!(kinds(&lower), vec![TokenType::PRINT, TokenType::EOF]);
}

#[test]
fn all_reserved_words() {
    let s = scan("and class else true false for while fun if nil or print return super this var");
    assert_eq!(
        kinds(&s),
        vec![
            TokenType::AND,
            TokenType::CLASS,
            TokenType::ELSE,
            TokenType::TRUE,
            TokenType::FALSE,
            TokenType::FOR,
            TokenType::WHILE,
            TokenType::FUN,
            TokenType::IF,
            TokenType::NIL,
            TokenType::OR,
            TokenType::PRINT,
            TokenType::RETURN,
            TokenType::SUPER,
            TokenType::THIS,
            TokenType::VAR,
            TokenType::EOF,
        ]
    );
}

#[test]
fn identifiers_admit_underscores_and_digits() {
    let s = scan("_foo a1 andy");
    assert_eq!(
        kinds(&s),
        vec![
            TokenType::IDENTIFIER,
            TokenType::IDENTIFIER,
            TokenType::IDENTIFIER,
            TokenType::EOF,
        ]
    );
    assert_eq!(s.tokens[0].lexeme, "_foo");
    assert_eq!(s.tokens[1].lexeme, "a1");
    assert_eq!(s.tokens[2].lexeme, "andy");
}

#[test]
fn non_ascii_letters_form_identifiers() {
    let s = scan("café données");
    assert_eq!(
        kinds(&s),
        vec![
            TokenType::IDENTIFIER,
            TokenType::IDENTIFIER,
            TokenType::EOF,
        ]
    );
    assert_eq!(s.tokens[0].lexeme, "café");
    assert_eq!(s.tokens[1].lexeme, "données");
    assert!(!s.errors);
}

#[test]
fn non_ascii_alphanumerics_continue_identifiers() {
    // U+0663 ARABIC-INDIC DIGIT THREE is numeric, hence alphanumeric: it
    // continues an identifier, though it cannot begin a number literal.
    let s = scan("x٣");
    assert_eq!(kinds(&s), vec![TokenType::IDENTIFIER, TokenType::EOF]);
    assert_eq!(s.tokens[0].lexeme, "x٣");
    assert!(!s.errors);
}

#[test]
fn non_ascii_numerals_do_not_begin_numbers() {
    // Number recognition dispatches on ASCII digits only; a lone non-ASCII
    // numeral matches no rule and is reported.
    let s = scan("٣");
    assert_eq!(kinds(&s), vec![TokenType::EOF]);
    assert!(s.errors);
    assert_eq!(
        s.diagnostics,
        vec![Diagnostic::UnexpectedCharacter { ch: '٣', line: 1 }]
    );
}

#[test]
fn integer_number() {
    let s = scan("123");
    assert_eq!(kinds(&s), vec![TokenType::NUMBER, TokenType::EOF]);
    assert_eq!(s.tokens[0].lexeme, "123");
    assert_eq!(s.tokens[0].literal, Some("123".to_string()));
}

#[test]
fn fractional_number() {
    let s = scan("123.45");
    assert_eq!(kinds(&s), vec![TokenType::NUMBER, TokenType::EOF]);
    assert_eq!(s.tokens[0].lexeme, "123.45");
    assert_eq!(s.tokens[0].literal, Some("123.45".to_string()));
}

#[test]
fn trailing_dot_is_not_absorbed() {
    let s = scan("123.");
    assert_eq!(
        kinds(&s),
        vec![TokenType::NUMBER, TokenType::DOT, TokenType::EOF]
    );
    assert_eq!(s.tokens[0].lexeme, "123");
    assert_eq!(s.tokens[1].lexeme, ".");
}

#[test]
fn dot_then_digits_after_number_without_digit_after_dot() {
    let s = scan("1.x");
    assert_eq!(
        kinds(&s),
        vec![
            TokenType::NUMBER,
            TokenType::DOT,
            TokenType::IDENTIFIER,
            TokenType::EOF,
        ]
    );
}

#[test]
fn unexpected_character_is_reported_and_skipped() {
    let s = scan("@+");
    assert_eq!(kinds(&s), vec![TokenType::PLUS, TokenType::EOF]);
    assert!(s.errors);
    assert_eq!(
        s.diagnostics,
        vec![Diagnostic::UnexpectedCharacter { ch: '@', line: 1 }]
    );
}

#[test]
fn multiple_errors_are_all_reported_in_one_pass() {
    let s = scan("@\n#\n\"open");
    assert!(s.errors);
    assert_eq!(
        s.diagnostics,
        vec![
            Diagnostic::UnexpectedCharacter { ch: '@', line: 1 },
            Diagnostic::UnexpectedCharacter { ch: '#', line: 2 },
            Diagnostic::UnterminatedString { line: 3 },
        ]
    );
    assert_eq!(kinds(&s), vec![TokenType::EOF]);
}

#[test]
fn newlines_advance_the_line_counter() {
    let s = scan("(\n)\n");
    assert_eq!(s.tokens[0].line, 1);
    assert_eq!(s.tokens[1].line, 2);
    assert_eq!(s.tokens[2].kind, TokenType::EOF);
    assert_eq!(s.tokens[2].line, 3);
}

#[test]
fn token_lines_never_decrease() {
    let s = scan("a\nb\n c d\n\n e");
    let mut previous = 0;
    for t in &s.tokens {
        assert!(t.line >= previous);
        previous = t.line;
    }
}

#[test]
fn rescanning_the_same_buffer_is_identical() {
    let source = "var x = 1;\n\"s\" // trailing\nwhile (x <= 2.5) { x = x + 1; }";
    let first = scan(source);
    let second = scan(source);
    let first_tokens: Vec<Token> = first.tokens.clone();
    let second_tokens: Vec<Token> = second.tokens.clone();
    assert_eq!(first_tokens, second_tokens);
    assert_eq!(first.errors, second.errors);
    assert_eq!(first.diagnostics, second.diagnostics);
}

#[test]
fn whitespace_is_discarded_without_tokens() {
    let s = scan(" \t\r ");
    assert_eq!(kinds(&s), vec![TokenType::EOF]);
    assert_eq!(s.tokens[0].line, 1);
}

#[test]
fn mixed_statement() {
    let s = scan("print 1 + 2;");
    assert_eq!(
        kinds(&s),
        vec![
            TokenType::PRINT,
            TokenType::NUMBER,
            TokenType::PLUS,
            TokenType::NUMBER,
            TokenType::SEMICOLON,
            TokenType::EOF,
        ]
    );
    assert!(!s.errors);
}
