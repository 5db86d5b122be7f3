//! Companion tools around the expression tree: the record driving the
//! build-time generator of tree-type definitions (the generated file itself
//! is written by the host program, outside this library), and a
//! pretty-printer that renders an expression in fully parenthesized prefix
//! form.

use vstd::prelude::*;

use crate::expr::{BinaryExpr, Expr, ExprVisitor, GroupingExpr, LiteralExpr, UnaryExpr};
use crate::tokens::TokenType;

verus! {

/// Relies on `String::push_str`: it appends exactly the given string slice
/// at the end of the string.
#[verifier::external_body]
fn push_str(s: &mut String, t: &str)
    ensures
        final(s)@ == old(s)@ + t@,
{
    s.push_str(t);
}

/// The name of a token kind, as the pretty-printer and the host's token
/// listing spell it.
pub open spec fn kind_name(k: TokenType) -> Seq<char> {
    match k {
        TokenType::LEFT_PAREN => "LEFT_PAREN"@,
        TokenType::RIGHT_PAREN => "RIGHT_PAREN"@,
        TokenType::LEFT_BRACE => "LEFT_BRACE"@,
        TokenType::RIGHT_BRACE => "RIGHT_BRACE"@,
        TokenType::COMMA => "COMMA"@,
        TokenType::DOT => "DOT"@,
        TokenType::MINUS => "MINUS"@,
        TokenType::PLUS => "PLUS"@,
        TokenType::SEMICOLON => "SEMICOLON"@,
        TokenType::STAR => "STAR"@,
        TokenType::BANG => "BANG"@,
        TokenType::BANG_EQUAL => "BANG_EQUAL"@,
        TokenType::EQUAL => "EQUAL"@,
        TokenType::EQUAL_EQUAL => "EQUAL_EQUAL"@,
        TokenType::GREATER => "GREATER"@,
        TokenType::GREATER_EQUAL => "GREATER_EQUAL"@,
        TokenType::LESS => "LESS"@,
        TokenType::LESS_EQUAL => "LESS_EQUAL"@,
        TokenType::SLASH => "SLASH"@,
        TokenType::STRING => "STRING"@,
        TokenType::NUMBER => "NUMBER"@,
        TokenType::IDENTIFIER => "IDENTIFIER"@,
        TokenType::AND => "AND"@,
        TokenType::CLASS => "CLASS"@,
        TokenType::ELSE => "ELSE"@,
        TokenType::TRUE => "TRUE"@,
        TokenType::FALSE => "FALSE"@,
        TokenType::FOR => "FOR"@,
        TokenType::WHILE => "WHILE"@,
        TokenType::FUN => "FUN"@,
        TokenType::IF => "IF"@,
        TokenType::NIL => "NIL"@,
        TokenType::OR => "OR"@,
        TokenType::PRINT => "PRINT"@,
        TokenType::RETURN => "RETURN"@,
        TokenType::SUPER => "SUPER"@,
        TokenType::THIS => "THIS"@,
        TokenType::VAR => "VAR"@,
        TokenType::EOF => "EOF"@,
    }
}

/// The name of a token kind, for rendering.
pub fn kind_str(k: TokenType) -> (r: &'static str)
    ensures
        r@ == kind_name(k),
{
    match k {
        TokenType::LEFT_PAREN => "LEFT_PAREN",
        TokenType::RIGHT_PAREN => "RIGHT_PAREN",
        TokenType::LEFT_BRACE => "LEFT_BRACE",
        TokenType::RIGHT_BRACE => "RIGHT_BRACE",
        TokenType::COMMA => "COMMA",
        TokenType::DOT => "DOT",
        TokenType::MINUS => "MINUS",
        TokenType::PLUS => "PLUS",
        TokenType::SEMICOLON => "SEMICOLON",
        TokenType::STAR => "STAR",
        TokenType::BANG => "BANG",
        TokenType::BANG_EQUAL => "BANG_EQUAL",
        TokenType::EQUAL => "EQUAL",
        TokenType::EQUAL_EQUAL => "EQUAL_EQUAL",
        TokenType::GREATER => "GREATER",
        TokenType::GREATER_EQUAL => "GREATER_EQUAL",
        TokenType::LESS => "LESS",
        TokenType::LESS_EQUAL => "LESS_EQUAL",
        TokenType::SLASH => "SLASH",
        TokenType::STRING => "STRING",
        TokenType::NUMBER => "NUMBER",
        TokenType::IDENTIFIER => "IDENTIFIER",
        TokenType::AND => "AND",
        TokenType::CLASS => "CLASS",
        TokenType::ELSE => "ELSE",
        TokenType::TRUE => "TRUE",
        TokenType::FALSE => "FALSE",
        TokenType::FOR => "FOR",
        TokenType::WHILE => "WHILE",
        TokenType::FUN => "FUN",
        TokenType::IF => "IF",
        TokenType::NIL => "NIL",
        TokenType::OR => "OR",
        TokenType::PRINT => "PRINT",
        TokenType::RETURN => "RETURN",
        TokenType::SUPER => "SUPER",
        TokenType::THIS => "THIS",
        TokenType::VAR => "VAR",
        TokenType::EOF => "EOF",
    }
}

/// The fully parenthesized prefix rendering of an expression: operators by
/// their kind names, literals by their values, groupings marked `group`.
pub open spec fn print_expr(e: Expr) -> Seq<char>
    decreases e,
{
    match e {
        Expr::Binary(b) => "("@ + kind_name(b.operator) + " "@ + print_expr(*b.left) + " "@
            + print_expr(*b.right) + ")"@,
        Expr::Grouping(g) => "(group "@ + print_expr(*g.expression) + ")"@,
        Expr::Literal(l) => l.value@,
        Expr::Unary(u) => "("@ + kind_name(u.operator) + " "@ + print_expr(*u.right) + ")"@,
    }
}

/// Renders an expression exactly as [`print_expr`] describes.
fn render(e: &Expr) -> (r: String)
    ensures
        r@ == print_expr(*e),
    decreases *e,
{
    match e {
        Expr::Binary(b) => {
            let mut r = String::new();
            push_str(&mut r, "(");
            push_str(&mut r, kind_str(b.operator));
            push_str(&mut r, " ");
            let left = render(&*b.left);
            push_str(&mut r, left.as_str());
            push_str(&mut r, " ");
            let right = render(&*b.right);
            push_str(&mut r, right.as_str());
            push_str(&mut r, ")");
            proof {
                assert(r@ =~= print_expr(*e));
            }
            r
        },
        Expr::Grouping(g) => {
            let mut r = String::new();
            push_str(&mut r, "(group ");
            let inner = render(&*g.expression);
            push_str(&mut r, inner.as_str());
            push_str(&mut r, ")");
            proof {
                assert(r@ =~= print_expr(*e));
            }
            r
        },
        Expr::Literal(l) => l.value.clone(),
        Expr::Unary(u) => {
            let mut r = String::new();
            push_str(&mut r, "(");
            push_str(&mut r, kind_str(u.operator));
            push_str(&mut r, " ");
            let right = render(&*u.right);
            push_str(&mut r, right.as_str());
            push_str(&mut r, ")");
            proof {
                assert(r@ =~= print_expr(*e));
            }
            r
        },
    }
}

/// What the build-time generator of tree-type definitions is asked to emit:
/// the directory and base name of the generated file, and one textual
/// `"Name : Field Type, ..."` description per tree variant.  Turning this
/// record into a source file is host work and lives outside the library.
pub struct Ast {
    pub output_dir: String,
    pub base_name: String,
    pub types: Vec<String>,
}

impl Ast {
    /// Records a generation request, copying the two names and taking the
    /// variant descriptions as given.
    pub fn new(output_dir: &String, base_name: &str, types: Vec<String>) -> (a: Ast)
        ensures
            a.output_dir@ == output_dir@,
            a.base_name@ == base_name@,
            a.types == types,
    {
        Ast { output_dir: output_dir.clone(), base_name: base_name.to_owned(), types }
    }
}

/// Pretty-printer over the expression tree; the visitor methods and
/// [`AstPrinter::print`] all render as [`print_expr`] describes.
pub struct AstPrinter;

impl ExprVisitor<String> for AstPrinter {
    fn visit_binary(&mut self, expr: &BinaryExpr) -> String {
        let mut r = String::new();
        push_str(&mut r, "(");
        push_str(&mut r, kind_str(expr.operator));
        push_str(&mut r, " ");
        let left = render(&*expr.left);
        push_str(&mut r, left.as_str());
        push_str(&mut r, " ");
        let right = render(&*expr.right);
        push_str(&mut r, right.as_str());
        push_str(&mut r, ")");
        r
    }

    fn visit_grouping(&mut self, expr: &GroupingExpr) -> String {
        let mut r = String::new();
        push_str(&mut r, "(group ");
        let inner = render(&*expr.expression);
        push_str(&mut r, inner.as_str());
        push_str(&mut r, ")");
        r
    }

    fn visit_literal(&mut self, expr: &LiteralExpr) -> String {
        expr.value.clone()
    }

    fn visit_unary(&mut self, expr: &UnaryExpr) -> String {
        let mut r = String::new();
        push_str(&mut r, "(");
        push_str(&mut r, kind_str(expr.operator));
        push_str(&mut r, " ");
        let right = render(&*expr.right);
        push_str(&mut r, right.as_str());
        push_str(&mut r, ")");
        r
    }
}

impl AstPrinter {
    /// Renders the expression in fully parenthesized prefix form, exactly as
    /// [`print_expr`] describes.
    pub fn print(&mut self, expr: &Expr) -> (r: String)
        ensures
            r@ == print_expr(*expr),
    {
        render(expr)
    }
}

} // verus!
