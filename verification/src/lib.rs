//! Lexical analysis for a small dynamic scripting language.
//!
//! The scanner makes one left-to-right pass over a pre-decoded character
//! buffer and produces a sequence of classified tokens terminated by a single
//! EOF sentinel, together with a list of recoverable diagnostics and an
//! aggregate error flag.  The executable scanner is verified against a
//! functional model of the pass (`scan_spec::scan`), so the token list,
//! the diagnostics and the error flag are pinned down as a function of the
//! source text alone.

pub mod ast_printer;
pub mod expr;
pub mod scan_spec;
pub mod scanner;
pub mod tokens;

pub use ast_printer::{Ast, AstPrinter};
pub use expr::{BinaryExpr, Expr, ExprVisitor, GroupingExpr, LiteralExpr, UnaryExpr};
pub use scanner::Scanner;
pub use tokens::{Diagnostic, Token, TokenType};
