//! Behavior of the expression pretty-printer and the generation record.

use loxlex::{
    Ast, AstPrinter, BinaryExpr, Expr, GroupingExpr, LiteralExpr, TokenType, UnaryExpr,
};

#[test]
fn prints_nested_expression_in_prefix_form() {
    // -123 * (45.67)
    let expr = Expr::Binary(BinaryExpr {
        left: Box::new(Expr::Unary(UnaryExpr {
            operator: TokenType::MINUS,
            right: Box::new(Expr::Literal(LiteralExpr {
                value: "123".to_string(),
            })),
        })),
        operator: TokenType::STAR,
        right: Box::new(Expr::Grouping(GroupingExpr {
            expression: Box::new(Expr::Literal(LiteralExpr {
                value: "45.67".to_string(),
            })),
        })),
    });
    let mut printer = AstPrinter;
    assert_eq!(printer.print(&expr), "(STAR (MINUS 123) (group 45.67))");
}

#[test]
fn prints_literal_value_verbatim() {
    let expr = Expr::Literal(LiteralExpr {
        value: "nil".to_string(),
    });
    let mut printer = AstPrinter;
    assert_eq!(printer.print(&expr), "nil");
}

#[test]
fn visitor_dispatch_matches_direct_printing() {
    let expr = Expr::Unary(UnaryExpr {
        operator: TokenType::BANG,
        right: Box::new(Expr::Literal(LiteralExpr {
            value: "true".to_string(),
        })),
    });
    let mut printer = AstPrinter;
    let direct = printer.print(&expr);
    let via_visitor = expr.accept(&mut printer);
    assert_eq!(direct, "(BANG true)");
    assert_eq!(direct, via_visitor);
}

#[test]
fn ast_record_keeps_its_arguments() {
    let types = vec![
        "Binary   : Box<Expr> left, TokenType operator, Box<Expr> right".to_string(),
        "Grouping : Box<Expr> expression".to_string(),
    ];
    let out_dir = "out".to_string();
    let ast = Ast::new(&out_dir, "Expr", types.clone());
    assert_eq!(ast.output_dir, "out");
    assert_eq!(ast.base_name, "Expr");
    assert_eq!(ast.types, types);
}
