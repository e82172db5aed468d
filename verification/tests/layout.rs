//! Layout checks on trees built directly, without a parser.

use kcl_recast::Program;
use kcl_recast::ast::ArrayExpression;
use kcl_recast::ast::BodyItem;
use kcl_recast::ast::CommentStyle;
use kcl_recast::ast::Expr;
use kcl_recast::ast::Identifier;
use kcl_recast::ast::ItemVisibility;
use kcl_recast::ast::Literal;
use kcl_recast::ast::LiteralValue;
use kcl_recast::ast::NonCodeMeta;
use kcl_recast::ast::NonCodeNode;
use kcl_recast::ast::NonCodeSlot;
use kcl_recast::ast::NonCodeValue;
use kcl_recast::ast::ObjectExpression;
use kcl_recast::ast::VariableDeclaration;
use kcl_recast::ast::VariableDeclarator;
use kcl_recast::ast::VariableKind;
use kcl_recast::model::ExprContext;
use kcl_recast::options::FormatOptions;

fn empty_meta() -> NonCodeMeta {
    NonCodeMeta { start_nodes: Vec::new(), non_code_nodes: Vec::new() }
}

fn int_lit(raw: &str) -> Expr {
    Expr::Literal(Box::new(Literal {
        value: LiteralValue::Number { integral: true, canonical: format!("{}.0", raw) },
        raw: raw.to_string(),
    }))
}

fn decl(name: &str, init: Expr) -> BodyItem {
    BodyItem::VariableDeclaration(VariableDeclaration {
        declaration: VariableDeclarator { id: Identifier { name: name.to_string() }, init },
        visibility: ItemVisibility::Default,
        kind: VariableKind::Const,
    })
}

#[test]
fn blank_line_marker_renders_one_blank_line() {
    let ast = kcl_recast::ast::Program {
        shebang: None,
        body: vec![decl("a", int_lit("1")), decl("b", int_lit("2"))],
        non_code_meta: NonCodeMeta {
            start_nodes: Vec::new(),
            non_code_nodes: vec![NonCodeSlot {
                index: 0,
                nodes: vec![NonCodeNode { value: NonCodeValue::NewLine, start: 5, end: 9 }],
            }],
        },
    };
    let program = Program { ast };
    assert_eq!(program.recast(), "a = 1\n\nb = 2\n");
}

#[test]
fn wrapper_entry_points_agree() {
    let ast = kcl_recast::ast::Program {
        shebang: None,
        body: vec![decl("a", int_lit("1"))],
        non_code_meta: empty_meta(),
    };
    let program = Program { ast };
    assert_eq!(program.recast(), "a = 1\n");
    let options =
        FormatOptions { tab_size: 2, use_tabs: false, insert_final_newline: false };
    assert_eq!(program.recast_with_options(&options), "a = 1");
}

#[test]
fn empty_object_renders_flat() {
    let obj = ObjectExpression { properties: Vec::new(), non_code_meta: empty_meta() };
    assert_eq!(obj.recast(&FormatOptions::default(), 0, ExprContext::Other), "{  }");
}

#[test]
fn array_forced_multi_line_by_comment() {
    let arr = ArrayExpression {
        elements: vec![int_lit("1"), int_lit("2")],
        non_code_meta: NonCodeMeta {
            start_nodes: Vec::new(),
            non_code_nodes: vec![NonCodeSlot {
                index: 1,
                nodes: vec![NonCodeNode {
                    value: NonCodeValue::BlockComment {
                        value: "note".to_string(),
                        style: CommentStyle::Line,
                    },
                    start: 4,
                    end: 10,
                }],
            }],
        },
    };
    assert_eq!(
        arr.recast(&FormatOptions::default(), 0, ExprContext::Other),
        "[\n  1,\n  // note\n  2\n]"
    );
}

#[test]
fn tabs_indent_nested_bodies() {
    let input_ast = kcl_recast::ast::Program {
        shebang: None,
        body: vec![BodyItem::VariableDeclaration(VariableDeclaration {
            declaration: VariableDeclarator {
                id: Identifier { name: "f".to_string() },
                init: Expr::FunctionExpression(Box::new(
                    kcl_recast::ast::FunctionExpression {
                        params: Vec::new(),
                        body: kcl_recast::ast::Program {
                            shebang: None,
                            body: vec![BodyItem::ReturnStatement(
                                kcl_recast::ast::ReturnStatement { argument: int_lit("1") },
                            )],
                            non_code_meta: empty_meta(),
                        },
                        return_type: None,
                    },
                )),
            },
            visibility: ItemVisibility::Default,
            kind: VariableKind::Fn,
        })],
        non_code_meta: empty_meta(),
    };
    let program = Program { ast: input_ast };
    let options = FormatOptions { tab_size: 2, use_tabs: true, insert_final_newline: true };
    assert_eq!(program.recast_with_options(&options), "fn f() {\n\treturn 1\n}\n");
}
