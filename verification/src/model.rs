//! The mathematical model of the rendered text.
//!
//! Every printer's contract states that its output equals one of these
//! `Seq<char>` functions.  The definitions mirror the layout rules: what a
//! construct renders as is written here once, and the executable printers
//! are proved to produce exactly this text.

use vstd::prelude::*;

use crate::ast::ArrayExpression;
use crate::ast::ArrayRangeExpression;
use crate::ast::BinaryExpression;
use crate::ast::BinaryOperator;
use crate::ast::BinaryPart;
use crate::ast::BodyItem;
use crate::ast::CallExpression;
use crate::ast::CallExpressionKw;
use crate::ast::CommentStyle;
use crate::ast::DefaultParamVal;
use crate::ast::ElseIf;
use crate::ast::Expr;
use crate::ast::FnArgType;
use crate::ast::FunctionExpression;
use crate::ast::IfExpression;
use crate::ast::ImportItem;
use crate::ast::ImportSelector;
use crate::ast::ImportStatement;
use crate::ast::ItemVisibility;
use crate::ast::LabeledArg;
use crate::ast::Literal;
use crate::ast::LiteralIdentifier;
use crate::ast::LiteralValue;
use crate::ast::MemberExpression;
use crate::ast::MemberObject;
use crate::ast::NonCodeMeta;
use crate::ast::NonCodeNode;
use crate::ast::NonCodeValue;
use crate::ast::ObjectExpression;
use crate::ast::ObjectProperty;
use crate::ast::Parameter;
use crate::ast::PipeExpression;
use crate::ast::Program;
use crate::ast::UnaryExpression;
use crate::ast::UnaryOperator;
use crate::ast::VariableDeclaration;
use crate::ast::VariableKind;
use crate::ast::array_num_items;
use crate::ast::non_slots_below;
use crate::ast::object_num_items;
use crate::ast::slot_pos;
use crate::options::FormatOptions;
use crate::options::indentation;
use crate::options::indentation_offset_pipe;
use crate::text::strip_comma_space;
use crate::text::strip_one_space;
use crate::text::trim;
use crate::text::trim_end_newlines;
use crate::text::trim_front;

verus! {

/// The context a sub-expression is rendered in: a pipeline stage, the
/// right-hand side of a declaration, or anything else.
#[derive(Clone, Copy, PartialEq, Eq, Structural)]
pub enum ExprContext {
    Pipe,
    Decl,
    Other,
}

/// Flat arrays and objects longer than this many characters wrap to one
/// line per item.
pub const MAX_FLAT_LEN: usize = 40;

/// The next deeper indentation level (saturating at the machine limit).
pub open spec fn next_level(level: int) -> int {
    if level < usize::MAX {
        level + 1
    } else {
        level
    }
}

/// Binding strength of a binary operator; parents wrap strictly
/// weaker-binding children in parentheses.
pub open spec fn spec_precedence(op: BinaryOperator) -> u8 {
    match op {
        BinaryOperator::Pow => 13,
        BinaryOperator::Mul => 12,
        BinaryOperator::Div => 12,
        BinaryOperator::Mod => 12,
        BinaryOperator::Add => 11,
        BinaryOperator::Sub => 11,
        BinaryOperator::Gt => 9,
        BinaryOperator::Gte => 9,
        BinaryOperator::Lt => 9,
        BinaryOperator::Lte => 9,
        BinaryOperator::Eq => 8,
        BinaryOperator::Neq => 8,
    }
}

/// The symbol of a binary operator.
pub open spec fn binary_op_text(op: BinaryOperator) -> Seq<char> {
    match op {
        BinaryOperator::Add => "+"@,
        BinaryOperator::Sub => "-"@,
        BinaryOperator::Mul => "*"@,
        BinaryOperator::Div => "/"@,
        BinaryOperator::Mod => "%"@,
        BinaryOperator::Pow => "^"@,
        BinaryOperator::Eq => "=="@,
        BinaryOperator::Neq => "!="@,
        BinaryOperator::Gt => ">"@,
        BinaryOperator::Gte => ">="@,
        BinaryOperator::Lt => "<"@,
        BinaryOperator::Lte => "<="@,
    }
}

/// The symbol of a unary operator.
pub open spec fn unary_op_text(op: UnaryOperator) -> Seq<char> {
    match op {
        UnaryOperator::Neg => "-"@,
        UnaryOperator::Not => "!"@,
    }
}

/// A literal's rendering: numbers with a decimal point but no fractional
/// remainder take their canonical form, strings keep their original quote
/// character, and everything else keeps its raw spelling.
pub open spec fn literal_text(l: Literal) -> Seq<char> {
    match l.value {
        LiteralValue::Number { integral, canonical } => {
            if l.raw@.contains('.') && integral {
                canonical@
            } else {
                l.raw@
            }
        },
        LiteralValue::Str(s) => {
            if trim(l.raw@).len() > 0 && trim(l.raw@)[0] == '"' {
                "\""@ + s@ + "\""@
            } else {
                "'"@ + s@ + "'"@
            }
        },
        LiteralValue::Bool(_) => l.raw@,
    }
}

/// A tag declarator always carries a dollar-sign prefix.
pub open spec fn tag_text(name: Seq<char>) -> Seq<char> {
    "$"@ + name
}

/// A member access renders its chain left-to-right with `.name` or
/// bracketed suffixes.
pub open spec fn member_text(m: MemberExpression) -> Seq<char>
    decreases m,
{
    let key = match m.property {
        LiteralIdentifier::Identifier(id) => {
            if m.computed {
                "["@ + id.name@ + "]"@
            } else {
                "."@ + id.name@
            }
        },
        LiteralIdentifier::Literal(lit) => "["@ + lit.raw@ + "]"@,
    };
    match m.object {
        MemberObject::MemberExpression(sub) => member_text(*sub) + key,
        MemberObject::Identifier(id) => id.name@ + key,
    }
}

/// Whether an expression is syntactically trivial (a bare literal,
/// identifier, tag, or pipe placeholder).
pub open spec fn expr_is_trivial_spec(e: Expr) -> bool {
    match e {
        Expr::Literal(_) => true,
        Expr::Identifier(_) => true,
        Expr::TagDeclarator(_) => true,
        Expr::PipeSubstitution => true,
        Expr::NoValue => true,
        _ => false,
    }
}

/// Whether a trivia kind forces its surrounding array or object onto
/// multiple lines.  Only an inline trailing comment does not.
pub open spec fn forces_multi_line(v: NonCodeValue) -> bool {
    match v {
        NonCodeValue::InlineComment { .. } => false,
        _ => true,
    }
}

/// Whether any trivia node in the slots forces multi-line rendering.
pub open spec fn meta_forces_multi_line(meta: NonCodeMeta) -> bool {
    exists|j: int, k: int|
        0 <= j < meta.non_code_nodes@.len() && 0 <= k < meta.non_code_nodes@[j].nodes@.len()
            && forces_multi_line(meta.non_code_nodes@[j].nodes@[k].value)
}

/// Concatenation of the first `n` text fragments.
pub open spec fn concat_texts_n(items: Seq<Seq<char>>, n: int) -> Seq<char>
    decreases n,
{
    if n <= 0 || n > items.len() {
        Seq::empty()
    } else {
        concat_texts_n(items, n - 1) + items[n - 1]
    }
}

/// Concatenation of a sequence of text fragments.
pub open spec fn concat_texts(items: Seq<Seq<char>>) -> Seq<char> {
    concat_texts_n(items, items.len() as int)
}

/// The first `n` fragments joined with a separator between consecutive
/// items.
pub open spec fn join_texts_n(items: Seq<Seq<char>>, sep: Seq<char>, n: int) -> Seq<char>
    decreases n,
{
    if n <= 0 || n > items.len() {
        Seq::empty()
    } else if n == 1 {
        items[0]
    } else {
        join_texts_n(items, sep, n - 1) + sep + items[n - 1]
    }
}

/// Fragments joined with a separator between consecutive items.
pub open spec fn join_texts(items: Seq<Seq<char>>, sep: Seq<char>) -> Seq<char> {
    join_texts_n(items, sep, items.len() as int)
}

/// The trivia items of an interleaved container rendered one line each:
/// each item indented, stripped of one trailing space, and closed with a
/// newline unless it brings its own.
pub open spec fn item_lines_text(items: Seq<Seq<char>>, inner: Seq<char>, n: int) -> Seq<char>
    decreases n,
{
    if n <= 0 || n > items.len() {
        Seq::empty()
    } else {
        let s = items[n - 1];
        item_lines_text(items, inner, n - 1) + inner + strip_one_space(s) + (
        if s.len() > 0 && s.last() == '\n' {
            Seq::<char>::empty()
        } else {
            "\n"@
        })
    }
}

/// One trivia node's rendering.
pub open spec fn trivia_text(nd: NonCodeNode, opts: FormatOptions, level: int) -> Seq<char>
    decreases nd, 1int,
{
    let ind = indentation(opts, level);
    match nd.value {
        NonCodeValue::InlineComment { value, style: CommentStyle::Line } => {
            " // "@ + value@ + "\n"@
        },
        NonCodeValue::InlineComment { value, style: CommentStyle::Block } => {
            " /* "@ + value@ + " */"@
        },
        NonCodeValue::BlockComment { value, style: CommentStyle::Block } => {
            ind + "/* "@ + value@ + " */"@
        },
        NonCodeValue::BlockComment { value, style: CommentStyle::Line } => {
            if trim(value@).len() == 0 {
                ind + "//\n"@
            } else {
                ind + "// "@ + trim(value@) + "\n"@
            }
        },
        NonCodeValue::NewLineBlockComment { value, style } => {
            let prefix = if nd.start == 0 {
                Seq::<char>::empty()
            } else {
                "\n\n"@
            };
            match style {
                CommentStyle::Block => prefix + ind + "/* "@ + value@ + " */\n"@,
                CommentStyle::Line => {
                    if trim(value@).len() == 0 {
                        prefix + ind + "//\n"@
                    } else {
                        prefix + ind + "// "@ + trim(value@) + "\n"@
                    }
                },
            }
        },
        NonCodeValue::NewLine => "\n\n"@,
        NonCodeValue::Annotation { name, properties } => {
            "@"@ + name.name@ + (match properties {
                Some(props) => "("@ + annotation_props_text(
                    props@,
                    opts,
                    level,
                    props@.len() as int,
                ) + ")\n"@,
                None => Seq::<char>::empty(),
            })
        },
    }
}

/// Annotation properties joined with `", "`, each `key = value`.
pub open spec fn annotation_props_text(
    props: Seq<ObjectProperty>,
    opts: FormatOptions,
    level: int,
    n: int,
) -> Seq<char>
    decreases props, n,
{
    if n <= 0 || n > props.len() {
        Seq::empty()
    } else {
        annotation_props_text(props, opts, level, n - 1) + (if n - 1 > 0 {
            ", "@
        } else {
            Seq::<char>::empty()
        }) + props[n - 1].key.name@ + " = "@ + trim(
            expr_text(props[n - 1].value, opts, next_level(level), ExprContext::Other),
        )
    }
}

/// Names in an import list joined with `", "`, eliding an alias equal to
/// the name itself.
pub open spec fn import_items_text(items: Seq<ImportItem>, n: int) -> Seq<char>
    decreases n,
{
    if n <= 0 || n > items.len() {
        Seq::empty()
    } else {
        import_items_text(items, n - 1) + (if n - 1 > 0 {
            ", "@
        } else {
            Seq::<char>::empty()
        }) + items[n - 1].name.name@ + (match items[n - 1].alias {
            Some(alias) => {
                if items[n - 1].name.name@ != alias.name@ {
                    " as "@ + alias.name@
                } else {
                    Seq::<char>::empty()
                }
            },
            None => Seq::<char>::empty(),
        })
    }
}

/// An import statement's rendering.
pub open spec fn import_text(st: ImportStatement, opts: FormatOptions, level: int) -> Seq<char> {
    let vis = if st.visibility is Export {
        "export "@
    } else {
        Seq::<char>::empty()
    };
    let mid = match st.selector {
        ImportSelector::List { items } => import_items_text(items@, items@.len() as int)
            + " from "@,
        ImportSelector::Glob => "* from "@,
        ImportSelector::Module { .. } => Seq::<char>::empty(),
    };
    let tail = match st.selector {
        ImportSelector::Module { alias: Some(alias) } => " as "@ + alias.name@,
        _ => Seq::<char>::empty(),
    };
    vis + indentation(opts, level) + "import "@ + mid + "\""@ + st.path@ + "\""@ + tail
}

/// An expression's rendering.  Declaration context resets to `Other` for
/// the expression itself; pipeline context is preserved downward.
pub open spec fn expr_text(e: Expr, opts: FormatOptions, level: int, ctxt: ExprContext) -> Seq<
    char,
>
    decreases e, 1int,
{
    let is_decl = ctxt is Decl;
    let inner = if is_decl {
        ExprContext::Other
    } else {
        ctxt
    };
    match e {
        Expr::Literal(l) => literal_text(*l),
        Expr::Identifier(id) => id.name@,
        Expr::TagDeclarator(t) => tag_text(t.name@),
        Expr::BinaryExpression(b) => binary_expr_text(*b, opts),
        Expr::FunctionExpression(f) => (if is_decl {
            Seq::<char>::empty()
        } else {
            "fn"@
        }) + fn_expr_text(*f, opts, level),
        Expr::CallExpression(c) => call_text(*c, opts, level, inner),
        Expr::CallExpressionKw(c) => call_kw_text(*c, opts, level, inner),
        Expr::PipeExpression(pe) => pipe_text(*pe, opts, level),
        Expr::PipeSubstitution => "%"@,
        Expr::ArrayExpression(a) => array_text(*a, opts, level, inner),
        Expr::ArrayRangeExpression(r) => range_text(*r, opts),
        Expr::ObjectExpression(o) => object_text(*o, opts, level, inner),
        Expr::MemberExpression(m) => member_text(*m),
        Expr::UnaryExpression(u) => unary_text(*u, opts),
        Expr::IfExpression(ife) => if_text(*ife, opts, level, inner),
        Expr::LabelledExpression(l) => expr_text(l.expr, opts, level, inner) + " as "@
            + l.label.name@,
        Expr::NoValue => Seq::empty(),
    }
}

/// A binary operand's rendering.
pub open spec fn binary_part_text(p: BinaryPart, opts: FormatOptions, level: int) -> Seq<char>
    decreases p, 1int,
{
    match p {
        BinaryPart::Literal(l) => literal_text(*l),
        BinaryPart::Identifier(id) => id.name@,
        BinaryPart::BinaryExpression(b) => binary_expr_text(*b, opts),
        BinaryPart::CallExpression(c) => call_text(*c, opts, level, ExprContext::Other),
        BinaryPart::CallExpressionKw(c) => call_kw_text(*c, opts, level, ExprContext::Other),
        BinaryPart::UnaryExpression(u) => unary_text(*u, opts),
        BinaryPart::MemberExpression(m) => member_text(*m),
        BinaryPart::IfExpression(ife) => if_text(*ife, opts, level, ExprContext::Other),
    }
}

/// Whether the left operand is wrapped in parentheses: only when it binds
/// strictly weaker than the parent.
pub open spec fn wraps_left(b: BinaryExpression) -> bool {
    match b.left {
        BinaryPart::BinaryExpression(sub) => spec_precedence(b.operator) > spec_precedence(
            sub.operator,
        ),
        _ => false,
    }
}

/// Whether the right operand is wrapped in parentheses: when it binds
/// strictly weaker than the parent, or the parent is subtraction or
/// division, whose left-associativity would otherwise be misread.
pub open spec fn wraps_right(b: BinaryExpression) -> bool {
    match b.right {
        BinaryPart::BinaryExpression(sub) => spec_precedence(b.operator) > spec_precedence(
            sub.operator,
        ) || b.operator is Sub || b.operator is Div,
        _ => false,
    }
}

/// A binary expression's rendering.
pub open spec fn binary_expr_text(b: BinaryExpression, opts: FormatOptions) -> Seq<char>
    decreases b, 2int,
{
    let lt = binary_part_text(b.left, opts, 0);
    let rt = binary_part_text(b.right, opts, 0);
    let lw = if wraps_left(b) {
        "("@ + lt + ")"@
    } else {
        lt
    };
    let rw = if wraps_right(b) {
        "("@ + rt + ")"@
    } else {
        rt
    };
    lw + " "@ + binary_op_text(b.operator) + " "@ + rw
}

/// A unary expression's rendering: the operand is parenthesized only when
/// it is itself a binary or unary expression.
pub open spec fn unary_text(u: UnaryExpression, opts: FormatOptions) -> Seq<char>
    decreases u, 2int,
{
    let arg = binary_part_text(u.argument, opts, 0);
    match u.argument {
        BinaryPart::BinaryExpression(_) => unary_op_text(u.operator) + "("@ + arg + ")"@,
        BinaryPart::UnaryExpression(_) => unary_op_text(u.operator) + "("@ + arg + ")"@,
        _ => unary_op_text(u.operator) + arg,
    }
}

/// Positional call arguments joined with `", "`.
pub open spec fn call_args_text(
    args: Seq<Expr>,
    opts: FormatOptions,
    level: int,
    ctxt: ExprContext,
    n: int,
) -> Seq<char>
    decreases args, n,
{
    if n <= 0 || n > args.len() {
        Seq::empty()
    } else {
        call_args_text(args, opts, level, ctxt, n - 1) + (if n - 1 > 0 {
            ", "@
        } else {
            Seq::<char>::empty()
        }) + expr_text(args[n - 1], opts, level, ctxt)
    }
}

/// A positional call's rendering; a pipeline stage carries no indentation
/// of its own.
pub open spec fn call_text(c: CallExpression, opts: FormatOptions, level: int, ctxt: ExprContext) -> Seq<
    char,
>
    decreases c, 2int,
{
    (if ctxt is Pipe {
        Seq::<char>::empty()
    } else {
        indentation(opts, level)
    }) + c.callee.name@ + "("@ + call_args_text(
        c.arguments@,
        opts,
        level,
        ctxt,
        c.arguments@.len() as int,
    ) + ")"@
}

/// Labelled call arguments, each `label = value`, joined with `", "`;
/// `lead` says whether an unlabelled first argument precedes them.
pub open spec fn labeled_args_text(
    args: Seq<LabeledArg>,
    opts: FormatOptions,
    level: int,
    ctxt: ExprContext,
    n: int,
    lead: bool,
) -> Seq<char>
    decreases args, n,
{
    if n <= 0 || n > args.len() {
        Seq::empty()
    } else {
        labeled_args_text(args, opts, level, ctxt, n - 1, lead) + (if n - 1 > 0 || lead {
            ", "@
        } else {
            Seq::<char>::empty()
        }) + args[n - 1].label.name@ + " = "@ + expr_text(args[n - 1].arg, opts, level, ctxt)
    }
}

/// A keyword call's rendering.
pub open spec fn call_kw_text(
    c: CallExpressionKw,
    opts: FormatOptions,
    level: int,
    ctxt: ExprContext,
) -> Seq<char>
    decreases c, 2int,
{
    let args = match c.unlabeled {
        Some(u) => expr_text(u, opts, level, ctxt) + labeled_args_text(
            c.arguments@,
            opts,
            level,
            ctxt,
            c.arguments@.len() as int,
            true,
        ),
        None => labeled_args_text(
            c.arguments@,
            opts,
            level,
            ctxt,
            c.arguments@.len() as int,
            false,
        ),
    };
    (if ctxt is Pipe {
        Seq::<char>::empty()
    } else {
        indentation(opts, level)
    }) + c.callee.name@ + "("@ + args + ")"@
}

/// A declaration's rendering: `export`, the keyword, the name, and the
/// trimmed initializer.
pub open spec fn var_decl_text(vd: VariableDeclaration, opts: FormatOptions, level: int) -> Seq<
    char,
>
    decreases vd, 2int,
{
    let vis = if vd.visibility is Export {
        "export "@
    } else {
        Seq::<char>::empty()
    };
    let keyword = if vd.kind is Fn {
        "fn "@
    } else {
        Seq::<char>::empty()
    };
    let eq = if vd.kind is Fn {
        Seq::<char>::empty()
    } else {
        " = "@
    };
    vis + indentation(opts, level) + keyword + vd.declaration.id.name@ + eq + trim(
        expr_text(vd.declaration.init, opts, level, ExprContext::Decl),
    )
}

/// A range's rendering: spaces surround `..` only when an endpoint is a
/// compound expression.
pub open spec fn range_text(r: ArrayRangeExpression, opts: FormatOptions) -> Seq<char>
    decreases r, 2int,
{
    let s1 = expr_text(r.start_element, opts, 0, ExprContext::Other);
    let s2 = expr_text(r.end_element, opts, 0, ExprContext::Other);
    if expr_is_trivial_spec(r.start_element) && expr_is_trivial_spec(r.end_element) {
        "["@ + s1 + ".."@ + s2 + "]"@
    } else {
        "["@ + s1 + " .. "@ + s2 + "]"@
    }
}

/// The interleaved items of an array, rendered: positions `0..n`, each a
/// trivia node's text or an element followed by `", "`.
pub open spec fn array_items_text(a: ArrayExpression, opts: FormatOptions, n: int) -> Seq<
    Seq<char>,
>
    decreases a, n,
{
    if n <= 0 {
        Seq::empty()
    } else {
        array_items_text(a, opts, n - 1).push(array_item_text(a, opts, n - 1))
    }
}

/// The text of interleaved position `k` of an array.
pub open spec fn array_item_text(a: ArrayExpression, opts: FormatOptions, k: int) -> Seq<char>
    decreases a, k,
{
    match slot_pos(a.non_code_meta, k) {
        Some(j) => {
            if 0 <= j < a.non_code_meta.non_code_nodes@.len()
                && a.non_code_meta.non_code_nodes@[j].nodes@.len() > 0 {
                trivia_text(a.non_code_meta.non_code_nodes@[j].nodes@[0], opts, 0)
            } else {
                Seq::empty()
            }
        },
        None => {
            let e = non_slots_below(a.non_code_meta, k);
            (if 0 <= e < a.elements@.len() {
                expr_text(a.elements@[e], opts, 0, ExprContext::Other)
            } else {
                Seq::<char>::empty()
            }) + ", "@
        },
    }
}

/// The items with the final `", "` stripped from the last one.
pub open spec fn closed_items(items: Seq<Seq<char>>) -> Seq<Seq<char>> {
    if items.len() > 0 {
        items.update(items.len() - 1, strip_comma_space(items.last()))
    } else {
        items
    }
}

/// An array's rendering: the flat form when it is short enough and no
/// trivia forces wrapping, else one item per line.
pub open spec fn array_text(a: ArrayExpression, opts: FormatOptions, level: int, ctxt: ExprContext) -> Seq<
    char,
>
    decreases a, array_num_items(a) + 1,
{
    let items = closed_items(array_items_text(a, opts, array_num_items(a) as int));
    let flat = "["@ + concat_texts(items) + "]"@;
    if flat.len() <= MAX_FLAT_LEN && !meta_forces_multi_line(a.non_code_meta) {
        flat
    } else {
        let inner = if ctxt is Pipe {
            indentation_offset_pipe(opts, next_level(level))
        } else {
            indentation(opts, next_level(level))
        };
        let endi = if ctxt is Pipe {
            indentation_offset_pipe(opts, level)
        } else {
            indentation(opts, level)
        };
        "[\n"@ + item_lines_text(items, inner, items.len() as int) + endi + "]"@
    }
}

/// Object properties joined flat: `key = value` pairs with `", "`.
pub open spec fn object_props_flat_text(
    props: Seq<ObjectProperty>,
    opts: FormatOptions,
    level: int,
    ctxt: ExprContext,
    n: int,
) -> Seq<char>
    decreases props, n,
{
    if n <= 0 || n > props.len() {
        Seq::empty()
    } else {
        object_props_flat_text(props, opts, level, ctxt, n - 1) + (if n - 1 > 0 {
            ", "@
        } else {
            Seq::<char>::empty()
        }) + props[n - 1].key.name@ + " = "@ + trim(
            expr_text(props[n - 1].value, opts, next_level(level), ctxt),
        )
    }
}

/// The interleaved items of an object's multi-line form.
pub open spec fn object_items_text(
    o: ObjectExpression,
    opts: FormatOptions,
    level: int,
    ctxt: ExprContext,
    n: int,
) -> Seq<Seq<char>>
    decreases o, n,
{
    if n <= 0 {
        Seq::empty()
    } else {
        object_items_text(o, opts, level, ctxt, n - 1).push(object_item_text(o, opts, level, ctxt, n - 1))
    }
}

/// The text of interleaved position `k` of an object's multi-line form:
/// a trivia node's text, or `key = value` with a separating comma unless
/// it is the final position.
pub open spec fn object_item_text(
    o: ObjectExpression,
    opts: FormatOptions,
    level: int,
    ctxt: ExprContext,
    k: int,
) -> Seq<char>
    decreases o, k,
{
    match slot_pos(o.non_code_meta, k) {
        Some(j) => {
            if 0 <= j < o.non_code_meta.non_code_nodes@.len()
                && o.non_code_meta.non_code_nodes@[j].nodes@.len() > 0 {
                trivia_text(o.non_code_meta.non_code_nodes@[j].nodes@[0], opts, 0)
            } else {
                Seq::empty()
            }
        },
        None => {
            let e = non_slots_below(o.non_code_meta, k);
            (if 0 <= e < o.properties@.len() {
                o.properties@[e].key.name@ + " = "@ + trim(
                    expr_text(o.properties@[e].value, opts, next_level(level), ctxt),
                )
            } else {
                Seq::<char>::empty()
            }) + (if k == object_num_items(o) - 1 {
                Seq::<char>::empty()
            } else {
                ",\n"@
            })
        },
    }
}

/// An object's multi-line rendering: one item per line, the container's
/// own indentation closing it.
pub open spec fn object_multi_text(
    o: ObjectExpression,
    opts: FormatOptions,
    level: int,
    ctxt: ExprContext,
) -> Seq<char>
    decreases o, object_num_items(o) + 1,
{
    let inner = if ctxt is Pipe {
        indentation_offset_pipe(opts, next_level(level))
    } else {
        indentation(opts, next_level(level))
    };
    let endi = if ctxt is Pipe {
        indentation_offset_pipe(opts, level)
    } else {
        indentation(opts, level)
    };
    let items = object_items_text(o, opts, level, ctxt, object_num_items(o) as int);
    "{\n"@ + inner + join_texts(items, inner) + "\n"@ + endi + "}"@
}

/// An object's rendering: forced multi-line by trivia, else flat when
/// short enough.
pub open spec fn object_text(
    o: ObjectExpression,
    opts: FormatOptions,
    level: int,
    ctxt: ExprContext,
) -> Seq<char>
    decreases o, object_num_items(o) + 2,
{
    if meta_forces_multi_line(o.non_code_meta) {
        object_multi_text(o, opts, level, ctxt)
    } else {
        let flat = "{ "@ + object_props_flat_text(
            o.properties@,
            opts,
            level,
            ctxt,
            o.properties@.len() as int,
        ) + " }"@;
        if flat.len() > MAX_FLAT_LEN {
            object_multi_text(o, opts, level, ctxt)
        } else {
            flat
        }
    }
}

/// The `else if` arms of a conditional, one per pair of lines.
pub open spec fn else_ifs_text(
    eifs: Seq<ElseIf>,
    opts: FormatOptions,
    level: int,
    ctxt: ExprContext,
    n: int,
) -> Seq<char>
    decreases eifs, n,
{
    if n <= 0 || n > eifs.len() {
        Seq::empty()
    } else {
        else_ifs_text(eifs, opts, level, ctxt, n - 1) + "\n"@ + indentation(opts, level) + trim(
            "} else if "@ + expr_text(eifs[n - 1].cond, opts, level, ctxt) + " {"@,
        ) + "\n"@ + indentation(opts, next_level(level)) + trim(
            program_text(eifs[n - 1].then_val, opts, next_level(level)),
        )
    }
}

/// A conditional's rendering: a fixed-shape multi-line block.
pub open spec fn if_text(ife: IfExpression, opts: FormatOptions, level: int, ctxt: ExprContext) -> Seq<
    char,
>
    decreases ife, ife.else_ifs@.len() + 2,
{
    indentation(opts, level) + trim("if "@ + expr_text(*ife.cond, opts, level, ctxt) + " {"@)
        + "\n"@ + indentation(opts, next_level(level)) + trim(
        program_text(*ife.then_val, opts, next_level(level)),
    ) + else_ifs_text(ife.else_ifs@, opts, level, ctxt, ife.else_ifs@.len() as int) + "\n"@
        + indentation(opts, level) + "} else {"@ + "\n"@ + indentation(opts, next_level(level))
        + trim(program_text(*ife.final_else, opts, next_level(level))) + "\n"@ + indentation(
        opts,
        level,
    ) + "}"@
}

/// Function parameters joined with `", "`.
pub open spec fn params_text(params: Seq<Parameter>, opts: FormatOptions, level: int, n: int) -> Seq<
    char,
>
    decreases params, n,
{
    if n <= 0 || n > params.len() {
        Seq::empty()
    } else {
        params_text(params, opts, level, n - 1) + (if n - 1 > 0 {
            ", "@
        } else {
            Seq::<char>::empty()
        }) + param_text(params[n - 1], opts, level)
    }
}

/// One parameter's rendering: optional `@`, the name, optional `?`,
/// optional type, optional literal default.
pub open spec fn param_text(p: Parameter, opts: FormatOptions, level: int) -> Seq<char>
    decreases p, 2int,
{
    (if p.labeled {
        Seq::<char>::empty()
    } else {
        "@"@
    }) + p.identifier.name@ + (if p.default_value is Some {
        "?"@
    } else {
        Seq::<char>::empty()
    }) + (match p.type_ {
        Some(t) => ": "@ + fn_arg_type_text(t, opts, level),
        None => Seq::<char>::empty(),
    }) + (match p.default_value {
        Some(DefaultParamVal::Literal(lit)) => " = "@ + literal_text(lit),
        _ => Seq::<char>::empty(),
    })
}

/// The fields of an object type, each ` name: type,`.
pub open spec fn fn_arg_object_text(
    props: Seq<Parameter>,
    opts: FormatOptions,
    level: int,
    n: int,
) -> Seq<char>
    decreases props, n,
{
    if n <= 0 || n > props.len() {
        Seq::empty()
    } else {
        fn_arg_object_text(props, opts, level, n - 1) + " "@ + param_text(
            props[n - 1],
            opts,
            level,
        ) + ","@
    }
}

/// A type annotation's rendering.
pub open spec fn fn_arg_type_text(t: FnArgType, opts: FormatOptions, level: int) -> Seq<char>
    decreases t, 3int,
{
    match t {
        FnArgType::Primitive(name) => name@,
        FnArgType::Array(name) => name@ + "[]"@,
        FnArgType::Object { properties } => {
            let body = fn_arg_object_text(properties@, opts, level, properties@.len() as int);
            "{"@ + (if body.len() > 0 && body.last() == ',' {
                body.drop_last() + " "@
            } else {
                body
            }) + "}"@
        },
    }
}

/// A function literal's rendering; its body never ends with a blank
/// trailing line, whatever the surrounding options say.
pub open spec fn fn_expr_text(f: FunctionExpression, opts: FormatOptions, level: int) -> Seq<char>
    decreases f, f.params@.len() + 2,
{
    let body_opts = FormatOptions { insert_final_newline: false, ..opts };
    let ret = match f.return_type {
        Some(t) => ": "@ + fn_arg_type_text(t, body_opts, level),
        None => Seq::<char>::empty(),
    };
    "("@ + params_text(f.params@, opts, level, f.params@.len() as int) + ")"@ + ret + " {\n"@
        + indentation(opts, next_level(level)) + program_text(f.body, body_opts, next_level(level))
        + "\n"@ + indentation(opts, level) + "}"@
}

/// The trivia attached after one pipeline stage: each node is rendered
/// without trailing newlines, aligned with the pipeline itself when its
/// end offset equals the pipeline's, and a standalone comment starts on a
/// fresh line.
pub open spec fn pipe_trivia_text(
    nodes: Seq<NonCodeNode>,
    pipe_end: usize,
    opts: FormatOptions,
    level: int,
    n: int,
) -> Seq<char>
    decreases nodes, n,
{
    if n <= 0 || n > nodes.len() {
        Seq::empty()
    } else {
        let nd = nodes[n - 1];
        let formatted = if nd.end == pipe_end {
            trim_end_newlines(trivia_text(nd, opts, level))
        } else {
            trim_end_newlines(trivia_text(nd, opts, next_level(level)))
        };
        pipe_trivia_text(nodes, pipe_end, opts, level, n - 1) + (if nd.value is BlockComment {
            "\n"@ + formatted
        } else {
            formatted
        })
    }
}

/// One pipeline stage: its text, its trailing trivia, and — before every
/// stage but the last — the line break, indentation and pipe token.
pub open spec fn pipe_stage_text(pe: PipeExpression, opts: FormatOptions, level: int, i: int) -> Seq<
    char,
>
    decreases pe, i,
{
    if i < 0 || i >= pe.body@.len() {
        Seq::empty()
    } else {
        expr_text(pe.body@[i], opts, next_level(level), ExprContext::Pipe) + (match slot_pos(
        pe.non_code_meta,
        i,
    ) {
        Some(j) => {
            if 0 <= j < pe.non_code_meta.non_code_nodes@.len() {
                pipe_trivia_text(
                    pe.non_code_meta.non_code_nodes@[j].nodes@,
                    pe.end,
                    opts,
                    level,
                    pe.non_code_meta.non_code_nodes@[j].nodes@.len() as int,
                )
            } else {
                Seq::<char>::empty()
            }
        },
        None => Seq::<char>::empty(),
    }) + (if i != pe.body@.len() - 1 {
        "\n"@ + indentation(opts, next_level(level)) + "|> "@
    } else {
        Seq::<char>::empty()
    })
    }
}

/// The stages of a pipeline, in order.
pub open spec fn pipe_stages_text(pe: PipeExpression, opts: FormatOptions, level: int, n: int) -> Seq<
    char,
>
    decreases pe, n,
{
    if n <= 0 || n > pe.body@.len() {
        Seq::empty()
    } else {
        pipe_stages_text(pe, opts, level, n - 1) + pipe_stage_text(pe, opts, level, n - 1)
    }
}

/// A pipeline's rendering.
pub open spec fn pipe_text(pe: PipeExpression, opts: FormatOptions, level: int) -> Seq<char>
    decreases pe, pe.body@.len() + 2,
{
    indentation(opts, level) + pipe_stages_text(pe, opts, level, pe.body@.len() as int)
}

/// One body item's rendering.
pub open spec fn body_item_text(it: BodyItem, opts: FormatOptions, level: int) -> Seq<char>
    decreases it, 3int,
{
    match it {
        BodyItem::ImportStatement(st) => import_text(st, opts, level),
        BodyItem::ExpressionStatement(st) => expr_text(
            st.expression,
            opts,
            level,
            ExprContext::Other,
        ),
        BodyItem::VariableDeclaration(vd) => var_decl_text(vd, opts, level),
        BodyItem::ReturnStatement(st) => indentation(opts, level) + "return "@ + trim_front(
            expr_text(st.argument, opts, level, ExprContext::Other),
        ),
    }
}

/// The trivia rendered before the first body item.
pub open spec fn start_nodes_text(
    nodes: Seq<NonCodeNode>,
    opts: FormatOptions,
    level: int,
    n: int,
) -> Seq<char>
    decreases nodes, n,
{
    if n <= 0 || n > nodes.len() {
        Seq::empty()
    } else {
        start_nodes_text(nodes, opts, level, n - 1) + trivia_text(nodes[n - 1], opts, level)
    }
}

/// The trivia run after a body item.  A standalone comment that opens the
/// run gets a fresh line before it.
pub open spec fn trivia_run_text(nodes: Seq<NonCodeNode>, opts: FormatOptions, level: int, n: int) -> Seq<
    char,
>
    decreases nodes, n,
{
    if n <= 0 || n > nodes.len() {
        Seq::empty()
    } else {
        let formatted = trivia_text(nodes[n - 1], opts, level);
        trivia_run_text(nodes, opts, level, n - 1) + (if n - 1 == 0 && trim(formatted).len() != 0
            && nodes[n - 1].value is BlockComment {
            "\n"@ + formatted
        } else {
            formatted
        })
    }
}

/// What precedes body item `i`: the indentation or the start trivia for
/// the first item, nothing for the rest.
pub open spec fn body_start_text(p: Program, opts: FormatOptions, level: int, i: int) -> Seq<char>
    decreases p, 1int,
{
    if i == 0 {
        if p.non_code_meta.start_nodes@.len() == 0 {
            indentation(opts, level)
        } else {
            start_nodes_text(
                p.non_code_meta.start_nodes@,
                opts,
                level,
                p.non_code_meta.start_nodes@.len() as int,
            )
        }
    } else {
        Seq::empty()
    }
}

/// What follows body item `i`: its trivia run if it renders non-empty,
/// else a line break — except after the last outermost item.
pub open spec fn body_end_text(p: Program, opts: FormatOptions, level: int, i: int) -> Seq<char>
    decreases p, 1int,
{
    let custom = match slot_pos(p.non_code_meta, i) {
        Some(j) => {
            if 0 <= j < p.non_code_meta.non_code_nodes@.len() {
                trivia_run_text(
                    p.non_code_meta.non_code_nodes@[j].nodes@,
                    opts,
                    level,
                    p.non_code_meta.non_code_nodes@[j].nodes@.len() as int,
                )
            } else {
                Seq::<char>::empty()
            }
        },
        None => Seq::<char>::empty(),
    };
    if custom.len() == 0 {
        if i == p.body@.len() - 1 && level == 0 {
            Seq::empty()
        } else {
            "\n"@
        }
    } else {
        custom
    }
}

/// The first `n` body items assembled with their surrounding trivia.
pub open spec fn body_fold_text(p: Program, opts: FormatOptions, level: int, n: int) -> Seq<char>
    decreases p, n + 1,
{
    if n <= 0 || n > p.body@.len() {
        Seq::empty()
    } else {
        body_fold_text(p, opts, level, n - 1) + body_start_text(p, opts, level, n - 1)
            + body_item_text(p.body@[n - 1], opts, level) + body_end_text(p, opts, level, n - 1)
    }
}

/// A whole program's rendering: the shebang with a forced blank line,
/// the assembled body trimmed of bordering whitespace, and the optional
/// final newline.  An empty program renders as the empty string.
pub open spec fn program_text(p: Program, opts: FormatOptions, level: int) -> Seq<char>
    decreases p, p.body@.len() + 2,
{
    let shebang = match p.shebang {
        Some(s) => s@ + "\n\n"@,
        None => Seq::<char>::empty(),
    };
    let trimmed = trim(shebang + body_fold_text(p, opts, level, p.body@.len() as int));
    if opts.insert_final_newline && trimmed.len() > 0 {
        trimmed + "\n"@
    } else {
        trimmed
    }
}


/// The interleaved array items are indexed by `array_item_text`.
pub proof fn lemma_array_items_index(a: ArrayExpression, opts: FormatOptions, n: int)
    requires
        n >= 0,
    ensures
        array_items_text(a, opts, n).len() == n,
        forall|k: int| 0 <= k < n ==> array_items_text(a, opts, n)[k] == array_item_text(a, opts, k),
    decreases n,
{
    if n > 0 {
        lemma_array_items_index(a, opts, n - 1);
    }
}

/// The interleaved object items are indexed by `object_item_text`.
pub proof fn lemma_object_items_index(
    o: ObjectExpression,
    opts: FormatOptions,
    level: int,
    ctxt: ExprContext,
    n: int,
)
    requires
        n >= 0,
    ensures
        object_items_text(o, opts, level, ctxt, n).len() == n,
        forall|k: int|
            0 <= k < n ==> object_items_text(o, opts, level, ctxt, n)[k] == object_item_text(
                o,
                opts,
                level,
                ctxt,
                k,
            ),
    decreases n,
{
    if n > 0 {
        lemma_object_items_index(o, opts, level, ctxt, n - 1);
    }
}

/// Stepping the interleave position: a code position raises the count of
/// code items seen by one, a trivia slot leaves it unchanged.
pub proof fn lemma_non_slots_step(meta: NonCodeMeta, i: int)
    requires
        crate::ast::meta_sorted(meta),
    ensures
        non_slots_below(meta, i + 1) == non_slots_below(meta, i) + (if slot_pos(meta, i) is Some {
            0int
        } else {
            1int
        }),
{
    assert forall|a: int, b: int|
        0 <= a < b < meta.non_code_nodes@.len() implies meta.non_code_nodes@[a].index
        != meta.non_code_nodes@[b].index by {}
    crate::ast::lemma_keys_below_step(meta.non_code_nodes@, 0, i);
}

/// The count of code positions never decreases with the bound.
pub proof fn lemma_non_slots_mono(meta: NonCodeMeta, i: int, j: int)
    requires
        crate::ast::meta_sorted(meta),
        i <= j,
    ensures
        non_slots_below(meta, i) <= non_slots_below(meta, j),
    decreases j - i,
{
    if i < j {
        lemma_non_slots_step(meta, j - 1);
        lemma_non_slots_mono(meta, i, j - 1);
    }
}

} // verus!
