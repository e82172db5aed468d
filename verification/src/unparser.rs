//! The executable printers, each proved to produce exactly the text that
//! the model in `crate::model` assigns to its construct.

use vstd::prelude::*;
use vstd::string::StrSliceExecFns;
use vstd::string::StringExecFns;

use crate::ast::ArrayRangeExpression;
use crate::ast::BinaryExpression;
use crate::ast::BinaryOperator;
use crate::ast::BinaryPart;
use crate::ast::Expr;
use crate::ast::ImportItem;
use crate::ast::ImportSelector;
use crate::ast::ImportStatement;
use crate::ast::ItemVisibility;
use crate::ast::Literal;
use crate::ast::LiteralIdentifier;
use crate::ast::LiteralValue;
use crate::ast::MemberExpression;
use crate::ast::MemberObject;
use crate::ast::TagDeclarator;
use crate::ast::UnaryExpression;
use crate::ast::UnaryOperator;
use crate::ast::ArrayExpression;
use crate::ast::CallExpression;
use crate::ast::CallExpressionKw;
use crate::ast::BodyItem;
use crate::ast::CommentStyle;
use crate::ast::DefaultParamVal;
use crate::ast::FnArgType;
use crate::ast::FunctionExpression;
use crate::ast::IfExpression;
use crate::ast::Parameter;
use crate::ast::PipeExpression;
use crate::ast::Program;
use crate::ast::LabeledArg;
use crate::ast::NonCodeMeta;
use crate::ast::NonCodeNode;
use crate::ast::NonCodeValue;
use crate::ast::ObjectExpression;
use crate::ast::VariableDeclaration;
use crate::ast::VariableKind;
use crate::ast::binary_part_wf;
use crate::ast::expr_wf;
use crate::ast::array_num_items;
use crate::ast::body_item_wf;
use crate::ast::program_wf;
use crate::ast::lemma_keys_below_at_zero;
use crate::ast::lemma_slot_pos_valid;
use crate::ast::meta_interleave_wf;
use crate::ast::non_slots_below;
use crate::ast::object_num_items;
use crate::ast::slot_lookup;
use crate::ast::slot_pos;
use crate::ast::total_nodes;
use crate::ast::meta_wf;
use crate::ast::trivia_wf;
use crate::model::ExprContext;
use crate::model::MAX_FLAT_LEN;
use crate::model::annotation_props_text;
use crate::model::array_item_text;
use crate::model::array_items_text;
use crate::model::array_text;
use crate::model::closed_items;
use crate::model::concat_texts_n;
use crate::model::item_lines_text;
use crate::model::join_texts_n;
use crate::model::lemma_array_items_index;
use crate::model::lemma_non_slots_mono;
use crate::model::lemma_non_slots_step;
use crate::model::lemma_object_items_index;
use crate::model::object_item_text;
use crate::model::object_items_text;
use crate::model::object_multi_text;
use crate::model::object_props_flat_text;
use crate::model::object_text;
use crate::model::body_end_text;
use crate::model::body_fold_text;
use crate::model::body_item_text;
use crate::model::body_start_text;
use crate::model::else_ifs_text;
use crate::model::fn_arg_object_text;
use crate::model::fn_arg_type_text;
use crate::model::fn_expr_text;
use crate::model::if_text;
use crate::model::param_text;
use crate::model::params_text;
use crate::model::pipe_stage_text;
use crate::model::pipe_stages_text;
use crate::model::pipe_text;
use crate::model::pipe_trivia_text;
use crate::model::program_text;
use crate::model::start_nodes_text;
use crate::model::trivia_run_text;
use crate::model::binary_expr_text;
use crate::model::binary_part_text;
use crate::model::call_args_text;
use crate::model::call_kw_text;
use crate::model::call_text;
use crate::model::forces_multi_line;
use crate::model::labeled_args_text;
use crate::model::meta_forces_multi_line;
use crate::model::trivia_text;
use crate::model::var_decl_text;
use crate::model::binary_op_text;
use crate::model::expr_is_trivial_spec;
use crate::model::expr_text;
use crate::model::import_items_text;
use crate::model::import_text;
use crate::model::literal_text;
use crate::model::member_text;
use crate::model::next_level;
use crate::model::range_text;
use crate::model::spec_precedence;
use crate::model::tag_text;
use crate::model::unary_op_text;
use crate::model::unary_text;
use crate::model::wraps_left;
use crate::model::wraps_right;
use crate::options::FormatOptions;
use crate::options::indentation;
use crate::options::indentation_offset_pipe;
use crate::text::contains_char;
use crate::text::starts_with_char;
use crate::text::ends_with_char;
use crate::text::trim_end_newlines_str;
use crate::text::trim_start_str;
use crate::text::strip_comma_space_str;
use crate::text::strip_one_space_str;
use crate::text::trim_str;

verus! {

/// The next deeper indentation level, saturating at the machine limit.
pub fn bump(level: usize) -> (r: usize)
    ensures
        r as int == next_level(level as int),
{
    if level < usize::MAX {
        level + 1
    } else {
        level
    }
}

impl BinaryOperator {
    /// The operator's symbol.
    pub fn as_str(&self) -> (r: &'static str)
        ensures
            r@ == binary_op_text(*self),
    {
        match self {
            BinaryOperator::Add => "+",
            BinaryOperator::Sub => "-",
            BinaryOperator::Mul => "*",
            BinaryOperator::Div => "/",
            BinaryOperator::Mod => "%",
            BinaryOperator::Pow => "^",
            BinaryOperator::Eq => "==",
            BinaryOperator::Neq => "!=",
            BinaryOperator::Gt => ">",
            BinaryOperator::Gte => ">=",
            BinaryOperator::Lt => "<",
            BinaryOperator::Lte => "<=",
        }
    }

    /// The operator's binding strength.
    pub fn precedence(&self) -> (r: u8)
        ensures
            r == spec_precedence(*self),
    {
        match self {
            BinaryOperator::Pow => 13,
            BinaryOperator::Mul | BinaryOperator::Div | BinaryOperator::Mod => 12,
            BinaryOperator::Add | BinaryOperator::Sub => 11,
            BinaryOperator::Gt | BinaryOperator::Gte | BinaryOperator::Lt
                | BinaryOperator::Lte => 9,
            BinaryOperator::Eq | BinaryOperator::Neq => 8,
        }
    }
}

impl UnaryOperator {
    /// The operator's symbol.
    pub fn as_str(&self) -> (r: &'static str)
        ensures
            r@ == unary_op_text(*self),
    {
        match self {
            UnaryOperator::Neg => "-",
            UnaryOperator::Not => "!",
        }
    }
}

impl Literal {
    /// Renders the literal, preserving its raw spelling except that a
    /// pointed number without a fractional remainder takes its canonical
    /// decimal form.
    pub fn recast(&self) -> (r: String)
        ensures
            r@ == literal_text(*self),
    {
        match &self.value {
            LiteralValue::Number { integral, canonical } => {
                if contains_char(self.raw.as_str(), '.') && *integral {
                    canonical.clone()
                } else {
                    self.raw.clone()
                }
            },
            LiteralValue::Str(s) => {
                let trimmed = trim_str(self.raw.as_str());
                let mut out = String::new();
                if starts_with_char(trimmed.as_str(), '"') {
                    out.append("\"");
                    out.append(s.as_str());
                    out.append("\"");
                } else {
                    out.append("'");
                    out.append(s.as_str());
                    out.append("'");
                }
                proof {
                    assert(out@ =~= literal_text(*self));
                }
                out
            },
            LiteralValue::Bool(_) => self.raw.clone(),
        }
    }
}

impl TagDeclarator {
    /// A tag declarator, always prefixed with a dollar sign.
    pub fn recast(&self) -> (r: String)
        ensures
            r@ == tag_text(self.name@),
    {
        let mut out = String::new();
        out.append("$");
        out.append(self.name.as_str());
        proof {
            assert(out@ =~= tag_text(self.name@));
        }
        out
    }
}

impl MemberExpression {
    /// Renders the access chain left-to-right.
    pub fn recast(&self) -> (r: String)
        ensures
            r@ == member_text(*self),
        decreases *self,
    {
        let mut out = match &self.object {
            MemberObject::MemberExpression(sub) => sub.recast(),
            MemberObject::Identifier(id) => id.name.clone(),
        };
        match &self.property {
            LiteralIdentifier::Identifier(id) => {
                if self.computed {
                    out.append("[");
                    out.append(id.name.as_str());
                    out.append("]");
                } else {
                    out.append(".");
                    out.append(id.name.as_str());
                }
            },
            LiteralIdentifier::Literal(lit) => {
                out.append("[");
                out.append(lit.raw.as_str());
                out.append("]");
            },
        }
        proof {
            assert(out@ =~= member_text(*self));
        }
        out
    }
}

/// Whether the expression is syntactically trivial: a bare literal,
/// identifier, tag, or pipe placeholder.
pub fn expr_is_trivial(expr: &Expr) -> (r: bool)
    ensures
        r == expr_is_trivial_spec(*expr),
{
    match expr {
        Expr::Literal(_) | Expr::Identifier(_) | Expr::TagDeclarator(_) | Expr::PipeSubstitution
            | Expr::NoValue => true,
        _ => false,
    }
}

impl BinaryExpression {
    /// Renders `left op right`, parenthesizing operands whose binding
    /// would otherwise be misread.
    pub fn recast(&self, options: &FormatOptions) -> (r: String)
        requires
            binary_part_wf(self.left),
            binary_part_wf(self.right),
        ensures
            r@ == binary_expr_text(*self, *options),
        decreases *self, 2int,
    {
        let lt = self.left.recast(options, 0);
        let rt = self.right.recast(options, 0);
        let wrap_left = match &self.left {
            BinaryPart::BinaryExpression(sub) => self.operator.precedence()
                > sub.operator.precedence(),
            _ => false,
        };
        let wrap_right = match &self.right {
            BinaryPart::BinaryExpression(sub) => {
                self.operator.precedence() > sub.operator.precedence() || matches!(
                    self.operator,
                    BinaryOperator::Sub,
                ) || matches!(self.operator, BinaryOperator::Div)
            },
            _ => false,
        };
        proof {
            assert(wrap_left == wraps_left(*self));
            assert(wrap_right == wraps_right(*self));
        }
        let mut out = String::new();
        if wrap_left {
            out.append("(");
            out.append(lt.as_str());
            out.append(")");
        } else {
            out.append(lt.as_str());
        }
        out.append(" ");
        out.append(self.operator.as_str());
        out.append(" ");
        if wrap_right {
            out.append("(");
            out.append(rt.as_str());
            out.append(")");
        } else {
            out.append(rt.as_str());
        }
        proof {
            assert(out@ =~= binary_expr_text(*self, *options));
        }
        out
    }
}

impl UnaryExpression {
    /// Renders the operator against its operand, parenthesizing binary
    /// and unary operands.
    pub fn recast(&self, options: &FormatOptions) -> (r: String)
        requires
            binary_part_wf(self.argument),
        ensures
            r@ == unary_text(*self, *options),
        decreases *self, 2int,
    {
        let arg = self.argument.recast(options, 0);
        let mut out = String::new();
        out.append(self.operator.as_str());
        let wrap = match &self.argument {
            BinaryPart::BinaryExpression(_) | BinaryPart::UnaryExpression(_) => true,
            _ => false,
        };
        if wrap {
            out.append("(");
            out.append(arg.as_str());
            out.append(")");
        } else {
            out.append(arg.as_str());
        }
        proof {
            assert(out@ =~= unary_text(*self, *options));
        }
        out
    }
}

impl ArrayRangeExpression {
    /// Renders `[start..end]`, spacing the dots when an endpoint is a
    /// compound expression.
    pub fn recast(&self, options: &FormatOptions, _level: usize, _ctxt: ExprContext) -> (r: String)
        requires
            expr_wf(self.start_element),
            expr_wf(self.end_element),
        ensures
            r@ == range_text(*self, *options),
        decreases *self, 2int,
    {
        let s1 = self.start_element.recast(options, 0, ExprContext::Other);
        let s2 = self.end_element.recast(options, 0, ExprContext::Other);
        let mut out = String::new();
        out.append("[");
        out.append(s1.as_str());
        if expr_is_trivial(&self.start_element) && expr_is_trivial(&self.end_element) {
            out.append("..");
        } else {
            out.append(" .. ");
        }
        out.append(s2.as_str());
        out.append("]");
        proof {
            assert(out@ =~= range_text(*self, *options));
        }
        out
    }
}

impl ImportStatement {
    /// Renders the import statement, eliding an alias equal to the name
    /// it would rename.
    pub fn recast(&self, options: &FormatOptions, indentation_level: usize) -> (r: String)
        ensures
            r@ == import_text(*self, *options, indentation_level as int),
    {
        let indentation = options.get_indentation(indentation_level);
        let mut out = String::new();
        if matches!(self.visibility, ItemVisibility::Export) {
            out.append("export ");
        }
        out.append(indentation.as_str());
        out.append("import ");
        match &self.selector {
            ImportSelector::List { items } => {
                let n = items.len();
                let mut i: usize = 0;
                while i < n
                    invariant
                        0 <= i <= n == items@.len(),
                        out@ == (if self.visibility is Export {
                            "export "@
                        } else {
                            Seq::<char>::empty()
                        }) + crate::options::indentation(*options, indentation_level as int)
                            + "import "@ + import_items_text(items@, i as int),
                    decreases n - i,
                {
                    if i > 0 {
                        out.append(", ");
                    }
                    out.append(items[i].name.name.as_str());
                    match &items[i].alias {
                        Some(alias) => {
                            if !(items[i].name.name == alias.name) {
                                out.append(" as ");
                                out.append(alias.name.as_str());
                            }
                        },
                        None => {},
                    }
                    proof {
                        assert(out@ =~= (if self.visibility is Export {
                            "export "@
                        } else {
                            Seq::<char>::empty()
                        }) + crate::options::indentation(*options, indentation_level as int)
                            + "import "@ + import_items_text(items@, i + 1 as int));
                    }
                    i = i + 1;
                }
                out.append(" from ");
            },
            ImportSelector::Glob => {
                out.append("* from ");
            },
            ImportSelector::Module { .. } => {},
        }
        out.append("\"");
        out.append(self.path.as_str());
        out.append("\"");
        match &self.selector {
            ImportSelector::Module { alias: Some(alias) } => {
                out.append(" as ");
                out.append(alias.name.as_str());
            },
            _ => {},
        }
        proof {
            assert(out@ =~= import_text(*self, *options, indentation_level as int));
        }
        out
    }
}


impl BinaryPart {
    /// Renders one operand of a binary or unary expression.
    pub fn recast(&self, options: &FormatOptions, indentation_level: usize) -> (r: String)
        requires
            binary_part_wf(*self),
        ensures
            r@ == binary_part_text(*self, *options, indentation_level as int),
        decreases *self, 3int,
    {
        match self {
            BinaryPart::Literal(literal) => literal.recast(),
            BinaryPart::Identifier(identifier) => identifier.name.clone(),
            BinaryPart::BinaryExpression(binary_expression) => binary_expression.recast(options),
            BinaryPart::CallExpression(call_expression) => call_expression.recast(
                options,
                indentation_level,
                ExprContext::Other,
            ),
            BinaryPart::CallExpressionKw(call_expression) => call_expression.recast(
                options,
                indentation_level,
                ExprContext::Other,
            ),
            BinaryPart::UnaryExpression(unary_expression) => unary_expression.recast(options),
            BinaryPart::MemberExpression(member_expression) => member_expression.recast(),
            BinaryPart::IfExpression(e) => e.recast(options, indentation_level, ExprContext::Other),
        }
    }
}

impl Expr {
    /// Renders an expression.  Declaration context resets to `Other` for
    /// descended sub-expressions; pipeline context is preserved.
    pub fn recast(&self, options: &FormatOptions, indentation_level: usize, ctxt: ExprContext) -> (r:
        String)
        requires
            expr_wf(*self),
        ensures
            r@ == crate::model::expr_text(*self, *options, indentation_level as int, ctxt),
        decreases *self, 4int,
    {
        let is_decl = matches!(ctxt, ExprContext::Decl);
        let new_ctxt = if is_decl {
            ExprContext::Other
        } else {
            ctxt
        };
        match self {
            Expr::BinaryExpression(bin_exp) => bin_exp.recast(options),
            Expr::ArrayExpression(array_exp) => array_exp.recast(
                options,
                indentation_level,
                new_ctxt,
            ),
            Expr::ArrayRangeExpression(range_exp) => range_exp.recast(
                options,
                indentation_level,
                new_ctxt,
            ),
            Expr::ObjectExpression(obj_exp) => obj_exp.recast(options, indentation_level, new_ctxt),
            Expr::MemberExpression(mem_exp) => mem_exp.recast(),
            Expr::Literal(literal) => literal.recast(),
            Expr::FunctionExpression(func_exp) => {
                let mut out = String::new();
                if !is_decl {
                    out.append("fn");
                }
                let body = func_exp.recast(options, indentation_level);
                out.append(body.as_str());
                proof {
                    assert(out@ =~= crate::model::expr_text(
                        *self,
                        *options,
                        indentation_level as int,
                        ctxt,
                    ));
                }
                out
            },
            Expr::CallExpression(call_exp) => call_exp.recast(options, indentation_level, new_ctxt),
            Expr::CallExpressionKw(call_exp) => call_exp.recast(
                options,
                indentation_level,
                new_ctxt,
            ),
            Expr::Identifier(ident) => ident.name.clone(),
            Expr::TagDeclarator(tag) => tag.recast(),
            Expr::PipeExpression(pipe_exp) => pipe_exp.recast(options, indentation_level),
            Expr::UnaryExpression(unary_exp) => unary_exp.recast(options),
            Expr::IfExpression(e) => e.recast(options, indentation_level, new_ctxt),
            Expr::PipeSubstitution => {
                let mut out = String::new();
                out.append("%");
                proof {
                    assert(out@ =~= "%"@);
                }
                out
            },
            Expr::LabelledExpression(e) => {
                let mut out = e.expr.recast(options, indentation_level, new_ctxt);
                out.append(" as ");
                out.append(e.label.name.as_str());
                proof {
                    assert(out@ =~= crate::model::expr_text(
                        *self,
                        *options,
                        indentation_level as int,
                        ctxt,
                    ));
                }
                out
            },
            Expr::NoValue => vstd::pervasive::unreached(),
        }
    }
}

impl NonCodeValue {
    /// Whether this trivia kind forces its surrounding array or object
    /// onto multiple lines.
    pub fn should_cause_array_newline(&self) -> (b: bool)
        ensures
            b == forces_multi_line(*self),
    {
        match self {
            NonCodeValue::InlineComment { .. } => false,
            _ => true,
        }
    }
}

impl NonCodeNode {
    /// Renders one trivia node.
    pub fn recast(&self, options: &FormatOptions, indentation_level: usize) -> (r: String)
        requires
            trivia_wf(*self),
        ensures
            r@ == trivia_text(*self, *options, indentation_level as int),
        decreases *self, 4int,
    {
        let indentation = options.get_indentation(indentation_level);
        let mut out = String::new();
        match &self.value {
            NonCodeValue::InlineComment { value, style: CommentStyle::Line } => {
                out.append(" // ");
                out.append(value.as_str());
                out.append("\n");
            },
            NonCodeValue::InlineComment { value, style: CommentStyle::Block } => {
                out.append(" /* ");
                out.append(value.as_str());
                out.append(" */");
            },
            NonCodeValue::BlockComment { value, style: CommentStyle::Block } => {
                out.append(indentation.as_str());
                out.append("/* ");
                out.append(value.as_str());
                out.append(" */");
            },
            NonCodeValue::BlockComment { value, style: CommentStyle::Line } => {
                let trimmed = trim_str(value.as_str());
                if trimmed.as_str().is_empty() {
                    out.append(indentation.as_str());
                    out.append("//\n");
                } else {
                    out.append(indentation.as_str());
                    out.append("// ");
                    out.append(trimmed.as_str());
                    out.append("\n");
                }
            },
            NonCodeValue::NewLineBlockComment { value, style } => {
                if self.start == 0 {
                } else {
                    out.append("\n\n");
                }
                match style {
                    CommentStyle::Block => {
                        out.append(indentation.as_str());
                        out.append("/* ");
                        out.append(value.as_str());
                        out.append(" */\n");
                    },
                    CommentStyle::Line => {
                        let trimmed = trim_str(value.as_str());
                        if trimmed.as_str().is_empty() {
                            out.append(indentation.as_str());
                            out.append("//\n");
                        } else {
                            out.append(indentation.as_str());
                            out.append("// ");
                            out.append(trimmed.as_str());
                            out.append("\n");
                        }
                    },
                }
            },
            NonCodeValue::NewLine => {
                out.append("\n\n");
            },
            NonCodeValue::Annotation { name, properties } => {
                out.append("@");
                out.append(name.name.as_str());
                match properties {
                    Some(properties) => {
                        out.append("(");
                        let n = properties.len();
                        let mut i: usize = 0;
                        while i < n
                            invariant
                                0 <= i <= n == properties@.len(),
                                trivia_wf(*self),
                                self.value matches NonCodeValue::Annotation {
                                    name: n2,
                                    properties: props2,
                                } && props2 == Some(*properties) && n2 == *name,
                                out@ == "@"@ + name.name@ + "("@ + annotation_props_text(
                                    properties@,
                                    *options,
                                    indentation_level as int,
                                    i as int,
                                ),
                            decreases n - i,
                        {
                            if i > 0 {
                                out.append(", ");
                            }
                            out.append(properties[i].key.name.as_str());
                            out.append(" = ");
                            proof {
                                assert(expr_wf(properties@[i as int].value));
                            }
                            let v = properties[i].value.recast(
                                options,
                                bump(indentation_level),
                                ExprContext::Other,
                            );
                            let vt = trim_str(v.as_str());
                            out.append(vt.as_str());
                            proof {
                                assert(out@ =~= "@"@ + name.name@ + "("@ + annotation_props_text(
                                    properties@,
                                    *options,
                                    indentation_level as int,
                                    i + 1 as int,
                                ));
                            }
                            i = i + 1;
                        }
                        out.append(")\n");
                    },
                    None => {},
                }
            },
        }
        proof {
            assert(out@ =~= trivia_text(*self, *options, indentation_level as int));
        }
        out
    }
}

impl LabeledArg {
    /// Renders `label = value`.
    pub fn recast(&self, options: &FormatOptions, indentation_level: usize, ctxt: ExprContext) -> (r:
        String)
        requires
            expr_wf(self.arg),
        ensures
            r@ == self.label.name@ + " = "@ + crate::model::expr_text(
                self.arg,
                *options,
                indentation_level as int,
                ctxt,
            ),
        decreases *self, 4int,
    {
        let mut out = self.label.name.clone();
        out.append(" = ");
        let arg = self.arg.recast(options, indentation_level, ctxt);
        out.append(arg.as_str());
        out
    }
}

impl CallExpression {
    /// Renders a positional call; a pipeline stage carries no leading
    /// indentation of its own.
    pub fn recast(&self, options: &FormatOptions, indentation_level: usize, ctxt: ExprContext) -> (r:
        String)
        requires
            forall|i: int| 0 <= i < self.arguments@.len() ==> expr_wf(#[trigger] self.arguments@[i]),
        ensures
            r@ == call_text(*self, *options, indentation_level as int, ctxt),
        decreases *self, 4int,
    {
        let mut out = String::new();
        if matches!(ctxt, ExprContext::Pipe) {
        } else {
            let indentation = options.get_indentation(indentation_level);
            out.append(indentation.as_str());
        }
        out.append(self.callee.name.as_str());
        out.append("(");
        let ghost head = (if ctxt is Pipe {
            Seq::<char>::empty()
        } else {
            indentation(*options, indentation_level as int)
        }) + self.callee.name@ + "("@;
        let n = self.arguments.len();
        let mut i: usize = 0;
        while i < n
            invariant
                0 <= i <= n == self.arguments@.len(),
                forall|k: int| 0 <= k < n ==> expr_wf(#[trigger] self.arguments@[k]),
                out@ == head + call_args_text(
                    self.arguments@,
                    *options,
                    indentation_level as int,
                    ctxt,
                    i as int,
                ),
            decreases n - i,
        {
            if i > 0 {
                out.append(", ");
            }
            let arg = self.arguments[i].recast(options, indentation_level, ctxt);
            out.append(arg.as_str());
            proof {
                assert(out@ =~= head + call_args_text(
                    self.arguments@,
                    *options,
                    indentation_level as int,
                    ctxt,
                    i + 1 as int,
                ));
            }
            i = i + 1;
        }
        out.append(")");
        proof {
            assert(out@ =~= call_text(*self, *options, indentation_level as int, ctxt));
        }
        out
    }
}

impl CallExpressionKw {
    /// Renders a keyword call: an optional unlabelled first argument,
    /// then `label = value` pairs.
    pub fn recast(&self, options: &FormatOptions, indentation_level: usize, ctxt: ExprContext) -> (r:
        String)
        requires
            match self.unlabeled {
                Some(u) => expr_wf(u),
                None => true,
            },
            forall|i: int|
                0 <= i < self.arguments@.len() ==> expr_wf((#[trigger] self.arguments@[i]).arg),
        ensures
            r@ == call_kw_text(*self, *options, indentation_level as int, ctxt),
        decreases *self, 4int,
    {
        let mut out = String::new();
        if matches!(ctxt, ExprContext::Pipe) {
        } else {
            let indentation = options.get_indentation(indentation_level);
            out.append(indentation.as_str());
        }
        out.append(self.callee.name.as_str());
        out.append("(");
        let ghost head = (if ctxt is Pipe {
            Seq::<char>::empty()
        } else {
            indentation(*options, indentation_level as int)
        }) + self.callee.name@ + "("@;
        let mut lead: bool = false;
        match &self.unlabeled {
            Some(first_arg) => {
                let s = first_arg.recast(options, indentation_level, ctxt);
                out.append(s.as_str());
                lead = true;
            },
            None => {},
        }
        let ghost head2 = head + (if self.unlabeled is Some {
            crate::model::expr_text(self.unlabeled->0, *options, indentation_level as int, ctxt)
        } else {
            Seq::<char>::empty()
        });
        let n = self.arguments.len();
        let mut i: usize = 0;
        while i < n
            invariant
                0 <= i <= n == self.arguments@.len(),
                forall|k: int|
                    0 <= k < n ==> expr_wf((#[trigger] self.arguments@[k]).arg),
                lead == (self.unlabeled is Some),
                out@ == head2 + labeled_args_text(
                    self.arguments@,
                    *options,
                    indentation_level as int,
                    ctxt,
                    i as int,
                    lead,
                ),
            decreases n - i,
        {
            if i > 0 || lead {
                out.append(", ");
            }
            let s = self.arguments[i].recast(options, indentation_level, ctxt);
            out.append(s.as_str());
            proof {
                assert(out@ =~= head2 + labeled_args_text(
                    self.arguments@,
                    *options,
                    indentation_level as int,
                    ctxt,
                    i + 1 as int,
                    lead,
                ));
            }
            i = i + 1;
        }
        out.append(")");
        proof {
            assert(out@ =~= call_kw_text(*self, *options, indentation_level as int, ctxt));
        }
        out
    }
}

impl VariableDeclaration {
    /// Renders `export`, the declaration keyword, the name and the
    /// trimmed initializer.
    pub fn recast(&self, options: &FormatOptions, indentation_level: usize) -> (r: String)
        requires
            expr_wf(self.declaration.init),
        ensures
            r@ == var_decl_text(*self, *options, indentation_level as int),
        decreases *self, 4int,
    {
        let indentation = options.get_indentation(indentation_level);
        let mut out = String::new();
        match self.visibility {
            ItemVisibility::Default => {},
            ItemVisibility::Export => {
                out.append("export ");
            },
        }
        out.append(indentation.as_str());
        if matches!(self.kind, VariableKind::Fn) {
            out.append("fn ");
        }
        out.append(self.declaration.id.name.as_str());
        if matches!(self.kind, VariableKind::Fn) {
        } else {
            out.append(" = ");
        }
        let init = self.declaration.init.recast(options, indentation_level, ExprContext::Decl);
        let trimmed = trim_str(init.as_str());
        out.append(trimmed.as_str());
        proof {
            assert(out@ =~= var_decl_text(*self, *options, indentation_level as int));
        }
        out
    }
}

/// Whether any trivia node in the index's slots forces multi-line
/// rendering of its container.
pub fn meta_forces(meta: &NonCodeMeta) -> (b: bool)
    ensures
        b == meta_forces_multi_line(*meta),
{
    let jn = meta.non_code_nodes.len();
    let mut j: usize = 0;
    while j < jn
        invariant
            0 <= j <= jn == meta.non_code_nodes@.len(),
            forall|j2: int, k2: int|
                0 <= j2 < j && 0 <= k2 < meta.non_code_nodes@[j2].nodes@.len()
                    ==> !forces_multi_line(meta.non_code_nodes@[j2].nodes@[k2].value),
        decreases jn - j,
    {
        let kn = meta.non_code_nodes[j].nodes.len();
        let mut k: usize = 0;
        while k < kn
            invariant
                0 <= j < jn == meta.non_code_nodes@.len(),
                0 <= k <= kn == meta.non_code_nodes@[j as int].nodes@.len(),
                forall|j2: int, k2: int|
                    0 <= j2 < j && 0 <= k2 < meta.non_code_nodes@[j2].nodes@.len()
                        ==> !forces_multi_line(meta.non_code_nodes@[j2].nodes@[k2].value),
                forall|k2: int|
                    0 <= k2 < k ==> !forces_multi_line(
                        meta.non_code_nodes@[j as int].nodes@[k2].value,
                    ),
            decreases kn - k,
        {
            if meta.non_code_nodes[j].nodes[k].value.should_cause_array_newline() {
                return true;
            }
            k = k + 1;
        }
        j = j + 1;
    }
    false
}


impl ArrayExpression {
    /// Builds the interleaved item texts: trivia at its slot, elements
    /// each followed by `", "`, and the final `", "` stripped.
    fn build_items(&self, options: &FormatOptions) -> (items: Vec<String>)
        requires
            meta_wf(self.non_code_meta),
            meta_interleave_wf(self.non_code_meta, self.elements@.len() as int),
            forall|i: int| 0 <= i < self.elements@.len() ==> expr_wf(#[trigger] self.elements@[i]),
        ensures
            items@.len() == array_num_items(*self),
            forall|k: int|
                0 <= k < items@.len() ==> items@[k]@ == closed_items(
                    array_items_text(*self, *options, array_num_items(*self) as int),
                )[k],
        decreases *self, array_num_items(*self) + 2,
    {
        let total = self.non_code_meta.non_code_nodes_len();
        let num = self.elements.len() + total;
        let mut items: Vec<String> = Vec::new();
        let mut i: usize = 0;
        let mut e: usize = 0;
        proof {
            lemma_keys_below_at_zero(self.non_code_meta.non_code_nodes@, 0);
        }
        while i < num
            invariant
                0 <= i <= num,
                num == array_num_items(*self),
                meta_wf(self.non_code_meta),
                meta_interleave_wf(self.non_code_meta, self.elements@.len() as int),
                forall|k: int| 0 <= k < self.elements@.len() ==> expr_wf(#[trigger] self.elements@[k]),
                e == non_slots_below(self.non_code_meta, i as int),
                0 <= e <= self.elements@.len(),
                items@.len() == i,
                forall|k: int| 0 <= k < i ==> items@[k]@ == array_item_text(*self, *options, k),
            decreases num - i,
        {
            proof {
                lemma_non_slots_step(self.non_code_meta, i as int);
            }
            match self.non_code_meta.get(i) {
                Some(nodes) => {
                    proof {
                        lemma_slot_pos_valid(self.non_code_meta.non_code_nodes@, 0, i as int);
                        let j = slot_pos(self.non_code_meta, i as int).unwrap();
                        assert(self.non_code_meta.non_code_nodes@[j].nodes@ == nodes@);
                        assert(nodes@.len() == 1);
                        assert(trivia_wf(nodes@[0]));
                    }
                    let t = nodes[0].recast(options, 0);
                    items.push(t);
                },
                None => {
                    proof {
                        lemma_non_slots_mono(self.non_code_meta, i + 1 as int, num as int);
                    }
                    let mut t = self.elements[e].recast(options, 0, ExprContext::Other);
                    t.append(", ");
                    items.push(t);
                    e = e + 1;
                },
            }
            i = i + 1;
        }
        proof {
            lemma_array_items_index(*self, *options, num as int);
        }
        let ghost pre_items = items@;
        if items.len() > 0 {
            let last = items.pop().unwrap();
            let stripped = strip_comma_space_str(last.as_str());
            items.push(stripped);
            proof {
                assert(items@ =~= pre_items.drop_last().push(stripped));
            }
        }
        proof {
            let all = array_items_text(*self, *options, array_num_items(*self) as int);
            assert(all.len() == num && pre_items.len() == num);
            assert forall|k: int|
                0 <= k < items@.len() implies items@[k]@ == closed_items(all)[k] by {
                assert(all[k] == array_item_text(*self, *options, k));
                if num > 0 && k == num - 1 {
                    assert(items@[k]@ == crate::text::strip_comma_space(pre_items.last()@));
                    assert(pre_items.last()@ == all.last());
                } else {
                    assert(items@[k] == pre_items[k]);
                }
            }
        }
        items
    }

    /// Renders the array: flat when short enough and no trivia forces
    /// wrapping, else one item per line.
    pub fn recast(&self, options: &FormatOptions, indentation_level: usize, ctxt: ExprContext) -> (r:
        String)
        requires
            meta_wf(self.non_code_meta),
            meta_interleave_wf(self.non_code_meta, self.elements@.len() as int),
            forall|i: int| 0 <= i < self.elements@.len() ==> expr_wf(#[trigger] self.elements@[i]),
        ensures
            r@ == array_text(*self, *options, indentation_level as int, ctxt),
        decreases *self, array_num_items(*self) + 3,
    {
        let items = self.build_items(options);
        let ghost closed = closed_items(
            array_items_text(*self, *options, array_num_items(*self) as int),
        );
        proof {
            lemma_array_items_index(*self, *options, array_num_items(*self) as int);
        }
        let n = items.len();
        let mut flat = String::new();
        flat.append("[");
        let mut k: usize = 0;
        while k < n
            invariant
                0 <= k <= n == items@.len(),
                forall|k2: int| 0 <= k2 < n ==> items@[k2]@ == closed[k2],
                n == closed.len(),
                flat@ == "["@ + concat_texts_n(closed, k as int),
            decreases n - k,
        {
            flat.append(items[k].as_str());
            proof {
                assert(flat@ =~= "["@ + concat_texts_n(closed, k + 1 as int));
            }
            k = k + 1;
        }
        flat.append("]");
        let flen = flat.as_str().unicode_len();
        let forced = meta_forces(&self.non_code_meta);
        if flen <= MAX_FLAT_LEN && !forced {
            proof {
                assert(flat@ =~= array_text(*self, *options, indentation_level as int, ctxt));
            }
            return flat;
        }
        let inner = if matches!(ctxt, ExprContext::Pipe) {
            options.get_indentation_offset_pipe(bump(indentation_level))
        } else {
            options.get_indentation(bump(indentation_level))
        };
        let endi = if matches!(ctxt, ExprContext::Pipe) {
            options.get_indentation_offset_pipe(indentation_level)
        } else {
            options.get_indentation(indentation_level)
        };
        let mut out = String::new();
        out.append("[\n");
        let mut k: usize = 0;
        while k < n
            invariant
                0 <= k <= n == items@.len(),
                forall|k2: int| 0 <= k2 < n ==> items@[k2]@ == closed[k2],
                n == closed.len(),
                out@ == "[\n"@ + item_lines_text(closed, inner@, k as int),
            decreases n - k,
        {
            out.append(inner.as_str());
            let stripped = strip_one_space_str(items[k].as_str());
            out.append(stripped.as_str());
            if ends_with_char(items[k].as_str(), '\n') {
            } else {
                out.append("\n");
            }
            proof {
                assert(out@ =~= "[\n"@ + item_lines_text(closed, inner@, k + 1 as int));
            }
            k = k + 1;
        }
        out.append(endi.as_str());
        out.append("]");
        proof {
            assert(out@ =~= array_text(*self, *options, indentation_level as int, ctxt));
        }
        out
    }
}

impl ObjectExpression {
    /// Renders the object with one property or trivia item per line.
    pub fn recast_multi_line(
        &self,
        options: &FormatOptions,
        indentation_level: usize,
        ctxt: ExprContext,
    ) -> (r: String)
        requires
            meta_wf(self.non_code_meta),
            meta_interleave_wf(self.non_code_meta, self.properties@.len() as int),
            forall|i: int|
                0 <= i < self.properties@.len() ==> expr_wf((#[trigger] self.properties@[i]).value),
        ensures
            r@ == object_multi_text(*self, *options, indentation_level as int, ctxt),
        decreases *self, object_num_items(*self) + 3,
    {
        let total = self.non_code_meta.non_code_nodes_len();
        let num = self.properties.len() + total;
        let inner = if matches!(ctxt, ExprContext::Pipe) {
            options.get_indentation_offset_pipe(bump(indentation_level))
        } else {
            options.get_indentation(bump(indentation_level))
        };
        let endi = if matches!(ctxt, ExprContext::Pipe) {
            options.get_indentation_offset_pipe(indentation_level)
        } else {
            options.get_indentation(indentation_level)
        };
        let mut items: Vec<String> = Vec::new();
        let mut i: usize = 0;
        let mut e: usize = 0;
        proof {
            lemma_keys_below_at_zero(self.non_code_meta.non_code_nodes@, 0);
        }
        while i < num
            invariant
                0 <= i <= num,
                num == object_num_items(*self),
                meta_wf(self.non_code_meta),
                meta_interleave_wf(self.non_code_meta, self.properties@.len() as int),
                forall|k: int|
                    0 <= k < self.properties@.len() ==> expr_wf(
                        (#[trigger] self.properties@[k]).value,
                    ),
                e == non_slots_below(self.non_code_meta, i as int),
                0 <= e <= self.properties@.len(),
                items@.len() == i,
                forall|k: int|
                    0 <= k < i ==> items@[k]@ == object_item_text(
                        *self,
                        *options,
                        indentation_level as int,
                        ctxt,
                        k,
                    ),
            decreases num - i,
        {
            proof {
                lemma_non_slots_step(self.non_code_meta, i as int);
            }
            match self.non_code_meta.get(i) {
                Some(nodes) => {
                    proof {
                        lemma_slot_pos_valid(self.non_code_meta.non_code_nodes@, 0, i as int);
                        let j = slot_pos(self.non_code_meta, i as int).unwrap();
                        assert(self.non_code_meta.non_code_nodes@[j].nodes@ == nodes@);
                        assert(nodes@.len() == 1);
                        assert(trivia_wf(nodes@[0]));
                    }
                    let t = nodes[0].recast(options, 0);
                    items.push(t);
                },
                None => {
                    proof {
                        lemma_non_slots_mono(self.non_code_meta, i + 1 as int, num as int);
                    }
                    let mut t = self.properties[e].key.name.clone();
                    t.append(" = ");
                    let v = self.properties[e].value.recast(options, bump(indentation_level), ctxt);
                    let vt = trim_str(v.as_str());
                    t.append(vt.as_str());
                    if i == num - 1 {
                    } else {
                        t.append(",\n");
                    }
                    items.push(t);
                    proof {
                        assert(items@.last()@ =~= object_item_text(
                            *self,
                            *options,
                            indentation_level as int,
                            ctxt,
                            i as int,
                        ));
                    }
                    e = e + 1;
                },
            }
            i = i + 1;
        }
        let ghost spec_items = object_items_text(
            *self,
            *options,
            indentation_level as int,
            ctxt,
            object_num_items(*self) as int,
        );
        proof {
            lemma_object_items_index(
                *self,
                *options,
                indentation_level as int,
                ctxt,
                num as int,
            );
            assert forall|k2: int| 0 <= k2 < items@.len() implies items@[k2]@ == spec_items[k2] by {
                assert(spec_items[k2] == object_item_text(
                    *self,
                    *options,
                    indentation_level as int,
                    ctxt,
                    k2,
                ));
            }
        }
        let mut out = String::new();
        out.append("{\n");
        out.append(inner.as_str());
        let n = items.len();
        let mut k: usize = 0;
        while k < n
            invariant
                0 <= k <= n == items@.len(),
                n == spec_items.len(),
                forall|k2: int| 0 <= k2 < n ==> items@[k2]@ == spec_items[k2],
                out@ == "{\n"@ + inner@ + join_texts_n(spec_items, inner@, k as int),
            decreases n - k,
        {
            if k > 0 {
                out.append(inner.as_str());
            }
            out.append(items[k].as_str());
            proof {
                assert(out@ =~= "{\n"@ + inner@ + join_texts_n(spec_items, inner@, k + 1 as int));
            }
            k = k + 1;
        }
        out.append("\n");
        out.append(endi.as_str());
        out.append("}");
        proof {
            assert(out@ =~= object_multi_text(*self, *options, indentation_level as int, ctxt));
        }
        out
    }

    /// Renders the object: forced multi-line by trivia, else flat when
    /// short enough.
    #[verifier::rlimit(60)]
    pub fn recast(&self, options: &FormatOptions, indentation_level: usize, ctxt: ExprContext) -> (r:
        String)
        requires
            meta_wf(self.non_code_meta),
            meta_interleave_wf(self.non_code_meta, self.properties@.len() as int),
            forall|i: int|
                0 <= i < self.properties@.len() ==> expr_wf((#[trigger] self.properties@[i]).value),
        ensures
            r@ == object_text(*self, *options, indentation_level as int, ctxt),
        decreases *self, object_num_items(*self) + 4,
    {
        if meta_forces(&self.non_code_meta) {
            let r = self.recast_multi_line(options, indentation_level, ctxt);
            proof {
                assert(r@ =~= object_text(*self, *options, indentation_level as int, ctxt));
            }
            return r;
        }
        let mut flat = String::new();
        flat.append("{ ");
        let n = self.properties.len();
        let mut i: usize = 0;
        while i < n
            invariant
                0 <= i <= n == self.properties@.len(),
                forall|k: int|
                    0 <= k < n ==> expr_wf((#[trigger] self.properties@[k]).value),
                flat@ == "{ "@ + object_props_flat_text(
                    self.properties@,
                    *options,
                    indentation_level as int,
                    ctxt,
                    i as int,
                ),
            decreases n - i,
        {
            if i > 0 {
                flat.append(", ");
            }
            flat.append(self.properties[i].key.name.as_str());
            flat.append(" = ");
            let v = self.properties[i].value.recast(options, bump(indentation_level), ctxt);
            let vt = trim_str(v.as_str());
            flat.append(vt.as_str());
            proof {
                assert(flat@ =~= "{ "@ + object_props_flat_text(
                    self.properties@,
                    *options,
                    indentation_level as int,
                    ctxt,
                    i + 1 as int,
                ));
            }
            i = i + 1;
        }
        flat.append(" }");
        let flen = flat.as_str().unicode_len();
        if flen > MAX_FLAT_LEN {
            let r = self.recast_multi_line(options, indentation_level, ctxt);
            proof {
                assert(r@ =~= object_text(*self, *options, indentation_level as int, ctxt));
            }
            r
        } else {
            proof {
                assert(flat@ =~= object_text(*self, *options, indentation_level as int, ctxt));
            }
            flat
        }
    }
}


impl PipeExpression {
    /// Renders the pipeline: each stage indented one level deeper, its
    /// trailing trivia after it, and the pipe token before every stage
    /// but the first.
    pub fn recast(&self, options: &FormatOptions, indentation_level: usize) -> (r: String)
        requires
            meta_wf(self.non_code_meta),
            forall|i: int| 0 <= i < self.body@.len() ==> expr_wf(#[trigger] self.body@[i]),
        ensures
            r@ == pipe_text(*self, *options, indentation_level as int),
        decreases *self, self.body@.len() + 3,
    {
        let mut out = options.get_indentation(indentation_level);
        let n = self.body.len();
        let mut i: usize = 0;
        while i < n
            invariant
                0 <= i <= n == self.body@.len(),
                meta_wf(self.non_code_meta),
                forall|k: int| 0 <= k < n ==> expr_wf(#[trigger] self.body@[k]),
                out@ == indentation(*options, indentation_level as int) + pipe_stages_text(
                    *self,
                    *options,
                    indentation_level as int,
                    i as int,
                ),
            decreases n - i,
        {
            let s = self.body[i].recast(options, bump(indentation_level), ExprContext::Pipe);
            out.append(s.as_str());
            let ghost pre = indentation(*options, indentation_level as int) + pipe_stages_text(
                *self,
                *options,
                indentation_level as int,
                i as int,
            ) + crate::model::expr_text(
                self.body@[i as int],
                *options,
                next_level(indentation_level as int),
                ExprContext::Pipe,
            );
            match self.non_code_meta.get(i) {
                Some(nodes) => {
                    proof {
                        lemma_slot_pos_valid(self.non_code_meta.non_code_nodes@, 0, i as int);
                    }
                    let m = nodes.len();
                    let mut k: usize = 0;
                    while k < m
                        invariant
                            0 <= k <= m == nodes@.len(),
                            0 <= i < self.body@.len(),
                            meta_wf(self.non_code_meta),
                            slot_lookup(self.non_code_meta, i as int) == Some(nodes@),
                            forall|k2: int| 0 <= k2 < m ==> trivia_wf(#[trigger] nodes@[k2]),
                            out@ == pre + pipe_trivia_text(
                                nodes@,
                                self.end,
                                *options,
                                indentation_level as int,
                                k as int,
                            ),
                        decreases m - k,
                    {
                        proof {
                            lemma_slot_pos_valid(self.non_code_meta.non_code_nodes@, 0, i as int);
                            let j = slot_pos(self.non_code_meta, i as int).unwrap();
                            assert(nodes@[k as int]
                                == self.non_code_meta.non_code_nodes@[j].nodes@[k as int]);
                            assert(decreases_to!(*self =>
                                self.non_code_meta.non_code_nodes@[j].nodes@[k as int]));
                        }
                        let formatted_full = if nodes[k].end == self.end {
                            nodes[k].recast(options, indentation_level)
                        } else {
                            nodes[k].recast(options, bump(indentation_level))
                        };
                        let formatted = trim_end_newlines_str(formatted_full.as_str());
                        if matches!(nodes[k].value, NonCodeValue::BlockComment { .. }) {
                            out.append("\n");
                        }
                        out.append(formatted.as_str());
                        proof {
                            assert(out@ =~= pre + pipe_trivia_text(
                                nodes@,
                                self.end,
                                *options,
                                indentation_level as int,
                                k + 1 as int,
                            ));
                        }
                        k = k + 1;
                    }
                },
                None => {},
            }
            if i != n - 1 {
                out.append("\n");
                let ind = options.get_indentation(bump(indentation_level));
                out.append(ind.as_str());
                out.append("|> ");
            }
            proof {
                assert(out@ =~= indentation(*options, indentation_level as int)
                    + pipe_stages_text(
                    *self,
                    *options,
                    indentation_level as int,
                    i as int,
                ) + pipe_stage_text(*self, *options, indentation_level as int, i as int));
            }
            i = i + 1;
        }
        proof {
            assert(out@ =~= pipe_text(*self, *options, indentation_level as int));
        }
        out
    }
}

impl IfExpression {
    /// Renders the conditional as its fixed-shape multi-line block.
    pub fn recast(&self, options: &FormatOptions, indentation_level: usize, ctxt: ExprContext) -> (r:
        String)
        requires
            expr_wf(*self.cond),
            program_wf(*self.then_val),
            forall|i: int|
                0 <= i < self.else_ifs@.len() ==> expr_wf((#[trigger] self.else_ifs@[i]).cond)
                    && program_wf(self.else_ifs@[i].then_val),
            program_wf(*self.final_else),
        ensures
            r@ == if_text(*self, *options, indentation_level as int, ctxt),
        decreases *self, self.else_ifs@.len() + 3,
    {
        let ind0 = options.get_indentation(indentation_level);
        let ind1 = options.get_indentation(bump(indentation_level));
        let cond = self.cond.recast(options, indentation_level, ctxt);
        let mut line = String::new();
        line.append("if ");
        line.append(cond.as_str());
        line.append(" {");
        let lt = trim_str(line.as_str());
        let mut out = String::new();
        out.append(ind0.as_str());
        out.append(lt.as_str());
        out.append("\n");
        out.append(ind1.as_str());
        let tv = self.then_val.recast(options, bump(indentation_level));
        let tvt = trim_str(tv.as_str());
        out.append(tvt.as_str());
        let ghost pre = out@;
        proof {
            assert(pre =~= indentation(*options, indentation_level as int) + crate::text::trim(
                "if "@ + crate::model::expr_text(
                    *self.cond,
                    *options,
                    indentation_level as int,
                    ctxt,
                ) + " {"@,
            ) + "\n"@ + indentation(*options, next_level(indentation_level as int))
                + crate::text::trim(
                program_text(*self.then_val, *options, next_level(indentation_level as int)),
            ));
        }
        let n = self.else_ifs.len();
        let mut i: usize = 0;
        while i < n
            invariant
                0 <= i <= n == self.else_ifs@.len(),
                forall|k: int|
                    0 <= k < n ==> expr_wf((#[trigger] self.else_ifs@[k]).cond) && program_wf(
                        self.else_ifs@[k].then_val,
                    ),
                out@ == pre + else_ifs_text(
                    self.else_ifs@,
                    *options,
                    indentation_level as int,
                    ctxt,
                    i as int,
                ),
                ind0@ == indentation(*options, indentation_level as int),
                ind1@ == indentation(*options, next_level(indentation_level as int)),
            decreases n - i,
        {
            out.append("\n");
            out.append(ind0.as_str());
            let c = self.else_ifs[i].cond.recast(options, indentation_level, ctxt);
            let mut line2 = String::new();
            line2.append("} else if ");
            line2.append(c.as_str());
            line2.append(" {");
            let l2 = trim_str(line2.as_str());
            out.append(l2.as_str());
            out.append("\n");
            out.append(ind1.as_str());
            let b = self.else_ifs[i].then_val.recast(options, bump(indentation_level));
            let bt = trim_str(b.as_str());
            out.append(bt.as_str());
            proof {
                assert(out@ =~= pre + else_ifs_text(
                    self.else_ifs@,
                    *options,
                    indentation_level as int,
                    ctxt,
                    i + 1 as int,
                ));
            }
            i = i + 1;
        }
        out.append("\n");
        out.append(ind0.as_str());
        out.append("} else {");
        out.append("\n");
        out.append(ind1.as_str());
        let fe = self.final_else.recast(options, bump(indentation_level));
        let fet = trim_str(fe.as_str());
        out.append(fet.as_str());
        out.append("\n");
        out.append(ind0.as_str());
        out.append("}");
        proof {
            assert(out@ =~= if_text(*self, *options, indentation_level as int, ctxt));
        }
        out
    }
}

impl Parameter {
    /// Renders one parameter: optional `@`, the name, optional `?`,
    /// optional type, optional literal default.
    pub fn recast(&self, options: &FormatOptions, indentation_level: usize) -> (r: String)
        ensures
            r@ == param_text(*self, *options, indentation_level as int),
        decreases *self, 4int,
    {
        let mut out = String::new();
        if self.labeled {
        } else {
            out.append("@");
        }
        out.append(self.identifier.name.as_str());
        if self.default_value.is_some() {
            out.append("?");
        }
        match &self.type_ {
            Some(ty) => {
                out.append(": ");
                let t = ty.recast(options, indentation_level);
                out.append(t.as_str());
            },
            None => {},
        }
        match &self.default_value {
            Some(DefaultParamVal::Literal(literal)) => {
                out.append(" = ");
                let lit = literal.recast();
                out.append(lit.as_str());
            },
            _ => {},
        }
        proof {
            assert(out@ =~= param_text(*self, *options, indentation_level as int));
        }
        out
    }
}

impl FnArgType {
    /// Renders a type annotation.
    pub fn recast(&self, options: &FormatOptions, indentation_level: usize) -> (r: String)
        ensures
            r@ == fn_arg_type_text(*self, *options, indentation_level as int),
        decreases *self, 5int,
    {
        match self {
            FnArgType::Primitive(t) => t.clone(),
            FnArgType::Array(t) => {
                let mut out = t.clone();
                out.append("[]");
                proof {
                    assert(out@ =~= fn_arg_type_text(*self, *options, indentation_level as int));
                }
                out
            },
            FnArgType::Object { properties } => {
                let mut body = String::new();
                let n = properties.len();
                let mut i: usize = 0;
                while i < n
                    invariant
                        0 <= i <= n == properties@.len(),
                        *self == (FnArgType::Object { properties: *properties }),
                        body@ == fn_arg_object_text(
                            properties@,
                            *options,
                            indentation_level as int,
                            i as int,
                        ),
                    decreases n - i,
                {
                    proof {
                        assert(decreases_to!(*self => (*self)->Object_properties));
                        assert((*self)->Object_properties == *properties);
                        assert(decreases_to!(*properties => properties@[i as int]));
                        assert(decreases_to!(*self => properties@[i as int]));
                    }
                    body.append(" ");
                    let p = properties[i].recast(options, indentation_level);
                    body.append(p.as_str());
                    body.append(",");
                    proof {
                        assert(body@ =~= fn_arg_object_text(
                            properties@,
                            *options,
                            indentation_level as int,
                            i + 1 as int,
                        ));
                    }
                    i = i + 1;
                }
                let mut out = String::new();
                out.append("{");
                if ends_with_char(body.as_str(), ',') {
                    let blen = body.as_str().unicode_len();
                    let cut = body.as_str().substring_char(0, blen - 1).to_owned();
                    proof {
                        assert(body@.subrange(0, body@.len() - 1) =~= body@.drop_last());
                    }
                    out.append(cut.as_str());
                    out.append(" ");
                } else {
                    out.append(body.as_str());
                }
                out.append("}");
                proof {
                    assert(out@ =~= fn_arg_type_text(*self, *options, indentation_level as int));
                }
                out
            },
        }
    }
}

impl FunctionExpression {
    /// Renders the parameter list, optional return type, and the body at
    /// one deeper level, with the body's trailing newline suppressed.
    pub fn recast(&self, options: &FormatOptions, indentation_level: usize) -> (r: String)
        requires
            program_wf(self.body),
        ensures
            r@ == fn_expr_text(*self, *options, indentation_level as int),
        decreases *self, self.params@.len() + 3,
    {
        let mut new_options = *options;
        new_options.insert_final_newline = false;
        let tab0 = options.get_indentation(indentation_level);
        let tab1 = options.get_indentation(bump(indentation_level));
        let mut out = String::new();
        out.append("(");
        let n = self.params.len();
        let mut i: usize = 0;
        while i < n
            invariant
                0 <= i <= n == self.params@.len(),
                out@ == "("@ + params_text(
                    self.params@,
                    *options,
                    indentation_level as int,
                    i as int,
                ),
            decreases n - i,
        {
            if i > 0 {
                out.append(", ");
            }
            let p = self.params[i].recast(options, indentation_level);
            out.append(p.as_str());
            proof {
                assert(out@ =~= "("@ + params_text(
                    self.params@,
                    *options,
                    indentation_level as int,
                    i + 1 as int,
                ));
            }
            i = i + 1;
        }
        out.append(")");
        match &self.return_type {
            Some(rt) => {
                out.append(": ");
                let t = rt.recast(&new_options, indentation_level);
                out.append(t.as_str());
            },
            None => {},
        }
        out.append(" {\n");
        out.append(tab1.as_str());
        let body = self.body.recast(&new_options, bump(indentation_level));
        out.append(body.as_str());
        out.append("\n");
        out.append(tab0.as_str());
        out.append("}");
        proof {
            assert(out@ =~= fn_expr_text(*self, *options, indentation_level as int));
        }
        out
    }
}

impl Program {
    /// What precedes body item `i`: indentation or start trivia for the
    /// first item, nothing for the rest.
    fn render_body_start(&self, options: &FormatOptions, indentation_level: usize, i: usize) -> (r:
        String)
        requires
            program_wf(*self),
            i < self.body@.len(),
        ensures
            r@ == body_start_text(*self, *options, indentation_level as int, i as int),
        decreases *self, 0int,
    {
        let mut out = String::new();
        if i == 0 {
            if self.non_code_meta.start_nodes.len() == 0 {
                let ind = options.get_indentation(indentation_level);
                out.append(ind.as_str());
            } else {
                let m = self.non_code_meta.start_nodes.len();
                let mut k: usize = 0;
                while k < m
                    invariant
                        0 <= k <= m == self.non_code_meta.start_nodes@.len(),
                        program_wf(*self),
                        out@ == start_nodes_text(
                            self.non_code_meta.start_nodes@,
                            *options,
                            indentation_level as int,
                            k as int,
                        ),
                    decreases m - k,
                {
                    proof {
                        assert(trivia_wf(self.non_code_meta.start_nodes@[k as int]));
                    }
                    let t = self.non_code_meta.start_nodes[k].recast(options, indentation_level);
                    out.append(t.as_str());
                    proof {
                        assert(out@ =~= start_nodes_text(
                            self.non_code_meta.start_nodes@,
                            *options,
                            indentation_level as int,
                            k + 1 as int,
                        ));
                    }
                    k = k + 1;
                }
            }
        }
        proof {
            assert(out@ =~= body_start_text(*self, *options, indentation_level as int, i as int));
        }
        out
    }

    /// Renders body item `i` itself.
    fn render_body_item(&self, options: &FormatOptions, indentation_level: usize, i: usize) -> (r:
        String)
        requires
            program_wf(*self),
            i < self.body@.len(),
        ensures
            r@ == body_item_text(self.body@[i as int], *options, indentation_level as int),
        decreases *self, 0int,
    {
        proof {
            assert(body_item_wf(self.body@[i as int]));
        }
        let mut out = String::new();
        match &self.body[i] {
            BodyItem::ImportStatement(stmt) => {
                let s = stmt.recast(options, indentation_level);
                out.append(s.as_str());
            },
            BodyItem::ExpressionStatement(st) => {
                let s = st.expression.recast(options, indentation_level, ExprContext::Other);
                out.append(s.as_str());
            },
            BodyItem::VariableDeclaration(vd) => {
                let s = vd.recast(options, indentation_level);
                out.append(s.as_str());
            },
            BodyItem::ReturnStatement(st) => {
                let ind = options.get_indentation(indentation_level);
                out.append(ind.as_str());
                out.append("return ");
                let s = st.argument.recast(options, indentation_level, ExprContext::Other);
                let t = trim_start_str(s.as_str());
                out.append(t.as_str());
            },
        }
        proof {
            assert(out@ =~= body_item_text(
                self.body@[i as int],
                *options,
                indentation_level as int,
            ));
        }
        out
    }

    /// What follows body item `i`: its trivia run if it renders
    /// non-empty, else a line break, except after the last outermost
    /// item.
    fn render_body_end(&self, options: &FormatOptions, indentation_level: usize, i: usize) -> (r:
        String)
        requires
            program_wf(*self),
            i < self.body@.len(),
        ensures
            r@ == body_end_text(*self, *options, indentation_level as int, i as int),
        decreases *self, 0int,
    {
        let n = self.body.len();
        let mut custom = String::new();
        match self.non_code_meta.get(i) {
            Some(nodes) => {
                proof {
                    lemma_slot_pos_valid(self.non_code_meta.non_code_nodes@, 0, i as int);
                }
                let m = nodes.len();
                let mut k: usize = 0;
                while k < m
                    invariant
                        0 <= k <= m == nodes@.len(),
                        i < self.body@.len(),
                        meta_wf(self.non_code_meta),
                        slot_lookup(self.non_code_meta, i as int) == Some(nodes@),
                        forall|k2: int| 0 <= k2 < m ==> trivia_wf(#[trigger] nodes@[k2]),
                        custom@ == trivia_run_text(
                            nodes@,
                            *options,
                            indentation_level as int,
                            k as int,
                        ),
                    decreases m - k,
                {
                    proof {
                        lemma_slot_pos_valid(self.non_code_meta.non_code_nodes@, 0, i as int);
                        let j = slot_pos(self.non_code_meta, i as int).unwrap();
                        assert(nodes@[k as int]
                            == self.non_code_meta.non_code_nodes@[j].nodes@[k as int]);
                        assert(decreases_to!(*self =>
                            self.non_code_meta.non_code_nodes@[j].nodes@[k as int]));
                    }
                    let formatted = nodes[k].recast(options, indentation_level);
                    let ft = trim_str(formatted.as_str());
                    if k == 0 && !ft.as_str().is_empty() && matches!(
                        nodes[k].value,
                        NonCodeValue::BlockComment { .. },
                    ) {
                        custom.append("\n");
                        custom.append(formatted.as_str());
                    } else {
                        custom.append(formatted.as_str());
                    }
                    proof {
                        assert(custom@ =~= trivia_run_text(
                            nodes@,
                            *options,
                            indentation_level as int,
                            k + 1 as int,
                        ));
                    }
                    k = k + 1;
                }
            },
            None => {},
        }
        if custom.as_str().is_empty() {
            let mut out = String::new();
            if i == n - 1 && indentation_level == 0 {
            } else {
                out.append("\n");
            }
            proof {
                assert(out@ =~= body_end_text(*self, *options, indentation_level as int, i as int));
            }
            out
        } else {
            proof {
                assert(custom@ =~= body_end_text(
                    *self,
                    *options,
                    indentation_level as int,
                    i as int,
                ));
            }
            custom
        }
    }

    /// Renders the whole program: the shebang with a forced blank line,
    /// each body item with its surrounding trivia, bordering whitespace
    /// trimmed, and the optional final newline.
    pub fn recast(&self, options: &FormatOptions, indentation_level: usize) -> (r: String)
        requires
            program_wf(*self),
        ensures
            r@ == program_text(*self, *options, indentation_level as int),
        decreases *self, self.body@.len() + 4,
    {
        let mut out = String::new();
        match &self.shebang {
            Some(sh) => {
                out.append(sh.as_str());
                out.append("\n\n");
            },
            None => {},
        }
        let ghost shebang_part = out@;
        let n = self.body.len();
        let mut i: usize = 0;
        while i < n
            invariant
                0 <= i <= n == self.body@.len(),
                program_wf(*self),
                out@ == shebang_part + body_fold_text(
                    *self,
                    *options,
                    indentation_level as int,
                    i as int,
                ),
            decreases n - i,
        {
            let start = self.render_body_start(options, indentation_level, i);
            out.append(start.as_str());
            let item = self.render_body_item(options, indentation_level, i);
            out.append(item.as_str());
            let end = self.render_body_end(options, indentation_level, i);
            out.append(end.as_str());
            proof {
                assert(out@ =~= shebang_part + body_fold_text(
                    *self,
                    *options,
                    indentation_level as int,
                    i + 1 as int,
                ));
            }
            i = i + 1;
        }
        let mut result = trim_str(out.as_str());
        if options.insert_final_newline && !result.as_str().is_empty() {
            result.append("\n");
        }
        proof {
            assert(result@ =~= program_text(*self, *options, indentation_level as int));
        }
        result
    }
}

} // verus!
