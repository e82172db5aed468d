//! The program tree that the printers consume.
//!
//! The tree is produced by an external parser and treated as immutable input.
//! Trivia (comments, blank-line markers, annotations) is attached through a
//! sidecar index keyed by sibling position, kept here as a sorted association
//! list from slot index to the ordered trivia rendered at that slot.

use vstd::prelude::*;

verus! {

/// A whole parsed program: an optional shebang line, the ordered body
/// items, and the trivia index for the body sequence.
pub struct Program {
    /// Content of the shebang line, if the source began with one.
    pub shebang: Option<String>,
    /// The body items, in source order.
    pub body: Vec<BodyItem>,
    /// Trivia attached around the body items.
    pub non_code_meta: NonCodeMeta,
}

/// One top-level (or block-level) item.
pub enum BodyItem {
    ImportStatement(ImportStatement),
    ExpressionStatement(ExpressionStatement),
    VariableDeclaration(VariableDeclaration),
    ReturnStatement(ReturnStatement),
}

/// A statement that is a bare expression.
pub struct ExpressionStatement {
    pub expression: Expr,
}

/// `return <argument>`.
pub struct ReturnStatement {
    pub argument: Expr,
}

/// Whether an item is exported from its module.
#[derive(Clone, Copy, PartialEq, Eq, Structural)]
pub enum ItemVisibility {
    Default,
    Export,
}

/// Which keyword introduced a declaration.
#[derive(Clone, Copy, PartialEq, Eq, Structural)]
pub enum VariableKind {
    /// A function definition, `fn name(...) { ... }`.
    Fn,
    /// A value binding, `name = value`.
    Const,
}

/// `name = init` or `fn name(...) { ... }`, possibly exported.
pub struct VariableDeclaration {
    pub declaration: VariableDeclarator,
    pub visibility: ItemVisibility,
    pub kind: VariableKind,
}

/// The bound name and its initializer.
pub struct VariableDeclarator {
    pub id: Identifier,
    pub init: Expr,
}

/// `import ... from "path"`, `import * from "path"`, or `import "path"`.
pub struct ImportStatement {
    pub selector: ImportSelector,
    pub path: String,
    pub visibility: ItemVisibility,
}

/// What an import statement brings in.
pub enum ImportSelector {
    /// `import a, b as c from ...`
    List { items: Vec<ImportItem> },
    /// `import * from ...`
    Glob,
    /// `import "path"` or `import "path" as name`: the module itself.
    Module { alias: Option<Identifier> },
}

/// One name in an import list, with an optional alias.
pub struct ImportItem {
    pub name: Identifier,
    pub alias: Option<Identifier>,
}

/// A plain name.
pub struct Identifier {
    pub name: String,
}

/// A tag declarator, always printed with a leading dollar sign.
pub struct TagDeclarator {
    pub name: String,
}

/// A literal together with its raw source spelling.
pub struct Literal {
    pub value: LiteralValue,
    pub raw: String,
}

/// The parsed value of a literal.
pub enum LiteralValue {
    /// A numeric literal.  The tree producer supplies, beside the raw
    /// spelling, whether the value has no fractional remainder and the
    /// value's canonical decimal rendering (for example `5.0`).
    Number { integral: bool, canonical: String },
    /// A string literal's content, without quotes.
    Str(String),
    /// A boolean literal.
    Bool(bool),
}

/// The expression grammar: a closed union.
pub enum Expr {
    Literal(Box<Literal>),
    Identifier(Box<Identifier>),
    TagDeclarator(Box<TagDeclarator>),
    BinaryExpression(Box<BinaryExpression>),
    FunctionExpression(Box<FunctionExpression>),
    CallExpression(Box<CallExpression>),
    CallExpressionKw(Box<CallExpressionKw>),
    PipeExpression(Box<PipeExpression>),
    PipeSubstitution,
    ArrayExpression(Box<ArrayExpression>),
    ArrayRangeExpression(Box<ArrayRangeExpression>),
    ObjectExpression(Box<ObjectExpression>),
    MemberExpression(Box<MemberExpression>),
    UnaryExpression(Box<UnaryExpression>),
    IfExpression(Box<IfExpression>),
    LabelledExpression(Box<LabelledExpression>),
    /// The "no value" marker.  It must never reach a printer; the
    /// well-formedness predicate excludes it.
    NoValue,
}

/// A binary operator.
#[derive(Clone, Copy, PartialEq, Eq, Structural)]
pub enum BinaryOperator {
    Add,
    Sub,
    Mul,
    Div,
    Mod,
    Pow,
    Eq,
    Neq,
    Gt,
    Gte,
    Lt,
    Lte,
}

/// A unary operator.
#[derive(Clone, Copy, PartialEq, Eq, Structural)]
pub enum UnaryOperator {
    Neg,
    Not,
}

/// `left <op> right`.
pub struct BinaryExpression {
    pub operator: BinaryOperator,
    pub left: BinaryPart,
    pub right: BinaryPart,
}

/// An operand of a binary or unary expression.
pub enum BinaryPart {
    Literal(Box<Literal>),
    Identifier(Box<Identifier>),
    BinaryExpression(Box<BinaryExpression>),
    CallExpression(Box<CallExpression>),
    CallExpressionKw(Box<CallExpressionKw>),
    UnaryExpression(Box<UnaryExpression>),
    MemberExpression(Box<MemberExpression>),
    IfExpression(Box<IfExpression>),
}

/// `<op> argument`.
pub struct UnaryExpression {
    pub operator: UnaryOperator,
    pub argument: BinaryPart,
}

/// `callee(arg, ...)` with positional arguments.
pub struct CallExpression {
    pub callee: Identifier,
    pub arguments: Vec<Expr>,
}

/// `callee(first, label = value, ...)` with keyword-labelled arguments.
pub struct CallExpressionKw {
    pub callee: Identifier,
    pub unlabeled: Option<Expr>,
    pub arguments: Vec<LabeledArg>,
}

/// One `label = value` argument.
pub struct LabeledArg {
    pub label: Identifier,
    pub arg: Expr,
}

/// A chain of stages joined by the pipe operator.
pub struct PipeExpression {
    /// The stages, in order.
    pub body: Vec<Expr>,
    /// Trivia attached after each stage, keyed by stage index.
    pub non_code_meta: NonCodeMeta,
    /// Source end offset of the whole pipeline; trivia whose end offset
    /// equals it aligns with the pipeline rather than with a stage.
    pub end: usize,
}

/// `[e1, e2, ...]` with trivia interleaved at arbitrary positions.
pub struct ArrayExpression {
    pub elements: Vec<Expr>,
    pub non_code_meta: NonCodeMeta,
}

/// `[start..end]`.
pub struct ArrayRangeExpression {
    pub start_element: Expr,
    pub end_element: Expr,
}

/// `{ k = v, ... }` with trivia interleaved at arbitrary positions.
pub struct ObjectExpression {
    pub properties: Vec<ObjectProperty>,
    pub non_code_meta: NonCodeMeta,
}

/// One `key = value` property.
pub struct ObjectProperty {
    pub key: Identifier,
    pub value: Expr,
}

/// `object.name`, `object[literal]` or `object[name]`.
pub struct MemberExpression {
    pub object: MemberObject,
    pub property: LiteralIdentifier,
    /// Whether the access is computed (bracketed identifier).
    pub computed: bool,
}

/// What a member access starts from.
pub enum MemberObject {
    MemberExpression(Box<MemberExpression>),
    Identifier(Box<Identifier>),
}

/// A member-access key.
pub enum LiteralIdentifier {
    Identifier(Box<Identifier>),
    Literal(Box<Literal>),
}

/// `if cond { ... } else if cond { ... } else { ... }`.
pub struct IfExpression {
    pub cond: Box<Expr>,
    pub then_val: Box<Program>,
    pub else_ifs: Vec<ElseIf>,
    pub final_else: Box<Program>,
}

/// One `else if cond { ... }` arm.
pub struct ElseIf {
    pub cond: Expr,
    pub then_val: Program,
}

/// `expr as label`.
pub struct LabelledExpression {
    pub expr: Expr,
    pub label: Identifier,
}

/// A function literal: parameters, body, optional return type.
pub struct FunctionExpression {
    pub params: Vec<Parameter>,
    pub body: Program,
    pub return_type: Option<FnArgType>,
}

/// One function parameter.
pub struct Parameter {
    pub identifier: Identifier,
    pub type_: Option<FnArgType>,
    pub default_value: Option<DefaultParamVal>,
    /// Unlabelled parameters are printed with a leading `@`.
    pub labeled: bool,
}

/// A parameter's default value.
pub enum DefaultParamVal {
    Literal(Literal),
    KclNone,
}

/// A parameter or return type annotation.
pub enum FnArgType {
    /// A primitive type, by name.
    Primitive(String),
    /// An array of a primitive type, printed `name[]`.
    Array(String),
    /// An object type with typed fields.
    Object { properties: Vec<Parameter> },
}

/// How a comment was written.
#[derive(Clone, Copy, PartialEq, Eq, Structural)]
pub enum CommentStyle {
    /// `// ...`
    Line,
    /// `/* ... */`
    Block,
}

/// One trivia node: a comment, a blank-line marker, or an annotation.
pub struct NonCodeNode {
    pub value: NonCodeValue,
    /// Source start offset; a comment at offset 0 opens the file.
    pub start: usize,
    /// Source end offset; compared against a pipeline's own end offset.
    pub end: usize,
}

/// The kinds of trivia.
pub enum NonCodeValue {
    /// A comment on the same line as the preceding code.
    InlineComment { value: String, style: CommentStyle },
    /// A comment alone on its line.
    BlockComment { value: String, style: CommentStyle },
    /// A comment alone on its line, preceded by a blank line.
    NewLineBlockComment { value: String, style: CommentStyle },
    /// A blank-line marker: any run of consecutive blank lines collapses
    /// into one of these.
    NewLine,
    /// `@name(prop = value, ...)`.
    Annotation { name: Identifier, properties: Option<Vec<ObjectProperty>> },
}

/// The trivia entries at one slot index.
pub struct NonCodeSlot {
    pub index: usize,
    pub nodes: Vec<NonCodeNode>,
}

/// Trivia attached around a sibling sequence: nodes before the first
/// sibling, and per-slot nodes keyed by position.
pub struct NonCodeMeta {
    pub start_nodes: Vec<NonCodeNode>,
    pub non_code_nodes: Vec<NonCodeSlot>,
}

/// Position of slot index `i` in the tail of the association list.
pub open spec fn slot_pos_at(entries: Seq<NonCodeSlot>, k: int, i: int) -> Option<int>
    decreases entries.len() - k,
{
    if k < 0 || k >= entries.len() {
        None
    } else if entries[k].index == i {
        Some(k)
    } else {
        slot_pos_at(entries, k + 1, i)
    }
}

/// Position of slot index `i` in the association list, if present.
pub open spec fn slot_pos(meta: NonCodeMeta, i: int) -> Option<int> {
    slot_pos_at(meta.non_code_nodes@, 0, i)
}

/// The trivia nodes at slot `i`, if any.
pub open spec fn slot_lookup(meta: NonCodeMeta, i: int) -> Option<Seq<NonCodeNode>> {
    match slot_pos(meta, i) {
        Some(j) => Some(meta.non_code_nodes@[j].nodes@),
        None => None,
    }
}

/// Total number of trivia nodes in the slots from entry `k` on.
pub open spec fn total_nodes_at(entries: Seq<NonCodeSlot>, k: int) -> nat
    decreases entries.len() - k,
{
    if k < 0 || k >= entries.len() {
        0
    } else {
        entries[k].nodes@.len() + total_nodes_at(entries, k + 1)
    }
}

/// Total number of trivia nodes across all slots.
pub open spec fn total_nodes(meta: NonCodeMeta) -> nat {
    total_nodes_at(meta.non_code_nodes@, 0)
}

/// The association list has strictly increasing slot indices.
pub open spec fn meta_sorted(meta: NonCodeMeta) -> bool {
    forall|a: int, b: int|
        0 <= a < b < meta.non_code_nodes@.len()
            ==> meta.non_code_nodes@[a].index < meta.non_code_nodes@[b].index
}

impl NonCodeMeta {
    /// An empty trivia index.
    pub fn new() -> (r: NonCodeMeta)
        ensures
            r.start_nodes@ == Seq::<NonCodeNode>::empty(),
            r.non_code_nodes@ == Seq::<NonCodeSlot>::empty(),
    {
        NonCodeMeta { start_nodes: Vec::new(), non_code_nodes: Vec::new() }
    }

    /// The trivia nodes at slot `i`, if any.
    pub fn get(&self, i: usize) -> (r: Option<&Vec<NonCodeNode>>)
        ensures
            match r {
                Some(nodes) => slot_lookup(*self, i as int) == Some(nodes@),
                None => slot_lookup(*self, i as int) is None,
            },
    {
        let n = self.non_code_nodes.len();
        let mut k: usize = 0;
        while k < n
            invariant
                0 <= k <= n == self.non_code_nodes@.len(),
                slot_pos_at(self.non_code_nodes@, 0, i as int) == slot_pos_at(
                    self.non_code_nodes@,
                    k as int,
                    i as int,
                ),
            decreases n - k,
        {
            if self.non_code_nodes[k].index == i {
                return Some(&self.non_code_nodes[k].nodes);
            }
            k = k + 1;
        }
        None
    }

    /// Total number of trivia nodes across all slots.
    pub fn non_code_nodes_len(&self) -> (r: usize)
        requires
            total_nodes(*self) <= usize::MAX,
        ensures
            r == total_nodes(*self),
    {
        let n = self.non_code_nodes.len();
        let mut k: usize = 0;
        let mut sum: usize = 0;
        while k < n
            invariant
                0 <= k <= n == self.non_code_nodes@.len(),
                total_nodes_at(self.non_code_nodes@, 0) <= usize::MAX,
                sum + total_nodes_at(self.non_code_nodes@, k as int) == total_nodes_at(
                    self.non_code_nodes@,
                    0,
                ),
            decreases n - k,
        {
            proof {
                lemma_total_nodes_nonneg(self.non_code_nodes@, k + 1);
            }
            sum = sum + self.non_code_nodes[k].nodes.len();
            k = k + 1;
        }
        sum
    }
}

/// Node counts are never negative.
pub proof fn lemma_total_nodes_nonneg(entries: Seq<NonCodeSlot>, k: int)
    ensures
        total_nodes_at(entries, k) >= 0,
    decreases entries.len() - k,
{
    if 0 <= k < entries.len() {
        lemma_total_nodes_nonneg(entries, k + 1);
    }
}

/// A found slot position is in range and carries the searched index.
pub proof fn lemma_slot_pos_valid(entries: Seq<NonCodeSlot>, k: int, i: int)
    requires
        0 <= k,
        slot_pos_at(entries, k, i) is Some,
    ensures
        k <= slot_pos_at(entries, k, i).unwrap() < entries.len(),
        entries[slot_pos_at(entries, k, i).unwrap()].index == i,
    decreases entries.len() - k,
{
    if k < entries.len() && entries[k].index != i {
        lemma_slot_pos_valid(entries, k + 1, i);
    }
}

/// Number of association-list entries whose slot index is below `i`.
pub open spec fn keys_below_at(entries: Seq<NonCodeSlot>, k: int, i: int) -> int
    decreases entries.len() - k,
{
    if k < 0 || k >= entries.len() {
        0
    } else {
        (if entries[k].index < i {
            1int
        } else {
            0int
        }) + keys_below_at(entries, k + 1, i)
    }
}

/// Number of slots with index below `i`.
pub open spec fn keys_below(meta: NonCodeMeta, i: int) -> int {
    keys_below_at(meta.non_code_nodes@, 0, i)
}

/// Number of positions in `0..i` that are not trivia slots.
pub open spec fn non_slots_below(meta: NonCodeMeta, i: int) -> int {
    i - keys_below(meta, i)
}

/// Counting step: going from bound `i` to `i + 1` adds one when slot `i`
/// exists and the indices are distinct.
pub proof fn lemma_keys_below_step(entries: Seq<NonCodeSlot>, k: int, i: int)
    requires
        0 <= k,
        forall|a: int, b: int| 0 <= a < b < entries.len() ==> entries[a].index != entries[b].index,
    ensures
        keys_below_at(entries, k, i + 1) == keys_below_at(entries, k, i) + (
        if slot_pos_at(entries, k, i) is Some {
            1int
        } else {
            0int
        }),
    decreases entries.len() - k,
{
    if k < entries.len() {
        if entries[k].index == i {
            lemma_keys_below_eq_none(entries, k + 1, i);
            lemma_keys_below_step(entries, k + 1, i);
        } else {
            lemma_keys_below_step(entries, k + 1, i);
        }
    }
}

/// Where index `i` occurs nowhere from `k` on, the count is unchanged.
proof fn lemma_keys_below_eq_none(entries: Seq<NonCodeSlot>, k: int, i: int)
    requires
        0 <= k,
        forall|j: int| k <= j < entries.len() ==> entries[j].index != i,
    ensures
        keys_below_at(entries, k, i + 1) == keys_below_at(entries, k, i),
        slot_pos_at(entries, k, i) is None,
    decreases entries.len() - k,
{
    if k < entries.len() {
        lemma_keys_below_eq_none(entries, k + 1, i);
    }
}

/// No slot index is below zero.
pub proof fn lemma_keys_below_at_zero(entries: Seq<NonCodeSlot>, k: int)
    requires
        0 <= k,
    ensures
        keys_below_at(entries, k, 0) == 0,
    decreases entries.len() - k,
{
    if k < entries.len() {
        lemma_keys_below_at_zero(entries, k + 1);
    }
}

/// Number of interleaved positions in an array: elements plus trivia.
pub open spec fn array_num_items(a: ArrayExpression) -> nat {
    a.elements@.len() + total_nodes(a.non_code_meta)
}

/// Number of interleaved positions in an object: properties plus trivia.
pub open spec fn object_num_items(o: ObjectExpression) -> nat {
    o.properties@.len() + total_nodes(o.non_code_meta)
}

/// A trivia index is well-formed when its slot indices are strictly
/// increasing and every node it holds is well-formed.
pub open spec fn meta_wf(meta: NonCodeMeta) -> bool
    decreases meta,
{
    &&& meta_sorted(meta)
    &&& forall|i: int|
        0 <= i < meta.start_nodes@.len() ==> trivia_wf(#[trigger] meta.start_nodes@[i])
    &&& forall|j: int, k: int|
        0 <= j < meta.non_code_nodes@.len() && 0 <= k < meta.non_code_nodes@[j].nodes@.len()
            ==> trivia_wf(#[trigger] meta.non_code_nodes@[j].nodes@[k])
}

/// A trivia index valid for interleaved rendering over `len` code items:
/// every slot holds exactly one node, every slot index is a valid
/// interleaved position, and the positions left over for code items are
/// exactly `len`.
pub open spec fn meta_interleave_wf(meta: NonCodeMeta, len: int) -> bool {
    let num = len + total_nodes(meta);
    &&& num <= usize::MAX
    &&& forall|j: int|
        0 <= j < meta.non_code_nodes@.len() ==> (#[trigger] meta.non_code_nodes@[j]).nodes@.len()
            == 1
    &&& forall|j: int|
        0 <= j < meta.non_code_nodes@.len() ==> 0 <= (#[trigger] meta.non_code_nodes@[j]).index
            < num
    &&& non_slots_below(meta, num) == len
}

/// A well-formed trivia node: an annotation's property values are
/// well-formed expressions.
pub open spec fn trivia_wf(nd: NonCodeNode) -> bool
    decreases nd,
{
    match nd.value {
        NonCodeValue::Annotation { name: _, properties } => match properties {
            Some(props) => forall|i: int|
                0 <= i < props@.len() ==> expr_wf((#[trigger] props@[i]).value),
            None => true,
        },
        _ => true,
    }
}

/// A well-formed program: its trivia index and every body item are
/// well-formed.
pub open spec fn program_wf(p: Program) -> bool
    decreases p,
{
    &&& meta_wf(p.non_code_meta)
    &&& forall|i: int| 0 <= i < p.body@.len() ==> body_item_wf(#[trigger] p.body@[i])
}

/// A well-formed body item.
pub open spec fn body_item_wf(it: BodyItem) -> bool
    decreases it,
{
    match it {
        BodyItem::ImportStatement(_) => true,
        BodyItem::ExpressionStatement(st) => expr_wf(st.expression),
        BodyItem::VariableDeclaration(vd) => expr_wf(vd.declaration.init),
        BodyItem::ReturnStatement(st) => expr_wf(st.argument),
    }
}

/// A well-formed expression: the "no value" marker occurs nowhere, and
/// every interleaved trivia index is valid for its container.
pub open spec fn expr_wf(e: Expr) -> bool
    decreases e,
{
    match e {
        Expr::Literal(_) => true,
        Expr::Identifier(_) => true,
        Expr::TagDeclarator(_) => true,
        Expr::BinaryExpression(b) => binary_part_wf(b.left) && binary_part_wf(b.right),
        Expr::FunctionExpression(f) => program_wf(f.body),
        Expr::CallExpression(c) => forall|i: int|
            0 <= i < c.arguments@.len() ==> expr_wf(#[trigger] c.arguments@[i]),
        Expr::CallExpressionKw(c) => {
            &&& match c.unlabeled {
                Some(u) => expr_wf(u),
                None => true,
            }
            &&& forall|i: int|
                0 <= i < c.arguments@.len() ==> expr_wf((#[trigger] c.arguments@[i]).arg)
        },
        Expr::PipeExpression(pe) => {
            &&& meta_wf(pe.non_code_meta)
            &&& forall|i: int| 0 <= i < pe.body@.len() ==> expr_wf(#[trigger] pe.body@[i])
        },
        Expr::PipeSubstitution => true,
        Expr::ArrayExpression(a) => {
            &&& meta_wf(a.non_code_meta)
            &&& meta_interleave_wf(a.non_code_meta, a.elements@.len() as int)
            &&& forall|i: int| 0 <= i < a.elements@.len() ==> expr_wf(#[trigger] a.elements@[i])
        },
        Expr::ArrayRangeExpression(r) => expr_wf(r.start_element) && expr_wf(r.end_element),
        Expr::ObjectExpression(o) => {
            &&& meta_wf(o.non_code_meta)
            &&& meta_interleave_wf(o.non_code_meta, o.properties@.len() as int)
            &&& forall|i: int|
                0 <= i < o.properties@.len() ==> expr_wf((#[trigger] o.properties@[i]).value)
        },
        Expr::MemberExpression(_) => true,
        Expr::UnaryExpression(u) => binary_part_wf(u.argument),
        Expr::IfExpression(ife) => {
            &&& expr_wf(*ife.cond)
            &&& program_wf(*ife.then_val)
            &&& forall|i: int|
                0 <= i < ife.else_ifs@.len() ==> expr_wf((#[trigger] ife.else_ifs@[i]).cond)
                    && program_wf(ife.else_ifs@[i].then_val)
            &&& program_wf(*ife.final_else)
        },
        Expr::LabelledExpression(l) => expr_wf(l.expr),
        Expr::NoValue => false,
    }
}

/// A well-formed binary operand.
pub open spec fn binary_part_wf(p: BinaryPart) -> bool
    decreases p,
{
    match p {
        BinaryPart::Literal(_) => true,
        BinaryPart::Identifier(_) => true,
        BinaryPart::BinaryExpression(b) => binary_part_wf(b.left) && binary_part_wf(b.right),
        BinaryPart::CallExpression(c) => forall|i: int|
            0 <= i < c.arguments@.len() ==> expr_wf(#[trigger] c.arguments@[i]),
        BinaryPart::CallExpressionKw(c) => {
            &&& match c.unlabeled {
                Some(u) => expr_wf(u),
                None => true,
            }
            &&& forall|i: int|
                0 <= i < c.arguments@.len() ==> expr_wf((#[trigger] c.arguments@[i]).arg)
        },
        BinaryPart::UnaryExpression(u) => binary_part_wf(u.argument),
        BinaryPart::MemberExpression(_) => true,
        BinaryPart::IfExpression(ife) => {
            &&& expr_wf(*ife.cond)
            &&& program_wf(*ife.then_val)
            &&& forall|i: int|
                0 <= i < ife.else_ifs@.len() ==> expr_wf((#[trigger] ife.else_ifs@[i]).cond)
                    && program_wf(ife.else_ifs@[i].then_val)
            &&& program_wf(*ife.final_else)
        },
    }
}

} // verus!
