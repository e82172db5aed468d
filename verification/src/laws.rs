//! Laws of the layout rules, stated and proved once for all inputs.

use vstd::prelude::*;

use crate::ast::ArrayExpression;
use crate::ast::NonCodeNode;
use crate::ast::ObjectExpression;
use crate::ast::Program as ProgramNode;
use crate::ast::UnaryExpression;
use crate::ast::BinaryExpression;
use crate::ast::array_num_items;
use crate::ast::lemma_keys_below_at_zero;
use crate::ast::meta_interleave_wf;
use crate::ast::meta_sorted;
use crate::ast::non_slots_below;
use crate::ast::object_num_items;
use crate::ast::slot_pos;
use crate::model::ExprContext;
use crate::model::MAX_FLAT_LEN;
use crate::model::array_item_text;
use crate::model::array_items_text;
use crate::model::array_text;
use crate::model::closed_items;
use crate::model::concat_texts;
use crate::model::expr_text;
use crate::model::item_lines_text;
use crate::model::lemma_array_items_index;
use crate::model::lemma_non_slots_step;
use crate::model::meta_forces_multi_line;
use crate::model::object_item_text;
use crate::model::object_multi_text;
use crate::model::object_text;
use crate::model::binary_expr_text;
use crate::model::binary_op_text;
use crate::model::binary_part_text;
use crate::model::program_text;
use crate::model::trivia_text;
use crate::model::unary_op_text;
use crate::model::unary_text;
use crate::model::wraps_left;
use crate::model::wraps_right;
use crate::options::FormatOptions;
use crate::options::indentation;
use crate::options::indentation_offset_pipe;
use crate::text::strip_comma_space;
use crate::text::trim;

verus! {

/// Blank-line collapse: a blank-line marker renders as exactly one blank
/// line — two newline characters — whatever run of consecutive source
/// blank lines produced it, and wherever it stands.
pub proof fn lemma_blank_line_collapse(nd: NonCodeNode, opts: FormatOptions, level: int)
    requires
        nd.value is NewLine,
    ensures
        trivia_text(nd, opts, level).len() == 2,
        trivia_text(nd, opts, level)[0] == '\n',
        trivia_text(nd, opts, level)[1] == '\n',
{
    reveal_strlit("\n\n");
}

/// Appending `", "` and stripping it again is the identity.
proof fn lemma_strip_appended_comma(x: Seq<char>)
    ensures
        strip_comma_space(x + ", "@) == x,
{
    reveal_strlit(", ");
    let y = x + ", "@;
    assert(y.len() == x.len() + 2);
    assert(y[y.len() - 2] == ',');
    assert(y[y.len() - 1] == ' ');
    assert(y.subrange(0, y.len() - 2) =~= x);
}

/// Trailing-comma removal for arrays: when the final interleaved
/// position of an array holds an element, the last rendered item is
/// exactly that element's text — the separating `", "` every earlier
/// element carries is stripped from it.
pub proof fn lemma_array_trailing_comma_removed(a: ArrayExpression, opts: FormatOptions)
    requires
        meta_sorted(a.non_code_meta),
        meta_interleave_wf(a.non_code_meta, a.elements@.len() as int),
        array_num_items(a) >= 1,
        slot_pos(a.non_code_meta, array_num_items(a) - 1) is None,
    ensures
        a.elements@.len() >= 1,
        closed_items(array_items_text(a, opts, array_num_items(a) as int)).last() == expr_text(
            a.elements@[a.elements@.len() - 1],
            opts,
            0,
            ExprContext::Other,
        ),
{
    let num = array_num_items(a) as int;
    lemma_non_slots_step(a.non_code_meta, num - 1);
    let e = non_slots_below(a.non_code_meta, num - 1);
    assert(non_slots_below(a.non_code_meta, num) == e + 1);
    assert(e + 1 == a.elements@.len());
    assert(e >= 0) by {
        lemma_keys_below_at_zero(a.non_code_meta.non_code_nodes@, 0);
        crate::model::lemma_non_slots_mono(a.non_code_meta, 0, num - 1);
    }
    lemma_array_items_index(a, opts, num);
    let items = array_items_text(a, opts, num);
    assert(items.last() == array_item_text(a, opts, num - 1));
    assert(items.last() == expr_text(a.elements@[e], opts, 0, ExprContext::Other) + ", "@);
    lemma_strip_appended_comma(expr_text(a.elements@[e], opts, 0, ExprContext::Other));
    assert(closed_items(items).last() == strip_comma_space(items.last()));
}

/// Trailing-comma removal for objects: in the multi-line form, the item
/// at the final interleaved position, when it holds a property, renders
/// as `key = value` with no comma after it, while every earlier property
/// carries one.
pub proof fn lemma_object_trailing_comma_removed(
    o: ObjectExpression,
    opts: FormatOptions,
    level: int,
    ctxt: ExprContext,
    k: int,
)
    requires
        0 <= k < object_num_items(o),
        slot_pos(o.non_code_meta, k) is None,
    ensures
        k == object_num_items(o) - 1 ==> object_item_text(o, opts, level, ctxt, k) == (
        if 0 <= non_slots_below(o.non_code_meta, k) < o.properties@.len() {
            o.properties@[non_slots_below(o.non_code_meta, k)].key.name@ + " = "@ + trim(
                expr_text(
                    o.properties@[non_slots_below(o.non_code_meta, k)].value,
                    opts,
                    crate::model::next_level(level),
                    ctxt,
                ),
            )
        } else {
            Seq::<char>::empty()
        }),
        k < object_num_items(o) - 1 ==> object_item_text(o, opts, level, ctxt, k) == (
        if 0 <= non_slots_below(o.non_code_meta, k) < o.properties@.len() {
            o.properties@[non_slots_below(o.non_code_meta, k)].key.name@ + " = "@ + trim(
                expr_text(
                    o.properties@[non_slots_below(o.non_code_meta, k)].value,
                    opts,
                    crate::model::next_level(level),
                    ctxt,
                ),
            )
        } else {
            Seq::<char>::empty()
        }) + ",\n"@,
{
    if k == object_num_items(o) - 1 {
        assert(object_item_text(o, opts, level, ctxt, k) =~= (
        if 0 <= non_slots_below(o.non_code_meta, k) < o.properties@.len() {
            o.properties@[non_slots_below(o.non_code_meta, k)].key.name@ + " = "@ + trim(
                expr_text(
                    o.properties@[non_slots_below(o.non_code_meta, k)].value,
                    opts,
                    crate::model::next_level(level),
                    ctxt,
                ),
            )
        } else {
            Seq::<char>::empty()
        }));
    }
}

/// Threshold boundary for arrays: the flat form is kept exactly when it
/// is at most the threshold long and no comment or blank-line marker
/// among the interleaved trivia forces wrapping; otherwise the rendering
/// is the one-item-per-line form.
pub proof fn lemma_array_threshold(a: ArrayExpression, opts: FormatOptions, level: int, ctxt: ExprContext)
    ensures
        ({
            let items = closed_items(array_items_text(a, opts, array_num_items(a) as int));
            let flat = "["@ + concat_texts(items) + "]"@;
            &&& (flat.len() <= MAX_FLAT_LEN && !meta_forces_multi_line(a.non_code_meta))
                ==> array_text(a, opts, level, ctxt) == flat
            &&& (flat.len() > MAX_FLAT_LEN || meta_forces_multi_line(a.non_code_meta))
                ==> array_text(a, opts, level, ctxt) == "[\n"@ + item_lines_text(
                items,
                (if ctxt is Pipe {
                    indentation_offset_pipe(opts, crate::model::next_level(level))
                } else {
                    indentation(opts, crate::model::next_level(level))
                }),
                items.len() as int,
            ) + (if ctxt is Pipe {
                indentation_offset_pipe(opts, level)
            } else {
                indentation(opts, level)
            }) + "]"@
        }),
{
}

/// Threshold boundary for objects: forcing trivia always wraps; without
/// it the flat `{ key = value, ... }` form is kept exactly when it is at
/// most the threshold long.
pub proof fn lemma_object_threshold(
    o: ObjectExpression,
    opts: FormatOptions,
    level: int,
    ctxt: ExprContext,
)
    ensures
        meta_forces_multi_line(o.non_code_meta) ==> object_text(o, opts, level, ctxt)
            == object_multi_text(o, opts, level, ctxt),
        ({
            let flat = "{ "@ + crate::model::object_props_flat_text(
                o.properties@,
                opts,
                level,
                ctxt,
                o.properties@.len() as int,
            ) + " }"@;
            &&& (!meta_forces_multi_line(o.non_code_meta) && flat.len() <= MAX_FLAT_LEN)
                ==> object_text(o, opts, level, ctxt) == flat
            &&& (!meta_forces_multi_line(o.non_code_meta) && flat.len() > MAX_FLAT_LEN)
                ==> object_text(o, opts, level, ctxt) == object_multi_text(o, opts, level, ctxt)
        }),
{
}


/// Precedence-safe parenthesization, at the printer's side: a unary
/// operator's compound operand is always parenthesized, so negating a
/// subtraction can never print as a bare subtraction chain.
pub proof fn lemma_unary_wraps_compound_operand(u: UnaryExpression, opts: FormatOptions)
    requires
        u.argument is BinaryExpression,
    ensures
        unary_text(u, opts) == unary_op_text(u.operator) + "("@ + binary_part_text(
            u.argument,
            opts,
            0,
        ) + ")"@,
{
}

/// Precedence-safe parenthesization, for binary operands: a weaker-
/// binding child is wrapped on either side, and the right operand of the
/// left-associative subtraction and division operators is wrapped even
/// at equal precedence.
pub proof fn lemma_binary_wraps_operands(b: BinaryExpression, opts: FormatOptions)
    ensures
        binary_expr_text(b, opts) == (if wraps_left(b) {
            "("@ + binary_part_text(b.left, opts, 0) + ")"@
        } else {
            binary_part_text(b.left, opts, 0)
        }) + " "@ + binary_op_text(b.operator) + " "@ + (if wraps_right(b) {
            "("@ + binary_part_text(b.right, opts, 0) + ")"@
        } else {
            binary_part_text(b.right, opts, 0)
        }),
        b.operator is Sub || b.operator is Div ==> (b.right is BinaryExpression ==> wraps_right(
            b,
        )),
{
}


/// The rendered program is trimmed: when non-empty it starts and ends on
/// a non-whitespace character, except for the single forced trailing
/// newline when the options ask for one.
pub proof fn lemma_program_output_trimmed(p: ProgramNode, opts: FormatOptions, level: int)
    ensures
        ({
            let out = program_text(p, opts, level);
            &&& out.len() > 0 ==> !crate::text::is_ws(out[0])
            &&& (out.len() > 0 && !opts.insert_final_newline) ==> !crate::text::is_ws(out.last())
            &&& (out.len() > 0 && opts.insert_final_newline) ==> (out.last() == '\n' && (out.len()
                > 1 ==> !crate::text::is_ws(out[out.len() - 2])))
        }),
{
    let shebang = match p.shebang {
        Some(s) => s@ + "\n\n"@,
        None => Seq::<char>::empty(),
    };
    let folded = shebang + crate::model::body_fold_text(p, opts, level, p.body@.len() as int);
    crate::text::lemma_trim_solid_borders(folded);
    reveal_strlit("\n");
}

} // verus!
