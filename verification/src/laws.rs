//! What holds of the transform and the printer on every tree.

use crate::printer::{indentation, rendered_declaration, rendered_rule, rendered_rule_body};
use crate::ratio::{
    all_evaluated, percentage_of, percentages, ratio_operands, rewritten_value,
    RatioEvaluationView, RatioOperandsView,
};
use crate::transform::{
    at_rule_operands, block_operands, declaration_operands, has_ratio_declaration,
    is_ratio_declaration, is_ratio_property, root_operands, rule_body_operands, rule_operands,
    transformed_at_rule, transformed_declaration, transformed_in_block, transformed_in_rule,
    transformed_root, transformed_rule,
};
use crate::tree::{
    lemma_deepest_alike, AtRuleView, DeclarationView, NodeView, RootView, RuleView,
};
use vstd::prelude::*;

verus! {

/// `padding-top` is not a property that the transform rewrites.
pub proof fn lemma_padding_top_is_no_ratio_property()
    ensures
        !is_ratio_property("padding-top"@),
{
    reveal_strlit("padding-top");
    reveal_strlit("aspect-ratio");
    reveal_strlit("aspect");
    reveal_strlit("ratio");
    assert("aspect-ratio"@.len() == 12);
    assert("aspect"@.len() == 6);
    assert("ratio"@.len() == 5);
}

/// The transform keeps the shape of a rule: as many entries as before, each
/// nested as deep as it was, and a well-formed rule stays well formed.
pub proof fn lemma_transformed_rule_shape(rule: RuleView, evaluations: Seq<RatioEvaluationView>)
    ensures
        transformed_rule(rule, evaluations).children.len() == rule.children.len(),
        transformed_rule(rule, evaluations).nesting() == rule.nesting(),
        rule.well_formed() ==> transformed_rule(rule, evaluations).well_formed(),
    decreases rule,
{
    let after = transformed_rule(rule, evaluations);
    assert forall|i: int| 0 <= i < rule.children.len() implies after.children[i].nesting()
        == rule.children[i].nesting() && (rule.well_formed() ==> match #[trigger] after.children[i]
    {
        NodeView::Rule(_) => false,
        NodeView::AtRule(at_rule) => at_rule.well_formed(),
        NodeView::Declaration(_) => true,
    }) by {
        if let NodeView::AtRule(at_rule) = rule.children[i] {
            lemma_transformed_at_rule_shape(at_rule, evaluations);
        }
    }
    lemma_deepest_alike(after.children, rule.children);
}

/// The transform keeps the shape of an at-rule: as many entries as before,
/// each nested as deep as it was, and a well-formed at-rule stays well
/// formed.
pub proof fn lemma_transformed_at_rule_shape(
    at_rule: AtRuleView,
    evaluations: Seq<RatioEvaluationView>,
)
    ensures
        transformed_at_rule(at_rule, evaluations).children.len() == at_rule.children.len(),
        transformed_at_rule(at_rule, evaluations).nesting() == at_rule.nesting(),
        at_rule.well_formed() ==> transformed_at_rule(at_rule, evaluations).well_formed(),
    decreases at_rule,
{
    let after = transformed_at_rule(at_rule, evaluations);
    assert forall|i: int| 0 <= i < at_rule.children.len() implies after.children[i].nesting()
        == at_rule.children[i].nesting() && (at_rule.well_formed()
        ==> match #[trigger] after.children[i] {
        NodeView::Rule(rule) => rule.well_formed(),
        NodeView::AtRule(inner) => inner.well_formed(),
        NodeView::Declaration(_) => false,
    }) by {
        match at_rule.children[i] {
            NodeView::Rule(rule) => {
                lemma_transformed_rule_shape(rule, evaluations);
            },
            NodeView::AtRule(inner) => {
                lemma_transformed_at_rule_shape(inner, evaluations);
            },
            NodeView::Declaration(_) => {},
        }
    }
    lemma_deepest_alike(after.children, at_rule.children);
}

/// The transform keeps the shape of a style sheet: as many top-level entries
/// as before, each nested as deep as it was, and a well-formed style sheet
/// stays well formed.
pub proof fn lemma_transformed_root_shape(root: RootView, evaluations: Seq<RatioEvaluationView>)
    ensures
        transformed_root(root, evaluations).children.len() == root.children.len(),
        transformed_root(root, evaluations).nesting() == root.nesting(),
        root.well_formed() ==> transformed_root(root, evaluations).well_formed(),
{
    let after = transformed_root(root, evaluations);
    assert forall|i: int| 0 <= i < root.children.len() implies after.children[i].nesting()
        == root.children[i].nesting() && (root.well_formed() ==> match #[trigger] after.children[i]
    {
        NodeView::Rule(rule) => rule.well_formed(),
        NodeView::AtRule(at_rule) => at_rule.well_formed(),
        NodeView::Declaration(_) => false,
    }) by {
        match root.children[i] {
            NodeView::Rule(rule) => {
                lemma_transformed_rule_shape(rule, evaluations);
            },
            NodeView::AtRule(at_rule) => {
                lemma_transformed_at_rule_shape(at_rule, evaluations);
            },
            NodeView::Declaration(_) => {},
        }
    }
    lemma_deepest_alike(after.children, root.children);
}

/// A declaration whose property is none of `aspect-ratio`, `aspect` and
/// `ratio` comes out of the transform as it went in, whatever the
/// evaluations, and is printed with the property and the value it had.
pub proof fn lemma_other_declaration_untouched(
    decl: DeclarationView,
    evaluations: Seq<RatioEvaluationView>,
    level: nat,
    indent: nat,
)
    requires
        !is_ratio_property(decl.prop),
    ensures
        transformed_declaration(decl, evaluations) == decl,
        rendered_declaration(transformed_declaration(decl, evaluations), level, indent)
            == indentation(level, indent) + decl.prop + ": "@ + decl.value + ";\n"@,
{
}

/// A declaration with a ratio property becomes a `padding-top` declaration,
/// whether or not its value could be rewritten.
pub proof fn lemma_ratio_declaration_renamed(
    decl: DeclarationView,
    evaluations: Seq<RatioEvaluationView>,
)
    requires
        is_ratio_property(decl.prop),
    ensures
        transformed_declaration(decl, evaluations).prop == "padding-top"@,
        transformed_declaration(decl, evaluations).value == rewritten_value(
            decl.value,
            evaluations,
        ),
{
}

/// A rule gets `:before` behind its selector exactly if one of its own
/// declarations has a ratio property.
pub proof fn lemma_selector_follows_declarations(
    rule: RuleView,
    evaluations: Seq<RatioEvaluationView>,
)
    ensures
        has_ratio_declaration(rule.children) ==> transformed_rule(rule, evaluations).selector
            == rule.selector + ":before"@,
        !has_ratio_declaration(rule.children) ==> transformed_rule(rule, evaluations).selector
            == rule.selector,
{
}

/// A rule none of whose own declarations has a ratio property keeps its
/// selector, its own declarations come out of the transform as they went in,
/// and its header line and the lines of its declarations are printed as they
/// would have been before.
pub proof fn lemma_rule_without_ratio_untouched(
    rule: RuleView,
    evaluations: Seq<RatioEvaluationView>,
    level: nat,
    indent: nat,
)
    requires
        !has_ratio_declaration(rule.children),
    ensures
        transformed_rule(rule, evaluations).selector == rule.selector,
        forall|i: int|
            0 <= i < rule.children.len() && rule.children[i] is Declaration
                ==> #[trigger] transformed_rule(rule, evaluations).children[i] == rule.children[i],
        rendered_rule(transformed_rule(rule, evaluations), level, indent) == indentation(
            level,
            indent,
        ) + rule.selector + " {\n"@ + rendered_rule_body(
            transformed_rule(rule, evaluations).children,
            level + 1,
            indent,
        ) + indentation(level, indent) + "}\n"@,
{
    assert forall|i: int|
        0 <= i < rule.children.len() && rule.children[i] is Declaration
            implies #[trigger] transformed_rule(rule, evaluations).children[i]
        == rule.children[i] by {
        assert(!is_ratio_declaration(rule.children[i]));
    }
}

/// After the transform none of a rule's own declarations has a ratio
/// property.
pub proof fn lemma_no_ratio_declaration_left(rule: RuleView, evaluations: Seq<RatioEvaluationView>)
    ensures
        !has_ratio_declaration(transformed_rule(rule, evaluations).children),
{
    lemma_padding_top_is_no_ratio_property();
    let after = transformed_rule(rule, evaluations);
    assert forall|i: int| 0 <= i < after.children.len() implies !is_ratio_declaration(
        #[trigger] after.children[i],
    ) by {
    }
}

/// A second pass changes nothing in a rule: the declarations that the first
/// pass rewrote are `padding-top` declarations, which the second leaves
/// alone, and the selector gets no second `:before`. This holds whatever
/// evaluations either pass is given.
pub proof fn lemma_second_pass_keeps_rule(
    rule: RuleView,
    first: Seq<RatioEvaluationView>,
    second: Seq<RatioEvaluationView>,
)
    ensures
        transformed_rule(transformed_rule(rule, first), second) == transformed_rule(rule, first),
    decreases rule,
{
    lemma_padding_top_is_no_ratio_property();
    lemma_no_ratio_declaration_left(rule, first);
    let once = transformed_rule(rule, first);
    let twice = transformed_rule(once, second);
    assert forall|i: int| 0 <= i < once.children.len() implies twice.children[i]
        == once.children[i] by {
        if let NodeView::AtRule(at_rule) = rule.children[i] {
            lemma_second_pass_keeps_at_rule(at_rule, first, second);
        }
    }
    assert(twice.children =~= once.children);
}

/// A second pass changes nothing in an at-rule.
pub proof fn lemma_second_pass_keeps_at_rule(
    at_rule: AtRuleView,
    first: Seq<RatioEvaluationView>,
    second: Seq<RatioEvaluationView>,
)
    ensures
        transformed_at_rule(transformed_at_rule(at_rule, first), second) == transformed_at_rule(
            at_rule,
            first,
        ),
    decreases at_rule,
{
    let once = transformed_at_rule(at_rule, first);
    let twice = transformed_at_rule(once, second);
    assert forall|i: int| 0 <= i < once.children.len() implies twice.children[i]
        == once.children[i] by {
        match at_rule.children[i] {
            NodeView::Rule(rule) => {
                lemma_second_pass_keeps_rule(rule, first, second);
            },
            NodeView::AtRule(inner) => {
                lemma_second_pass_keeps_at_rule(inner, first, second);
            },
            NodeView::Declaration(_) => {},
        }
    }
    assert(twice.children =~= once.children);
}

/// A second pass changes nothing in a style sheet: no `padding-top`
/// declaration is touched again and no selector gets a second `:before`.
pub proof fn lemma_second_pass_keeps_root(
    root: RootView,
    first: Seq<RatioEvaluationView>,
    second: Seq<RatioEvaluationView>,
)
    ensures
        transformed_root(transformed_root(root, first), second) == transformed_root(root, first),
{
    let once = transformed_root(root, first);
    let twice = transformed_root(once, second);
    assert forall|i: int| 0 <= i < once.children.len() implies twice.children[i]
        == once.children[i] by {
        match root.children[i] {
            NodeView::Rule(rule) => {
                lemma_second_pass_keeps_rule(rule, first, second);
            },
            NodeView::AtRule(at_rule) => {
                lemma_second_pass_keeps_at_rule(at_rule, first, second);
            },
            NodeView::Declaration(_) => {},
        }
    }
    assert(twice.children =~= once.children);
}

/// A ratio declaration whose value cannot be rewritten keeps its value and
/// still becomes a `padding-top` declaration. The value cannot be rewritten
/// where it holds no ratio expression, or where one of its ratio expressions
/// has no percentage: a side of it is empty, or the evaluations give none.
pub proof fn lemma_unevaluated_ratio_keeps_value(
    decl: DeclarationView,
    evaluations: Seq<RatioEvaluationView>,
)
    requires
        is_ratio_property(decl.prop),
        ratio_operands(decl.value).len() == 0 || !all_evaluated(
            ratio_operands(decl.value),
            evaluations,
        ),
    ensures
        transformed_declaration(decl, evaluations) == (DeclarationView {
            prop: "padding-top"@,
            value: decl.value,
        }),
{
}

/// A ratio expression with an empty side has no percentage, whatever the
/// evaluations say of it.
pub proof fn lemma_empty_side_has_no_percentage(
    operands: RatioOperandsView,
    evaluations: Seq<RatioEvaluationView>,
)
    requires
        operands.numerator.len() == 0 || operands.denominator.len() == 0,
    ensures
        percentage_of(evaluations, operands) is None,
{
}

/// Two tables of evaluations give every one of `operands` the same
/// percentage.
pub open spec fn agree_on(
    operands: Seq<RatioOperandsView>,
    first: Seq<RatioEvaluationView>,
    second: Seq<RatioEvaluationView>,
) -> bool {
    forall|k: int|
        0 <= k < operands.len() ==> percentage_of(first, #[trigger] operands[k]) == percentage_of(
            second,
            operands[k],
        )
}

/// Tables that agree on a sequence of operands agree on its front part and
/// on its back part.
proof fn lemma_agree_on_parts(
    front: Seq<RatioOperandsView>,
    back: Seq<RatioOperandsView>,
    first: Seq<RatioEvaluationView>,
    second: Seq<RatioEvaluationView>,
)
    requires
        agree_on(front + back, first, second),
    ensures
        agree_on(front, first, second),
        agree_on(back, first, second),
{
    let whole = front + back;
    assert forall|k: int| 0 <= k < front.len() implies percentage_of(first, #[trigger] front[k])
        == percentage_of(second, front[k]) by {
        assert(whole[k] == front[k]);
    }
    assert forall|k: int| 0 <= k < back.len() implies percentage_of(first, #[trigger] back[k])
        == percentage_of(second, back[k]) by {
        assert(whole[front.len() + k] == back[k]);
    }
}

/// The value of a declaration is rewritten alike from two tables that agree
/// on the operands of its ratio expressions.
pub proof fn lemma_value_reads_its_operands(
    value: Seq<char>,
    first: Seq<RatioEvaluationView>,
    second: Seq<RatioEvaluationView>,
)
    requires
        agree_on(ratio_operands(value), first, second),
    ensures
        rewritten_value(value, first) == rewritten_value(value, second),
{
    let operands = ratio_operands(value);
    assert(percentages(operands, first) =~= percentages(operands, second));
}

/// Tables that agree on the operands of the entries of a rule agree on
/// those of each entry.
proof fn lemma_agree_on_rule_entry(
    nodes: Seq<NodeView>,
    first: Seq<RatioEvaluationView>,
    second: Seq<RatioEvaluationView>,
    i: int,
)
    requires
        agree_on(rule_body_operands(nodes), first, second),
        0 <= i < nodes.len(),
    ensures
        match nodes[i] {
            NodeView::Rule(_) => true,
            NodeView::AtRule(at_rule) => agree_on(at_rule_operands(at_rule), first, second),
            NodeView::Declaration(decl) => agree_on(declaration_operands(decl), first, second),
        },
    decreases nodes.len(),
{
    let last = match nodes.last() {
        NodeView::Rule(_) => Seq::empty(),
        NodeView::AtRule(at_rule) => at_rule_operands(at_rule),
        NodeView::Declaration(decl) => declaration_operands(decl),
    };
    lemma_agree_on_parts(rule_body_operands(nodes.drop_last()), last, first, second);
    if i < nodes.len() - 1 {
        lemma_agree_on_rule_entry(nodes.drop_last(), first, second, i);
    }
}

/// Tables that agree on the operands of the entries of an at-rule, or of
/// the top level, agree on those of each entry.
proof fn lemma_agree_on_block_entry(
    nodes: Seq<NodeView>,
    first: Seq<RatioEvaluationView>,
    second: Seq<RatioEvaluationView>,
    i: int,
)
    requires
        agree_on(block_operands(nodes), first, second),
        0 <= i < nodes.len(),
    ensures
        match nodes[i] {
            NodeView::Rule(rule) => agree_on(rule_operands(rule), first, second),
            NodeView::AtRule(at_rule) => agree_on(at_rule_operands(at_rule), first, second),
            NodeView::Declaration(_) => true,
        },
    decreases nodes.len(),
{
    let last = match nodes.last() {
        NodeView::Rule(rule) => rule_operands(rule),
        NodeView::AtRule(at_rule) => at_rule_operands(at_rule),
        NodeView::Declaration(_) => Seq::empty(),
    };
    lemma_agree_on_parts(block_operands(nodes.drop_last()), last, first, second);
    if i < nodes.len() - 1 {
        lemma_agree_on_block_entry(nodes.drop_last(), first, second, i);
    }
}

/// A rule is transformed alike from two tables that agree on its operands.
pub proof fn lemma_rule_reads_its_operands(
    rule: RuleView,
    first: Seq<RatioEvaluationView>,
    second: Seq<RatioEvaluationView>,
)
    requires
        agree_on(rule_operands(rule), first, second),
    ensures
        transformed_rule(rule, first) == transformed_rule(rule, second),
    decreases rule,
{
    let left = transformed_rule(rule, first);
    let right = transformed_rule(rule, second);
    assert forall|i: int| 0 <= i < rule.children.len() implies left.children[i]
        == right.children[i] by {
        lemma_agree_on_rule_entry(rule.children, first, second, i);
        match rule.children[i] {
            NodeView::Rule(_) => {},
            NodeView::AtRule(at_rule) => {
                lemma_at_rule_reads_its_operands(at_rule, first, second);
            },
            NodeView::Declaration(decl) => {
                if is_ratio_property(decl.prop) {
                    lemma_value_reads_its_operands(decl.value, first, second);
                }
            },
        }
    }
    assert(left.children =~= right.children);
}

/// An at-rule is transformed alike from two tables that agree on its
/// operands.
pub proof fn lemma_at_rule_reads_its_operands(
    at_rule: AtRuleView,
    first: Seq<RatioEvaluationView>,
    second: Seq<RatioEvaluationView>,
)
    requires
        agree_on(at_rule_operands(at_rule), first, second),
    ensures
        transformed_at_rule(at_rule, first) == transformed_at_rule(at_rule, second),
    decreases at_rule,
{
    let left = transformed_at_rule(at_rule, first);
    let right = transformed_at_rule(at_rule, second);
    assert forall|i: int| 0 <= i < at_rule.children.len() implies left.children[i]
        == right.children[i] by {
        lemma_agree_on_block_entry(at_rule.children, first, second, i);
        match at_rule.children[i] {
            NodeView::Rule(rule) => {
                lemma_rule_reads_its_operands(rule, first, second);
            },
            NodeView::AtRule(inner) => {
                lemma_at_rule_reads_its_operands(inner, first, second);
            },
            NodeView::Declaration(_) => {},
        }
    }
    assert(left.children =~= right.children);
}

/// The transform reads the evaluations of the operands that
/// `AspectRatioMini::ratio_operands` lists, and of no others: two tables
/// that give each listed operand the same percentage give the same tree.
pub proof fn lemma_root_reads_its_operands(
    root: RootView,
    first: Seq<RatioEvaluationView>,
    second: Seq<RatioEvaluationView>,
)
    requires
        agree_on(root_operands(root), first, second),
    ensures
        transformed_root(root, first) == transformed_root(root, second),
{
    let left = transformed_root(root, first);
    let right = transformed_root(root, second);
    assert forall|i: int| 0 <= i < root.children.len() implies left.children[i]
        == right.children[i] by {
        lemma_agree_on_block_entry(root.children, first, second, i);
        match root.children[i] {
            NodeView::Rule(rule) => {
                lemma_rule_reads_its_operands(rule, first, second);
            },
            NodeView::AtRule(at_rule) => {
                lemma_at_rule_reads_its_operands(at_rule, first, second);
            },
            NodeView::Declaration(_) => {},
        }
    }
    assert(left.children =~= right.children);
}

} // verus!
