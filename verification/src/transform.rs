//! The transform: `aspect-ratio` declarations become `padding-top`
//! percentages, and the rule that holds one gets `:before` behind its
//! selector.
//!
//! A declaration is rewritten where its property is one of `aspect-ratio`,
//! `aspect` and `ratio`, and where it stands directly in a rule. Its value is
//! rewritten from the percentages in a table of evaluations, which the
//! caller works out: `AspectRatioMini::ratio_operands` lists the operands.

use crate::laws::lemma_transformed_root_shape;
use crate::printer::{fits, rendered_root, SimplePrettier};
use crate::ratio::{
    find_ratio_operands, process_ratio_value, ratio_operands, rewritten_value, RatioEvaluation,
    RatioEvaluationView, RatioOperands, RatioOperandsView,
};
use crate::text::text_eq;
use crate::tree::{
    lemma_block_well_formed_printable, nodes_view, AtRule, AtRuleView, Declaration,
    DeclarationView, NodeView, Root, RootView, Rule, RuleOrAtRuleOrDecl, RuleView,
};
use vstd::prelude::*;
use vstd::string::StringExecFns;

verus! {

/// The properties that the transform rewrites. The comparison is exact.
pub open spec fn is_ratio_property(prop: Seq<char>) -> bool {
    prop == "aspect-ratio"@ || prop == "aspect"@ || prop == "ratio"@
}

/// A declaration whose property the transform rewrites.
pub open spec fn is_ratio_declaration(node: NodeView) -> bool {
    node matches NodeView::Declaration(decl) && is_ratio_property(decl.prop)
}

/// One of `children` is a declaration that the transform rewrites.
pub open spec fn has_ratio_declaration(children: Seq<NodeView>) -> bool {
    exists|i: int| 0 <= i < children.len() && is_ratio_declaration(#[trigger] children[i])
}

/// A declaration after the transform: one with a ratio property becomes
/// `padding-top` with the rewritten value, any other stays as it is.
pub open spec fn transformed_declaration(
    decl: DeclarationView,
    evaluations: Seq<RatioEvaluationView>,
) -> DeclarationView {
    if is_ratio_property(decl.prop) {
        DeclarationView { prop: "padding-top"@, value: rewritten_value(decl.value, evaluations) }
    } else {
        decl
    }
}

/// An entry of a rule after the transform.
pub open spec fn transformed_in_rule(
    node: NodeView,
    evaluations: Seq<RatioEvaluationView>,
) -> NodeView
    decreases node,
{
    match node {
        NodeView::Rule(rule) => NodeView::Rule(rule),
        NodeView::AtRule(at_rule) => NodeView::AtRule(transformed_at_rule(at_rule, evaluations)),
        NodeView::Declaration(decl) => NodeView::Declaration(
            transformed_declaration(decl, evaluations),
        ),
    }
}

/// An entry of an at-rule, or of the top level, after the transform.
pub open spec fn transformed_in_block(
    node: NodeView,
    evaluations: Seq<RatioEvaluationView>,
) -> NodeView
    decreases node,
{
    match node {
        NodeView::Rule(rule) => NodeView::Rule(transformed_rule(rule, evaluations)),
        NodeView::AtRule(at_rule) => NodeView::AtRule(transformed_at_rule(at_rule, evaluations)),
        NodeView::Declaration(decl) => NodeView::Declaration(decl),
    }
}

/// A rule after the transform: every entry transformed in place, and
/// `:before` behind the selector where one of its own declarations had a
/// ratio property.
pub open spec fn transformed_rule(rule: RuleView, evaluations: Seq<RatioEvaluationView>) -> RuleView
    decreases rule,
{
    RuleView {
        selector: if has_ratio_declaration(rule.children) {
            rule.selector + ":before"@
        } else {
            rule.selector
        },
        children: Seq::new(
            rule.children.len(),
            |i: int|
                if 0 <= i < rule.children.len() {
                    transformed_in_rule(rule.children[i], evaluations)
                } else {
                    arbitrary()
                },
        ),
    }
}

/// An at-rule after the transform: name and parameters as they were, every
/// entry transformed in place.
pub open spec fn transformed_at_rule(
    at_rule: AtRuleView,
    evaluations: Seq<RatioEvaluationView>,
) -> AtRuleView
    decreases at_rule,
{
    AtRuleView {
        name: at_rule.name,
        params: at_rule.params,
        children: Seq::new(
            at_rule.children.len(),
            |i: int|
                if 0 <= i < at_rule.children.len() {
                    transformed_in_block(at_rule.children[i], evaluations)
                } else {
                    arbitrary()
                },
        ),
    }
}

/// A style sheet after the transform: every top-level entry transformed in
/// place.
pub open spec fn transformed_root(
    root: RootView,
    evaluations: Seq<RatioEvaluationView>,
) -> RootView {
    RootView {
        children: Seq::new(
            root.children.len(),
            |i: int| transformed_in_block(root.children[i], evaluations),
        ),
    }
}

/// The operands that a declaration gives: those of its value where its
/// property is a ratio property, none otherwise.
pub open spec fn declaration_operands(decl: DeclarationView) -> Seq<RatioOperandsView> {
    if is_ratio_property(decl.prop) {
        ratio_operands(decl.value)
    } else {
        Seq::empty()
    }
}

/// The operands of all ratio expressions that the transform meets in a rule,
/// in the order in which it meets them.
pub open spec fn rule_operands(rule: RuleView) -> Seq<RatioOperandsView>
    decreases rule,
{
    rule_body_operands(rule.children)
}

/// The operands of the entries of a rule, in order.
pub open spec fn rule_body_operands(nodes: Seq<NodeView>) -> Seq<RatioOperandsView>
    decreases nodes,
{
    if nodes.len() == 0 {
        Seq::empty()
    } else {
        rule_body_operands(nodes.drop_last()) + match nodes.last() {
            NodeView::Rule(_) => Seq::empty(),
            NodeView::AtRule(at_rule) => at_rule_operands(at_rule),
            NodeView::Declaration(decl) => declaration_operands(decl),
        }
    }
}

/// The operands of all ratio expressions that the transform meets in an
/// at-rule, in the order in which it meets them.
pub open spec fn at_rule_operands(at_rule: AtRuleView) -> Seq<RatioOperandsView>
    decreases at_rule,
{
    block_operands(at_rule.children)
}

/// The operands of the entries of an at-rule or of the top level, in order.
pub open spec fn block_operands(nodes: Seq<NodeView>) -> Seq<RatioOperandsView>
    decreases nodes,
{
    if nodes.len() == 0 {
        Seq::empty()
    } else {
        block_operands(nodes.drop_last()) + match nodes.last() {
            NodeView::Rule(rule) => rule_operands(rule),
            NodeView::AtRule(at_rule) => at_rule_operands(at_rule),
            NodeView::Declaration(_) => Seq::empty(),
        }
    }
}

/// The operands of all ratio expressions that the transform meets in a style
/// sheet, in the order in which it meets them.
pub open spec fn root_operands(root: RootView) -> Seq<RatioOperandsView> {
    block_operands(root.children)
}

/// Whether one more child has a ratio declaration: it does where the
/// children before it have one or the child itself is one.
proof fn lemma_has_ratio_step(children: Seq<NodeView>, i: int)
    requires
        0 <= i < children.len(),
    ensures
        has_ratio_declaration(children.take(i + 1)) == (has_ratio_declaration(children.take(i))
            || is_ratio_declaration(children[i])),
{
    let before = children.take(i);
    let upto = children.take(i + 1);
    if has_ratio_declaration(upto) {
        let k = choose|k: int| 0 <= k < upto.len() && is_ratio_declaration(#[trigger] upto[k]);
        assert(k < i ==> before[k] == upto[k]);
    }
    if has_ratio_declaration(before) {
        let k = choose|k: int| 0 <= k < before.len() && is_ratio_declaration(#[trigger] before[k]);
        assert(upto[k] == before[k]);
    }
    if is_ratio_declaration(children[i]) {
        assert(upto[i] == children[i]);
    }
}

/// The visitor that rewrites a tree in place. It holds the evaluations from
/// which the percentages are taken.
pub struct AspectRatioMini {
    pub evaluations: Vec<RatioEvaluation>,
}

impl View for AspectRatioMini {
    type V = Seq<RatioEvaluationView>;

    open spec fn view(&self) -> Seq<RatioEvaluationView> {
        self.evaluations.deep_view()
    }
}

impl Default for AspectRatioMini {
    /// A visitor without evaluations: no ratio expression has a percentage.
    fn default() -> (aspect: Self)
        ensures
            aspect@ == Seq::<RatioEvaluationView>::empty(),
    {
        AspectRatioMini { evaluations: Vec::new() }
    }
}

impl AspectRatioMini {
    /// A visitor that takes its percentages from `evaluations`.
    pub fn new(evaluations: Vec<RatioEvaluation>) -> (aspect: Self)
        ensures
            aspect@ == evaluations.deep_view(),
    {
        AspectRatioMini { evaluations }
    }

    /// Rewrites a style sheet in place and prints it with levels of `indent`
    /// spaces. The percentages are taken from `evaluations`, which the
    /// caller works out from `ratio_operands`.
    pub fn transform(root: &mut Root, indent: usize, evaluations: Vec<RatioEvaluation>) -> (css:
        String)
        requires
            old(root)@.well_formed(),
            fits(0, old(root)@.nesting(), indent as nat),
        ensures
            final(root)@ == transformed_root(old(root)@, evaluations.deep_view()),
            css@ == rendered_root(final(root)@, 0, indent as nat),
    {
        let aspect = AspectRatioMini::new(evaluations);
        aspect.visit_root(root);
        proof {
            lemma_transformed_root_shape(old(root)@, aspect@);
            lemma_block_well_formed_printable(root@.children);
        }
        let mut printer = SimplePrettier::new(String::new(), indent);
        printer.visit_root(root);
        printer.into_writer()
    }

    /// `transform` for any tree: where the tree is not well formed or its
    /// lines do not fit, it returns `None` and leaves the tree as it is.
    pub fn try_transform(root: &mut Root, indent: usize, evaluations: Vec<RatioEvaluation>) -> (css:
        Option<String>)
        ensures
            css is Some == (old(root)@.well_formed() && fits(
                0,
                old(root)@.nesting(),
                indent as nat,
            )),
            css is Some ==> final(root)@ == transformed_root(
                old(root)@,
                evaluations.deep_view(),
            ) && css.unwrap()@ == rendered_root(final(root)@, 0, indent as nat),
            css is None ==> *final(root) == *old(root),
    {
        let fitting = SimplePrettier::new(String::new(), indent).can_visit_root(root);
        if fitting && root.is_well_formed() {
            Some(AspectRatioMini::transform(root, indent, evaluations))
        } else {
            proof {
                if root@.well_formed() {
                    lemma_block_well_formed_printable(root@.children);
                }
            }
            None
        }
    }

    /// The operands of every ratio expression that `transform` meets in
    /// `root`, in the order in which it meets them. `transform` reads the
    /// evaluations of these operands and of no others.
    pub fn ratio_operands(root: &Root) -> (operands: Vec<RatioOperands>)
        ensures
            operands.deep_view() == root_operands(root@),
    {
        let mut operands: Vec<RatioOperands> = Vec::new();
        collect_block_operands(&root.children, &mut operands);
        operands
    }

    /// Rewrites one declaration. Returns whether its property was a ratio
    /// property; if not, the declaration is left untouched.
    pub fn visit_declaration(&self, decl: &mut Declaration) -> (rewritten: bool)
        ensures
            rewritten == is_ratio_property(old(decl)@.prop),
            final(decl)@ == transformed_declaration(old(decl)@, self@),
    {
        let need_process = has_ratio_property(decl);
        if !need_process {
            return false;
        }
        let value = process_ratio_value(decl.value.as_str(), &self.evaluations);
        process_ratio_conf(decl, value);
        true
    }

    /// Rewrites the declarations of a rule and of the at-rules nested in it,
    /// then puts `:before` behind the selector if one of the rule's own
    /// declarations had a ratio property. Always returns `false`.
    pub fn visit_rule(&self, rule: &mut Rule) -> (result: bool)
        requires
            old(rule)@.well_formed(),
        ensures
            final(rule)@ == transformed_rule(old(rule)@, self@),
            !result,
        decreases *old(rule),
    {
        let ghost before = rule@;
        let mut has_ratio_prop = false;
        let mut i: usize = 0;
        while i < rule.children.len()
            invariant
                i <= rule.children.len(),
                rule.children.len() == old(rule).children.len(),
                rule.selector == old(rule).selector,
                before == old(rule)@,
                before.well_formed(),
                forall|j: int|
                    i <= j < rule.children.len() ==> rule.children@[j] == old(rule).children@[j],
                forall|j: int|
                    0 <= j < i ==> (#[trigger] rule.children@[j])@ == transformed_in_rule(
                        before.children[j],
                        self@,
                    ),
                has_ratio_prop == has_ratio_declaration(before.children.take(i as int)),
            decreases rule.children.len() - i,
        {
            proof {
                lemma_has_ratio_step(before.children, i as int);
            }
            match &mut rule.children[i] {
                RuleOrAtRuleOrDecl::Rule(_) => unreached(),
                RuleOrAtRuleOrDecl::AtRule(at_rule) => {
                    self.visit_at_rule(at_rule);
                },
                RuleOrAtRuleOrDecl::Declaration(decl) => {
                    let rewritten = self.visit_declaration(decl);
                    has_ratio_prop = has_ratio_prop || rewritten;
                },
            }
            i += 1;
        }
        assert(before.children.take(i as int) =~= before.children);
        if has_ratio_prop {
            rule.selector.append(":before");
        }
        assert(rule@.children =~= transformed_rule(before, self@).children);
        false
    }

    /// Rewrites the rules and at-rules of an at-rule. Always returns `false`.
    pub fn visit_at_rule(&self, at_rule: &mut AtRule) -> (result: bool)
        requires
            old(at_rule)@.well_formed(),
        ensures
            final(at_rule)@ == transformed_at_rule(old(at_rule)@, self@),
            !result,
        decreases *old(at_rule),
    {
        let ghost before = at_rule@;
        let mut i: usize = 0;
        while i < at_rule.children.len()
            invariant
                i <= at_rule.children.len(),
                at_rule.children.len() == old(at_rule).children.len(),
                at_rule.name == old(at_rule).name,
                at_rule.params == old(at_rule).params,
                before == old(at_rule)@,
                before.well_formed(),
                forall|j: int|
                    i <= j < at_rule.children.len() ==> at_rule.children@[j] == old(
                        at_rule,
                    ).children@[j],
                forall|j: int|
                    0 <= j < i ==> (#[trigger] at_rule.children@[j])@ == transformed_in_block(
                        before.children[j],
                        self@,
                    ),
            decreases at_rule.children.len() - i,
        {
            match &mut at_rule.children[i] {
                RuleOrAtRuleOrDecl::Rule(rule) => {
                    self.visit_rule(rule);
                },
                RuleOrAtRuleOrDecl::AtRule(inner) => {
                    self.visit_at_rule(inner);
                },
                RuleOrAtRuleOrDecl::Declaration(_) => unreached(),
            }
            i += 1;
        }
        assert(at_rule@.children =~= transformed_at_rule(before, self@).children);
        false
    }

    /// Rewrites every rule and at-rule of a style sheet. Always returns
    /// `false`.
    pub fn visit_root(&self, root: &mut Root) -> (result: bool)
        requires
            old(root)@.well_formed(),
        ensures
            final(root)@ == transformed_root(old(root)@, self@),
            !result,
    {
        let ghost before = root@;
        let mut i: usize = 0;
        while i < root.children.len()
            invariant
                i <= root.children.len(),
                root.children.len() == old(root).children.len(),
                before == old(root)@,
                before.well_formed(),
                forall|j: int|
                    i <= j < root.children.len() ==> root.children@[j] == old(root).children@[j],
                forall|j: int|
                    0 <= j < i ==> (#[trigger] root.children@[j])@ == transformed_in_block(
                        before.children[j],
                        self@,
                    ),
            decreases root.children.len() - i,
        {
            match &mut root.children[i] {
                RuleOrAtRuleOrDecl::Rule(rule) => {
                    self.visit_rule(rule);
                },
                RuleOrAtRuleOrDecl::AtRule(at_rule) => {
                    self.visit_at_rule(at_rule);
                },
                RuleOrAtRuleOrDecl::Declaration(_) => unreached(),
            }
            i += 1;
        }
        assert(root@.children =~= transformed_root(before, self@).children);
        false
    }
}

/// Whether the property of `decl` is one that the transform rewrites.
fn has_ratio_property(decl: &Declaration) -> (recognised: bool)
    ensures
        recognised == is_ratio_property(decl@.prop),
{
    let prop = decl.prop.as_str();
    text_eq(prop, "aspect-ratio") || text_eq(prop, "aspect") || text_eq(prop, "ratio")
}

/// Appends the operands of the entries of a rule.
fn collect_rule_operands(nodes: &Vec<RuleOrAtRuleOrDecl>, operands: &mut Vec<RatioOperands>)
    ensures
        final(operands).deep_view() == old(operands).deep_view() + rule_body_operands(
            nodes_view(nodes@),
        ),
    decreases nodes,
{
    let ghost all = nodes_view(nodes@);
    let mut i: usize = 0;
    while i < nodes.len()
        invariant
            i <= nodes.len(),
            all == nodes_view(nodes@),
            operands.deep_view() == old(operands).deep_view() + rule_body_operands(
                all.take(i as int),
            ),
        decreases nodes.len() - i,
    {
        let ghost so_far = operands.deep_view();
        let ghost step = match all[i as int] {
            NodeView::Rule(_) => Seq::empty(),
            NodeView::AtRule(at_rule) => at_rule_operands(at_rule),
            NodeView::Declaration(decl) => declaration_operands(decl),
        };
        match &nodes[i] {
            RuleOrAtRuleOrDecl::Rule(_) => {},
            RuleOrAtRuleOrDecl::AtRule(at_rule) => {
                collect_block_operands(&at_rule.children, operands);
            },
            RuleOrAtRuleOrDecl::Declaration(decl) => {
                if has_ratio_property(decl) {
                    let mut found = find_ratio_operands(decl.value.as_str());
                    operands.append(&mut found);
                }
            },
        }
        proof {
            assert(operands.deep_view() =~= so_far + step);
            assert(all.take(i + 1).drop_last() =~= all.take(i as int));
        }
        i += 1;
    }
    assert(all.take(i as int) =~= all);
}

/// Appends the operands of the entries of an at-rule or of the top level.
fn collect_block_operands(nodes: &Vec<RuleOrAtRuleOrDecl>, operands: &mut Vec<RatioOperands>)
    ensures
        final(operands).deep_view() == old(operands).deep_view() + block_operands(
            nodes_view(nodes@),
        ),
    decreases nodes,
{
    let ghost all = nodes_view(nodes@);
    let mut i: usize = 0;
    while i < nodes.len()
        invariant
            i <= nodes.len(),
            all == nodes_view(nodes@),
            operands.deep_view() == old(operands).deep_view() + block_operands(
                all.take(i as int),
            ),
        decreases nodes.len() - i,
    {
        let ghost so_far = operands.deep_view();
        let ghost step = match all[i as int] {
            NodeView::Rule(rule) => rule_operands(rule),
            NodeView::AtRule(at_rule) => at_rule_operands(at_rule),
            NodeView::Declaration(_) => Seq::empty(),
        };
        match &nodes[i] {
            RuleOrAtRuleOrDecl::Rule(rule) => {
                collect_rule_operands(&rule.children, operands);
            },
            RuleOrAtRuleOrDecl::AtRule(at_rule) => {
                collect_block_operands(&at_rule.children, operands);
            },
            RuleOrAtRuleOrDecl::Declaration(_) => {},
        }
        proof {
            assert(operands.deep_view() =~= so_far + step);
            assert(all.take(i + 1).drop_last() =~= all.take(i as int));
        }
        i += 1;
    }
    assert(all.take(i as int) =~= all);
}

/// Makes `decl` a `padding-top` declaration with the value `ratio`.
fn process_ratio_conf(decl: &mut Declaration, ratio: String)
    ensures
        final(decl)@ == (DeclarationView { prop: "padding-top"@, value: ratio@ }),
{
    decl.prop = "padding-top".to_owned();
    decl.value = ratio;
}

} // verus!
