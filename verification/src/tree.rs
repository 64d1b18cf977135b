//! The style-sheet tree and its mathematical model.
//!
//! A style sheet is a rooted, ordered tree. A `Rule` is a block headed by a
//! selector, an `AtRule` a block headed by a directive name and its
//! parameters, a `Declaration` a property with its value. Every executable
//! type has a view made of sequences of characters and sequences of nodes;
//! all contracts of this crate are stated over those views.

use vstd::prelude::*;

verus! {

/// A property and its value, such as `color: red`.
#[derive(Debug, PartialEq, Eq)]
pub struct Declaration {
    pub prop: String,
    pub value: String,
}

/// A block headed by a selector. The selector is kept as plain text.
#[derive(Debug, PartialEq, Eq)]
pub struct Rule {
    pub selector: String,
    pub children: Vec<RuleOrAtRuleOrDecl>,
}

/// A block headed by a directive name and its parameters.
#[derive(Debug, PartialEq, Eq)]
pub struct AtRule {
    pub name: String,
    pub params: String,
    pub children: Vec<RuleOrAtRuleOrDecl>,
}

/// One entry of a block.
#[derive(Debug, PartialEq, Eq)]
pub enum RuleOrAtRuleOrDecl {
    Rule(Rule),
    AtRule(AtRule),
    Declaration(Declaration),
}

/// A whole style sheet: its top-level entries in source order.
#[derive(Debug, PartialEq, Eq)]
pub struct Root {
    pub children: Vec<RuleOrAtRuleOrDecl>,
}

/// Model of a `Declaration`.
pub struct DeclarationView {
    pub prop: Seq<char>,
    pub value: Seq<char>,
}

/// Model of a `Rule`.
pub struct RuleView {
    pub selector: Seq<char>,
    pub children: Seq<NodeView>,
}

/// Model of an `AtRule`.
pub struct AtRuleView {
    pub name: Seq<char>,
    pub params: Seq<char>,
    pub children: Seq<NodeView>,
}

/// Model of a `RuleOrAtRuleOrDecl`.
pub enum NodeView {
    Rule(RuleView),
    AtRule(AtRuleView),
    Declaration(DeclarationView),
}

/// Model of a `Root`.
pub struct RootView {
    pub children: Seq<NodeView>,
}

/// The model of one node.
pub open spec fn node_view(node: RuleOrAtRuleOrDecl) -> NodeView
    decreases node,
{
    match node {
        RuleOrAtRuleOrDecl::Rule(rule) => NodeView::Rule(
            RuleView { selector: rule.selector@, children: nodes_view(rule.children@) },
        ),
        RuleOrAtRuleOrDecl::AtRule(at_rule) => NodeView::AtRule(
            AtRuleView {
                name: at_rule.name@,
                params: at_rule.params@,
                children: nodes_view(at_rule.children@),
            },
        ),
        RuleOrAtRuleOrDecl::Declaration(decl) => NodeView::Declaration(
            DeclarationView { prop: decl.prop@, value: decl.value@ },
        ),
    }
}

/// The models of a sequence of nodes, in the same order.
pub open spec fn nodes_view(nodes: Seq<RuleOrAtRuleOrDecl>) -> Seq<NodeView>
    decreases nodes,
{
    Seq::new(
        nodes.len(),
        |i: int|
            if 0 <= i < nodes.len() {
                node_view(nodes[i])
            } else {
                arbitrary()
            },
    )
}

impl View for Declaration {
    type V = DeclarationView;

    open spec fn view(&self) -> DeclarationView {
        DeclarationView { prop: self.prop@, value: self.value@ }
    }
}

impl View for Rule {
    type V = RuleView;

    open spec fn view(&self) -> RuleView {
        RuleView { selector: self.selector@, children: nodes_view(self.children@) }
    }
}

impl View for AtRule {
    type V = AtRuleView;

    open spec fn view(&self) -> AtRuleView {
        AtRuleView {
            name: self.name@,
            params: self.params@,
            children: nodes_view(self.children@),
        }
    }
}

impl View for RuleOrAtRuleOrDecl {
    type V = NodeView;

    open spec fn view(&self) -> NodeView {
        node_view(*self)
    }
}

impl View for Root {
    type V = RootView;

    open spec fn view(&self) -> RootView {
        RootView { children: nodes_view(self.children@) }
    }
}

/// The larger of two naturals.
pub open spec fn larger(a: nat, b: nat) -> nat {
    if a >= b {
        a
    } else {
        b
    }
}

/// How many blocks are nested in the deepest of `nodes`, each block counting
/// itself. A declaration counts zero.
pub open spec fn deepest(nodes: Seq<NodeView>) -> nat
    decreases nodes,
{
    if nodes.len() == 0 {
        0
    } else {
        larger(deepest(nodes.drop_last()), nodes.last().nesting())
    }
}

/// The entries of a rule are declarations and at-rules, never a rule, and
/// the at-rules among them are well formed in turn.
pub open spec fn rule_body_well_formed(nodes: Seq<NodeView>) -> bool
    decreases nodes,
{
    forall|i: int|
        0 <= i < nodes.len() ==> match #[trigger] nodes[i] {
            NodeView::Rule(_) => false,
            NodeView::AtRule(at_rule) => block_well_formed(at_rule.children),
            NodeView::Declaration(_) => true,
        }
}

/// The entries of an at-rule, or of the top level, are rules and at-rules,
/// never a bare declaration, and each of them is well formed in turn.
pub open spec fn block_well_formed(nodes: Seq<NodeView>) -> bool
    decreases nodes,
{
    forall|i: int|
        0 <= i < nodes.len() ==> match #[trigger] nodes[i] {
            NodeView::Rule(rule) => rule_body_well_formed(rule.children),
            NodeView::AtRule(at_rule) => block_well_formed(at_rule.children),
            NodeView::Declaration(_) => false,
        }
}

/// What the printer asks of the entries of a rule: no rule among them, and
/// printable at-rules.
pub open spec fn rule_body_printable(nodes: Seq<NodeView>) -> bool
    decreases nodes,
{
    forall|i: int|
        0 <= i < nodes.len() ==> match #[trigger] nodes[i] {
            NodeView::Rule(_) => false,
            NodeView::AtRule(at_rule) => block_printable(at_rule.children),
            NodeView::Declaration(_) => true,
        }
}

/// What the printer asks of the entries of an at-rule: printable rules and
/// at-rules. A declaration among them is allowed; the printer passes over
/// it.
pub open spec fn block_printable(nodes: Seq<NodeView>) -> bool
    decreases nodes,
{
    forall|i: int|
        0 <= i < nodes.len() ==> match #[trigger] nodes[i] {
            NodeView::Rule(rule) => rule_body_printable(rule.children),
            NodeView::AtRule(at_rule) => block_printable(at_rule.children),
            NodeView::Declaration(_) => true,
        }
}

impl NodeView {
    /// The number of block levels this node spans.
    pub open spec fn nesting(self) -> nat
        decreases self,
    {
        match self {
            NodeView::Rule(rule) => 1 + deepest(rule.children),
            NodeView::AtRule(at_rule) => 1 + deepest(at_rule.children),
            NodeView::Declaration(_) => 0,
        }
    }
}

impl RuleView {
    /// One more than the nesting of the deepest entry.
    pub open spec fn nesting(self) -> nat {
        1 + deepest(self.children)
    }

    /// The transform asks for a well-formed rule: it holds declarations and
    /// well-formed at-rules, and no rule.
    pub open spec fn well_formed(self) -> bool {
        rule_body_well_formed(self.children)
    }

    /// The printer asks for a printable rule: it holds declarations and
    /// printable at-rules, and no rule.
    pub open spec fn printable(self) -> bool {
        rule_body_printable(self.children)
    }
}

impl AtRuleView {
    /// One more than the nesting of the deepest entry.
    pub open spec fn nesting(self) -> nat {
        1 + deepest(self.children)
    }

    /// The transform asks for a well-formed at-rule: it holds well-formed
    /// rules and at-rules, and no bare declaration.
    pub open spec fn well_formed(self) -> bool {
        block_well_formed(self.children)
    }

    /// The printer asks for a printable at-rule: the rules and at-rules in
    /// it are printable.
    pub open spec fn printable(self) -> bool {
        block_printable(self.children)
    }
}

impl RootView {
    /// The nesting of the deepest top-level entry.
    pub open spec fn nesting(self) -> nat {
        deepest(self.children)
    }

    /// The transform asks for a well-formed style sheet: its top level holds
    /// well-formed rules and at-rules, and no bare declaration.
    pub open spec fn well_formed(self) -> bool {
        block_well_formed(self.children)
    }

    /// The printer asks for a printable style sheet: printable rules and
    /// at-rules, and no declaration at the top level.
    pub open spec fn printable(self) -> bool {
        &&& block_printable(self.children)
        &&& forall|i: int|
            0 <= i < self.children.len() ==> !(#[trigger] self.children[i] is Declaration)
    }
}

/// No node of a sequence is nested deeper than the deepest of them.
pub proof fn lemma_deepest_bounds(nodes: Seq<NodeView>, i: int)
    requires
        0 <= i < nodes.len(),
    ensures
        nodes[i].nesting() <= deepest(nodes),
    decreases nodes.len(),
{
    if i < nodes.len() - 1 {
        lemma_deepest_bounds(nodes.drop_last(), i);
    }
}

/// Two sequences whose nodes are nested alike, place by place, are equally
/// deep.
pub proof fn lemma_deepest_alike(left: Seq<NodeView>, right: Seq<NodeView>)
    requires
        left.len() == right.len(),
        forall|i: int| 0 <= i < left.len() ==> left[i].nesting() == right[i].nesting(),
    ensures
        deepest(left) == deepest(right),
    decreases left.len(),
{
    if left.len() > 0 {
        lemma_deepest_alike(left.drop_last(), right.drop_last());
    }
}

/// What is well formed can be printed: the entries of a rule.
pub proof fn lemma_rule_body_well_formed_printable(nodes: Seq<NodeView>)
    requires
        rule_body_well_formed(nodes),
    ensures
        rule_body_printable(nodes),
    decreases nodes,
{
    assert forall|i: int| 0 <= i < nodes.len() implies match #[trigger] nodes[i] {
        NodeView::Rule(_) => false,
        NodeView::AtRule(at_rule) => block_printable(at_rule.children),
        NodeView::Declaration(_) => true,
    } by {
        if let NodeView::AtRule(at_rule) = nodes[i] {
            lemma_block_well_formed_printable(at_rule.children);
        }
    }
}

/// What is well formed can be printed: the entries of an at-rule or of the
/// top level, none of which is then a declaration.
pub proof fn lemma_block_well_formed_printable(nodes: Seq<NodeView>)
    requires
        block_well_formed(nodes),
    ensures
        block_printable(nodes),
        forall|i: int| 0 <= i < nodes.len() ==> !(#[trigger] nodes[i] is Declaration),
    decreases nodes,
{
    assert forall|i: int| 0 <= i < nodes.len() implies match #[trigger] nodes[i] {
        NodeView::Rule(rule) => rule_body_printable(rule.children),
        NodeView::AtRule(at_rule) => block_printable(at_rule.children),
        NodeView::Declaration(_) => true,
    } by {
        match nodes[i] {
            NodeView::Rule(rule) => {
                lemma_rule_body_well_formed_printable(rule.children);
            },
            NodeView::AtRule(at_rule) => {
                lemma_block_well_formed_printable(at_rule.children);
            },
            NodeView::Declaration(_) => {},
        }
    }
}

/// Whether the entries of a rule are well formed.
fn rule_body_is_well_formed(nodes: &Vec<RuleOrAtRuleOrDecl>) -> (ok: bool)
    ensures
        ok == rule_body_well_formed(nodes_view(nodes@)),
    decreases nodes,
{
    let ghost all = nodes_view(nodes@);
    let mut i: usize = 0;
    while i < nodes.len()
        invariant
            i <= nodes.len(),
            all == nodes_view(nodes@),
            forall|j: int|
                0 <= j < i ==> match #[trigger] all[j] {
                    NodeView::Rule(_) => false,
                    NodeView::AtRule(at_rule) => block_well_formed(at_rule.children),
                    NodeView::Declaration(_) => true,
                },
        decreases nodes.len() - i,
    {
        assert(all[i as int] == nodes@[i as int]@);
        match &nodes[i] {
            RuleOrAtRuleOrDecl::Rule(_) => {
                return false;
            },
            RuleOrAtRuleOrDecl::AtRule(at_rule) => {
                if !block_is_well_formed(&at_rule.children) {
                    return false;
                }
            },
            RuleOrAtRuleOrDecl::Declaration(_) => {},
        }
        i += 1;
    }
    true
}

/// Whether the entries of an at-rule, or of the top level, are well formed.
fn block_is_well_formed(nodes: &Vec<RuleOrAtRuleOrDecl>) -> (ok: bool)
    ensures
        ok == block_well_formed(nodes_view(nodes@)),
    decreases nodes,
{
    let ghost all = nodes_view(nodes@);
    let mut i: usize = 0;
    while i < nodes.len()
        invariant
            i <= nodes.len(),
            all == nodes_view(nodes@),
            forall|j: int|
                0 <= j < i ==> match #[trigger] all[j] {
                    NodeView::Rule(rule) => rule_body_well_formed(rule.children),
                    NodeView::AtRule(at_rule) => block_well_formed(at_rule.children),
                    NodeView::Declaration(_) => false,
                },
        decreases nodes.len() - i,
    {
        assert(all[i as int] == nodes@[i as int]@);
        match &nodes[i] {
            RuleOrAtRuleOrDecl::Rule(rule) => {
                if !rule_body_is_well_formed(&rule.children) {
                    return false;
                }
            },
            RuleOrAtRuleOrDecl::AtRule(at_rule) => {
                if !block_is_well_formed(&at_rule.children) {
                    return false;
                }
            },
            RuleOrAtRuleOrDecl::Declaration(_) => {
                return false;
            },
        }
        i += 1;
    }
    true
}

/// Whether the entries of a rule can be printed.
fn rule_body_is_printable(nodes: &Vec<RuleOrAtRuleOrDecl>) -> (ok: bool)
    ensures
        ok == rule_body_printable(nodes_view(nodes@)),
    decreases nodes,
{
    let ghost all = nodes_view(nodes@);
    let mut i: usize = 0;
    while i < nodes.len()
        invariant
            i <= nodes.len(),
            all == nodes_view(nodes@),
            forall|j: int|
                0 <= j < i ==> match #[trigger] all[j] {
                    NodeView::Rule(_) => false,
                    NodeView::AtRule(at_rule) => block_printable(at_rule.children),
                    NodeView::Declaration(_) => true,
                },
        decreases nodes.len() - i,
    {
        assert(all[i as int] == nodes@[i as int]@);
        match &nodes[i] {
            RuleOrAtRuleOrDecl::Rule(_) => {
                return false;
            },
            RuleOrAtRuleOrDecl::AtRule(at_rule) => {
                if !block_is_printable(&at_rule.children) {
                    return false;
                }
            },
            RuleOrAtRuleOrDecl::Declaration(_) => {},
        }
        i += 1;
    }
    true
}

/// Whether the entries of an at-rule can be printed.
fn block_is_printable(nodes: &Vec<RuleOrAtRuleOrDecl>) -> (ok: bool)
    ensures
        ok == block_printable(nodes_view(nodes@)),
    decreases nodes,
{
    let ghost all = nodes_view(nodes@);
    let mut i: usize = 0;
    while i < nodes.len()
        invariant
            i <= nodes.len(),
            all == nodes_view(nodes@),
            forall|j: int|
                0 <= j < i ==> match #[trigger] all[j] {
                    NodeView::Rule(rule) => rule_body_printable(rule.children),
                    NodeView::AtRule(at_rule) => block_printable(at_rule.children),
                    NodeView::Declaration(_) => true,
                },
        decreases nodes.len() - i,
    {
        assert(all[i as int] == nodes@[i as int]@);
        match &nodes[i] {
            RuleOrAtRuleOrDecl::Rule(rule) => {
                if !rule_body_is_printable(&rule.children) {
                    return false;
                }
            },
            RuleOrAtRuleOrDecl::AtRule(at_rule) => {
                if !block_is_printable(&at_rule.children) {
                    return false;
                }
            },
            RuleOrAtRuleOrDecl::Declaration(_) => {},
        }
        i += 1;
    }
    true
}

/// Whether none of `nodes` is a declaration.
fn holds_no_declaration(nodes: &Vec<RuleOrAtRuleOrDecl>) -> (ok: bool)
    ensures
        ok == (forall|i: int|
            0 <= i < nodes.len() ==> !(#[trigger] nodes_view(nodes@)[i] is Declaration)),
{
    let ghost all = nodes_view(nodes@);
    let mut i: usize = 0;
    while i < nodes.len()
        invariant
            i <= nodes.len(),
            all == nodes_view(nodes@),
            forall|j: int| 0 <= j < i ==> !(#[trigger] all[j] is Declaration),
        decreases nodes.len() - i,
    {
        assert(all[i as int] == nodes@[i as int]@);
        if matches!(&nodes[i], RuleOrAtRuleOrDecl::Declaration(_)) {
            return false;
        }
        i += 1;
    }
    true
}

/// One more than `below`, or `None` where that is more than a `usize` can
/// hold.
fn one_deeper(below: Option<usize>) -> (depth: Option<usize>)
    ensures
        depth == match below {
            Some(found) => if found < usize::MAX {
                Some((found + 1) as usize)
            } else {
                None
            },
            None => None,
        },
{
    match below {
        Some(found) => found.checked_add(1),
        None => None,
    }
}

/// The nesting of the deepest of `nodes`, or `None` where it is more than a
/// `usize` can hold.
fn deepest_of(nodes: &Vec<RuleOrAtRuleOrDecl>) -> (depth: Option<usize>)
    ensures
        match depth {
            Some(found) => found == deepest(nodes_view(nodes@)),
            None => deepest(nodes_view(nodes@)) > usize::MAX,
        },
    decreases nodes,
{
    let ghost all = nodes_view(nodes@);
    let mut depth: usize = 0;
    let mut i: usize = 0;
    while i < nodes.len()
        invariant
            i <= nodes.len(),
            all == nodes_view(nodes@),
            depth == deepest(all.take(i as int)),
        decreases nodes.len() - i,
    {
        proof {
            assert(all.take(i + 1).drop_last() =~= all.take(i as int));
            lemma_deepest_bounds(all, i as int);
        }
        let here = match &nodes[i] {
            RuleOrAtRuleOrDecl::Rule(rule) => one_deeper(deepest_of(&rule.children)),
            RuleOrAtRuleOrDecl::AtRule(at_rule) => one_deeper(deepest_of(&at_rule.children)),
            RuleOrAtRuleOrDecl::Declaration(_) => Some(0),
        };
        match here {
            Some(found) => {
                if found > depth {
                    depth = found;
                }
            },
            None => {
                return None;
            },
        }
        i += 1;
    }
    assert(all.take(i as int) =~= all);
    Some(depth)
}

impl Rule {
    /// Whether the rule is well formed.
    pub fn is_well_formed(&self) -> (ok: bool)
        ensures
            ok == self@.well_formed(),
    {
        rule_body_is_well_formed(&self.children)
    }

    /// Whether the rule can be printed.
    pub fn is_printable(&self) -> (ok: bool)
        ensures
            ok == self@.printable(),
    {
        rule_body_is_printable(&self.children)
    }

    /// The nesting of the rule, or `None` where it is more than a `usize`
    /// can hold.
    pub fn nesting(&self) -> (depth: Option<usize>)
        ensures
            match depth {
                Some(found) => found == self@.nesting(),
                None => self@.nesting() > usize::MAX,
            },
    {
        one_deeper(deepest_of(&self.children))
    }
}

impl AtRule {
    /// Whether the at-rule is well formed.
    pub fn is_well_formed(&self) -> (ok: bool)
        ensures
            ok == self@.well_formed(),
    {
        block_is_well_formed(&self.children)
    }

    /// Whether the at-rule can be printed.
    pub fn is_printable(&self) -> (ok: bool)
        ensures
            ok == self@.printable(),
    {
        block_is_printable(&self.children)
    }

    /// The nesting of the at-rule, or `None` where it is more than a `usize`
    /// can hold.
    pub fn nesting(&self) -> (depth: Option<usize>)
        ensures
            match depth {
                Some(found) => found == self@.nesting(),
                None => self@.nesting() > usize::MAX,
            },
    {
        one_deeper(deepest_of(&self.children))
    }
}

impl Root {
    /// Whether the style sheet is well formed.
    pub fn is_well_formed(&self) -> (ok: bool)
        ensures
            ok == self@.well_formed(),
    {
        block_is_well_formed(&self.children)
    }

    /// Whether the style sheet can be printed.
    pub fn is_printable(&self) -> (ok: bool)
        ensures
            ok == self@.printable(),
    {
        block_is_printable(&self.children) && holds_no_declaration(&self.children)
    }

    /// The nesting of the style sheet, or `None` where it is more than a
    /// `usize` can hold.
    pub fn nesting(&self) -> (depth: Option<usize>)
        ensures
            match depth {
                Some(found) => found == self@.nesting(),
                None => self@.nesting() > usize::MAX,
            },
    {
        deepest_of(&self.children)
    }
}

} // verus!
