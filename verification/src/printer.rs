//! The printer: a style-sheet tree written out as indented text.
//!
//! Every block opens with its header and ` {` on a line of its own and closes
//! with `}` on a line of its own; what is inside stands one level deeper. A
//! level is `indent` spaces wide.

use crate::tree::{
    lemma_deepest_bounds, AtRule, AtRuleView, Declaration, DeclarationView, NodeView, Root,
    RootView, Rule, RuleOrAtRuleOrDecl, RuleView,
};
use vstd::prelude::*;
use vstd::string::StringExecFns;

verus! {

/// The white space in front of a line at `level`: `level * indent` spaces.
pub open spec fn indentation(level: nat, indent: nat) -> Seq<char> {
    Seq::new(level * indent, |i: int| ' ')
}

/// The text of `level * indent` spaces fits in memory for every level from
/// `level` to `level + nesting`.
pub open spec fn fits(level: nat, nesting: nat, indent: nat) -> bool {
    &&& level + nesting <= usize::MAX
    &&& (level + nesting) * indent <= usize::MAX
}

/// The line of a declaration: `<indentation><property>: <value>;`.
pub open spec fn rendered_declaration(decl: DeclarationView, level: nat, indent: nat) -> Seq<
    char,
> {
    indentation(level, indent) + decl.prop + ": "@ + decl.value + ";\n"@
}

/// The lines of a rule: `<indentation><selector> {`, its body one level
/// deeper, and `<indentation>}`.
pub open spec fn rendered_rule(rule: RuleView, level: nat, indent: nat) -> Seq<char>
    decreases rule,
{
    indentation(level, indent) + rule.selector + " {\n"@ + rendered_rule_body(
        rule.children,
        level + 1,
        indent,
    ) + indentation(level, indent) + "}\n"@
}

/// The lines of the entries of a rule, in order: its declarations and the
/// at-rules nested in it.
pub open spec fn rendered_rule_body(nodes: Seq<NodeView>, level: nat, indent: nat) -> Seq<char>
    decreases nodes,
{
    if nodes.len() == 0 {
        Seq::empty()
    } else {
        rendered_rule_body(nodes.drop_last(), level, indent) + match nodes.last() {
            NodeView::Rule(_) => Seq::empty(),
            NodeView::AtRule(at_rule) => rendered_at_rule(at_rule, level, indent),
            NodeView::Declaration(decl) => rendered_declaration(decl, level, indent),
        }
    }
}

/// The lines of an at-rule: `<indentation><name> <params> {`, the blocks in
/// it one level deeper, and `<indentation>}`.
pub open spec fn rendered_at_rule(at_rule: AtRuleView, level: nat, indent: nat) -> Seq<char>
    decreases at_rule,
{
    indentation(level, indent) + at_rule.name + " "@ + at_rule.params + " {\n"@ + rendered_blocks(
        at_rule.children,
        level + 1,
        indent,
    ) + indentation(level, indent) + "}\n"@
}

/// The lines of a sequence of blocks, in order. A declaration that stands
/// directly among them gives no line.
pub open spec fn rendered_blocks(nodes: Seq<NodeView>, level: nat, indent: nat) -> Seq<char>
    decreases nodes,
{
    if nodes.len() == 0 {
        Seq::empty()
    } else {
        rendered_blocks(nodes.drop_last(), level, indent) + match nodes.last() {
            NodeView::Rule(rule) => rendered_rule(rule, level, indent),
            NodeView::AtRule(at_rule) => rendered_at_rule(at_rule, level, indent),
            NodeView::Declaration(_) => Seq::empty(),
        }
    }
}

/// The text of a whole style sheet whose top level stands at `level`.
pub open spec fn rendered_root(root: RootView, level: nat, indent: nat) -> Seq<char> {
    rendered_blocks(root.children, level, indent)
}

/// What fits down to some nesting fits down to every smaller one, from the
/// same level or from deeper levels.
pub proof fn lemma_fits_deeper(level: nat, nesting: nat, indent: nat, below: nat, rest: nat)
    requires
        fits(level, nesting, indent),
        below + rest <= nesting,
    ensures
        fits(level + below, rest, indent),
{
    assert((level + below + rest) * indent <= (level + nesting) * indent) by (nonlinear_arith)
        requires
            below + rest <= nesting,
    ;
}

/// Whether lines fit from `level` down to `nesting` levels below it, where
/// `nesting` is `None` for a nesting that no `usize` holds.
fn fits_from(level: usize, nesting: Option<usize>, indent: usize) -> (ok: bool)
    ensures
        ok == match nesting {
            Some(depth) => fits(level as nat, depth as nat, indent as nat),
            None => false,
        },
{
    match nesting {
        Some(depth) => match level.checked_add(depth) {
            Some(last) => last.checked_mul(indent).is_some(),
            None => false,
        },
        None => false,
    }
}

/// Writes a tree as indented text, line by line, to the end of `writer`.
pub struct SimplePrettier {
    level: usize,
    pub writer: String,
    indent: usize,
}

impl Default for SimplePrettier {
    /// A printer at level 0 with levels of no width and nothing written.
    fn default() -> (printer: Self)
        ensures
            printer.level() == 0,
            printer.indent() == 0,
            printer.written() == Seq::<char>::empty(),
    {
        Self { level: 0, writer: String::new(), indent: 0 }
    }
}

impl SimplePrettier {
    /// The level at which the next line starts.
    pub closed spec fn level(&self) -> nat {
        self.level as nat
    }

    /// The width of one level, in spaces.
    pub closed spec fn indent(&self) -> nat {
        self.indent as nat
    }

    /// The text that `writer` holds.
    pub closed spec fn written(&self) -> Seq<char> {
        self.writer@
    }

    /// A printer at level 0 that writes behind what `writer` already holds.
    pub fn new(writer: String, indent: usize) -> (printer: Self)
        ensures
            printer.level() == 0,
            printer.indent() == indent,
            printer.written() == writer@,
    {
        Self { level: 0, writer, indent }
    }

    /// Hands out what was written.
    pub fn into_writer(self) -> (text: String)
        ensures
            text@ == self.written(),
    {
        self.writer
    }

    /// Whether `visit_declaration` may be called: the indentation of the
    /// current level fits.
    pub fn can_visit_declaration(&self) -> (ok: bool)
        ensures
            ok == (self.level() * self.indent() <= usize::MAX),
    {
        self.level.checked_mul(self.indent).is_some()
    }

    /// Whether `visit_rule` may be called on `rule`: it is printable and its
    /// lines fit.
    pub fn can_visit_rule(&self, rule: &Rule) -> (ok: bool)
        ensures
            ok == (rule@.printable() && fits(self.level(), rule@.nesting(), self.indent())),
    {
        rule.is_printable() && fits_from(self.level, rule.nesting(), self.indent)
    }

    /// Whether `visit_at_rule` may be called on `at_rule`: it is printable
    /// and its lines fit.
    pub fn can_visit_at_rule(&self, at_rule: &AtRule) -> (ok: bool)
        ensures
            ok == (at_rule@.printable() && fits(
                self.level(),
                at_rule@.nesting(),
                self.indent(),
            )),
    {
        at_rule.is_printable() && fits_from(self.level, at_rule.nesting(), self.indent)
    }

    /// Whether `visit_root` may be called on `root`: it is printable and its
    /// lines fit.
    pub fn can_visit_root(&self, root: &Root) -> (ok: bool)
        ensures
            ok == (root@.printable() && fits(self.level(), root@.nesting(), self.indent())),
    {
        root.is_printable() && fits_from(self.level, root.nesting(), self.indent)
    }

    fn write_indentation(&mut self)
        requires
            old(self).level() * old(self).indent() <= usize::MAX,
        ensures
            final(self).written() == old(self).written() + indentation(
                old(self).level(),
                old(self).indent(),
            ),
            final(self).level() == old(self).level(),
            final(self).indent() == old(self).indent(),
    {
        let count: usize = self.level * self.indent;
        let mut written: usize = 0;
        while written < count
            invariant
                written <= count,
                self.level == old(self).level,
                self.indent == old(self).indent,
                self.writer@ == old(self).writer@ + Seq::new(written as nat, |i: int| ' '),
            decreases count - written,
        {
            self.writer.append(" ");
            proof {
                reveal_strlit(" ");
            }
            written += 1;
        }
    }

    /// Writes the line of one declaration at the current level.
    pub fn visit_declaration(&mut self, decl: &Declaration)
        requires
            old(self).level() * old(self).indent() <= usize::MAX,
        ensures
            final(self).written() == old(self).written() + rendered_declaration(
                decl@,
                old(self).level(),
                old(self).indent(),
            ),
            final(self).level() == old(self).level(),
            final(self).indent() == old(self).indent(),
    {
        self.write_indentation();
        self.writer.append(decl.prop.as_str());
        self.writer.append(": ");
        self.writer.append(decl.value.as_str());
        self.writer.append(";\n");
    }

    /// Writes a rule: its header, its declarations and nested at-rules one
    /// level deeper, and its closing line.
    pub fn visit_rule(&mut self, rule: &Rule)
        requires
            rule@.printable(),
            fits(old(self).level(), rule@.nesting(), old(self).indent()),
        ensures
            final(self).written() == old(self).written() + rendered_rule(
                rule@,
                old(self).level(),
                old(self).indent(),
            ),
            final(self).level() == old(self).level(),
            final(self).indent() == old(self).indent(),
        decreases rule,
    {
        proof {
            // The header line fits.
            lemma_fits_deeper(self.level(), rule@.nesting(), self.indent(), 0, 0);
        }
        self.write_indentation();
        self.writer.append(rule.selector.as_str());
        self.writer.append(" {\n");
        self.level += 1;
        let ghost head = self.writer@;
        let mut i: usize = 0;
        while i < rule.children.len()
            invariant
                i <= rule.children.len(),
                self.level == old(self).level + 1,
                self.indent == old(self).indent,
                rule@.printable(),
                fits(old(self).level(), rule@.nesting(), old(self).indent()),
                self.writer@ == head + rendered_rule_body(
                    rule@.children.take(i as int),
                    self.level(),
                    self.indent(),
                ),
            decreases rule.children.len() - i,
        {
            proof {
                let child = rule@.children[i as int];
                assert(rule@.children.take(i + 1).drop_last() =~= rule@.children.take(i as int));
                // The child is no deeper than the deepest, so it fits one
                // level down, and so does its own first line.
                lemma_deepest_bounds(rule@.children, i as int);
                lemma_fits_deeper(
                    old(self).level(),
                    rule@.nesting(),
                    old(self).indent(),
                    1,
                    child.nesting(),
                );
                lemma_fits_deeper(self.level(), child.nesting(), self.indent(), 0, 0);
            }
            match &rule.children[i] {
                RuleOrAtRuleOrDecl::Rule(_) => unreached(),
                RuleOrAtRuleOrDecl::AtRule(at_rule) => {
                    self.visit_at_rule(at_rule);
                },
                RuleOrAtRuleOrDecl::Declaration(decl) => {
                    self.visit_declaration(decl);
                },
            }
            i += 1;
        }
        assert(rule@.children.take(i as int) =~= rule@.children);
        self.level -= 1;
        self.write_indentation();
        self.writer.append("}\n");
    }

    /// Writes an at-rule: its header, the rules and at-rules in it one level
    /// deeper, and its closing line. A declaration that stands directly in
    /// the at-rule is passed over.
    pub fn visit_at_rule(&mut self, at_rule: &AtRule)
        requires
            at_rule@.printable(),
            fits(old(self).level(), at_rule@.nesting(), old(self).indent()),
        ensures
            final(self).written() == old(self).written() + rendered_at_rule(
                at_rule@,
                old(self).level(),
                old(self).indent(),
            ),
            final(self).level() == old(self).level(),
            final(self).indent() == old(self).indent(),
        decreases at_rule,
    {
        proof {
            // The header line fits.
            lemma_fits_deeper(self.level(), at_rule@.nesting(), self.indent(), 0, 0);
        }
        self.write_indentation();
        self.writer.append(at_rule.name.as_str());
        self.writer.append(" ");
        self.writer.append(at_rule.params.as_str());
        self.writer.append(" {\n");
        self.level += 1;
        let ghost head = self.writer@;
        let mut i: usize = 0;
        while i < at_rule.children.len()
            invariant
                i <= at_rule.children.len(),
                self.level == old(self).level + 1,
                self.indent == old(self).indent,
                at_rule@.printable(),
                fits(old(self).level(), at_rule@.nesting(), old(self).indent()),
                self.writer@ == head + rendered_blocks(
                    at_rule@.children.take(i as int),
                    self.level(),
                    self.indent(),
                ),
            decreases at_rule.children.len() - i,
        {
            proof {
                assert(at_rule@.children.take(i + 1).drop_last() =~= at_rule@.children.take(
                    i as int,
                ));
                // The child is no deeper than the deepest, so it fits one
                // level down.
                lemma_deepest_bounds(at_rule@.children, i as int);
                lemma_fits_deeper(
                    old(self).level(),
                    at_rule@.nesting(),
                    old(self).indent(),
                    1,
                    at_rule@.children[i as int].nesting(),
                );
            }
            match &at_rule.children[i] {
                RuleOrAtRuleOrDecl::Rule(rule) => {
                    self.visit_rule(rule);
                },
                RuleOrAtRuleOrDecl::AtRule(inner) => {
                    self.visit_at_rule(inner);
                },
                RuleOrAtRuleOrDecl::Declaration(_) => {},
            }
            i += 1;
        }
        assert(at_rule@.children.take(i as int) =~= at_rule@.children);
        self.level -= 1;
        self.write_indentation();
        self.writer.append("}\n");
    }

    /// Writes every top-level entry of a style sheet, in order, at the
    /// current level.
    pub fn visit_root(&mut self, root: &Root)
        requires
            root@.printable(),
            fits(old(self).level(), root@.nesting(), old(self).indent()),
        ensures
            final(self).written() == old(self).written() + rendered_root(
                root@,
                old(self).level(),
                old(self).indent(),
            ),
            final(self).level() == old(self).level(),
            final(self).indent() == old(self).indent(),
    {
        let mut i: usize = 0;
        while i < root.children.len()
            invariant
                i <= root.children.len(),
                self.level == old(self).level,
                self.indent == old(self).indent,
                root@.printable(),
                fits(old(self).level(), root@.nesting(), old(self).indent()),
                self.writer@ == old(self).writer@ + rendered_blocks(
                    root@.children.take(i as int),
                    self.level(),
                    self.indent(),
                ),
            decreases root.children.len() - i,
        {
            proof {
                assert(root@.children.take(i + 1).drop_last() =~= root@.children.take(i as int));
                // The child is no deeper than the deepest, so it fits.
                lemma_deepest_bounds(root@.children, i as int);
                lemma_fits_deeper(
                    old(self).level(),
                    root@.nesting(),
                    old(self).indent(),
                    0,
                    root@.children[i as int].nesting(),
                );
            }
            match &root.children[i] {
                RuleOrAtRuleOrDecl::Rule(rule) => {
                    self.visit_rule(rule);
                },
                RuleOrAtRuleOrDecl::AtRule(at_rule) => {
                    self.visit_at_rule(at_rule);
                },
                RuleOrAtRuleOrDecl::Declaration(_) => unreached(),
            }
            i += 1;
        }
        assert(root@.children.take(i as int) =~= root@.children);
    }
}

} // verus!
