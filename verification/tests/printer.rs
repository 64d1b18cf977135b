use plugin_aspect_ratio_mini::tree::{AtRule, Declaration, Root, Rule, RuleOrAtRuleOrDecl};
use plugin_aspect_ratio_mini::SimplePrettier;

fn decl(prop: &str, value: &str) -> RuleOrAtRuleOrDecl {
    RuleOrAtRuleOrDecl::Declaration(Declaration {
        prop: prop.to_string(),
        value: value.to_string(),
    })
}

fn plain_rule(selector: &str, children: Vec<RuleOrAtRuleOrDecl>) -> Rule {
    Rule { selector: selector.to_string(), children }
}

fn plain_at_rule(name: &str, params: &str, children: Vec<RuleOrAtRuleOrDecl>) -> AtRule {
    AtRule { name: name.to_string(), params: params.to_string(), children }
}

fn rule(selector: &str, children: Vec<RuleOrAtRuleOrDecl>) -> RuleOrAtRuleOrDecl {
    RuleOrAtRuleOrDecl::Rule(plain_rule(selector, children))
}

fn at_rule(name: &str, params: &str, children: Vec<RuleOrAtRuleOrDecl>) -> RuleOrAtRuleOrDecl {
    RuleOrAtRuleOrDecl::AtRule(plain_at_rule(name, params, children))
}

fn sheet(children: Vec<RuleOrAtRuleOrDecl>) -> Root {
    Root { children }
}

fn printer(indent: usize) -> SimplePrettier {
    SimplePrettier::new(String::new(), indent)
}

fn print(root: &Root, indent: usize) -> String {
    let mut printer = printer(indent);
    printer.visit_root(root);
    printer.writer
}

#[test]
fn declaration_line_is_indented_property_colon_value_semicolon() {
    let mut printer = printer(4);
    printer.visit_declaration(&Declaration { prop: "color".to_string(), value: "red".to_string() });
    assert_eq!(printer.writer, "color: red;\n");
}

#[test]
fn rule_opens_and_closes_on_lines_of_its_own() {
    let mut printer = printer(2);
    printer.visit_rule(&plain_rule("a > b", vec![decl("color", "red"), decl("margin", "0 auto")]));
    assert_eq!(printer.writer, "a > b {\n  color: red;\n  margin: 0 auto;\n}\n");
}

#[test]
fn at_rule_header_is_name_space_params() {
    let mut printer = printer(2);
    printer.visit_at_rule(&plain_at_rule(
        "@media",
        "screen and (min-width: 1px)",
        vec![rule(".a", vec![decl("color", "red")])],
    ));
    let expected = "\
@media screen and (min-width: 1px) {
  .a {
    color: red;
  }
}
";
    assert_eq!(printer.writer, expected);
}

#[test]
fn declaration_directly_in_an_at_rule_is_passed_over() {
    let root = sheet(vec![at_rule(
        "@font-face",
        "",
        vec![decl("font-family", "x"), rule(".a", vec![]), decl("src", "url(y)")],
    )]);
    assert_eq!(print(&root, 4), "@font-face  {\n    .a {\n    }\n}\n");
}

#[test]
fn multi_level_sheet_is_printed_byte_for_byte() {
    let root = sheet(vec![
        rule(".top", vec![decl("a", "1")]),
        at_rule(
            "@media",
            "print",
            vec![
                rule(
                    ".inner",
                    vec![
                        decl("b", "2"),
                        at_rule("@supports", "(c)", vec![rule(".deep", vec![decl("d", "4")])]),
                    ],
                ),
                at_rule("@layer", "base", vec![]),
            ],
        ),
    ]);
    let expected = "\
.top {
    a: 1;
}
@media print {
    .inner {
        b: 2;
        @supports (c) {
            .deep {
                d: 4;
            }
        }
    }
    @layer base {
    }
}
";
    assert_eq!(print(&root, 4), expected);
}

#[test]
fn indent_width_sets_the_spaces_of_a_level() {
    let root = sheet(vec![at_rule("@media", "x", vec![rule(".a", vec![decl("b", "c")])])]);
    assert_eq!(print(&root, 0), "@media x {\n.a {\nb: c;\n}\n}\n");
    assert_eq!(print(&root, 1), "@media x {\n .a {\n  b: c;\n }\n}\n");
    assert_eq!(print(&root, 3), "@media x {\n   .a {\n      b: c;\n   }\n}\n");
}

#[test]
fn printer_writes_behind_what_the_writer_holds() {
    let mut printer = SimplePrettier::new("/* head */\n".to_string(), 2);
    printer.visit_root(&sheet(vec![rule(".a", vec![])]));
    printer.visit_root(&sheet(vec![rule(".b", vec![])]));
    assert_eq!(printer.into_writer(), "/* head */\n.a {\n}\n.b {\n}\n");
}

#[test]
fn default_printer_has_no_indentation() {
    let mut printer = SimplePrettier::default();
    printer.visit_root(&sheet(vec![rule(".a", vec![decl("b", "c")])]));
    assert_eq!(printer.writer, ".a {\nb: c;\n}\n");
}

#[test]
fn text_that_is_not_ascii_is_printed_as_it_is() {
    let root = sheet(vec![rule(".é", vec![decl("content", "\"→ 日本\"")])]);
    assert_eq!(print(&root, 2), ".é {\n  content: \"→ 日本\";\n}\n");
}

#[test]
fn printer_tells_whether_the_lines_of_a_sheet_fit() {
    let flat = sheet(vec![]);
    let one = sheet(vec![rule(".a", vec![])]);
    let two = sheet(vec![at_rule("@m", "x", vec![rule(".a", vec![decl("b", "c")])])]);
    assert!(printer(usize::MAX).can_visit_root(&flat));
    assert!(printer(usize::MAX).can_visit_root(&one));
    assert!(printer(usize::MAX / 2).can_visit_root(&two));
    assert!(!printer(usize::MAX / 2 + 1).can_visit_root(&two));
    assert!(!printer(usize::MAX).can_visit_root(&two));
    assert!(printer(0).can_visit_root(&two));
    assert!(printer(4).can_visit_root(&two));
}

#[test]
fn printer_tells_whether_a_sheet_is_printable() {
    let bare = sheet(vec![decl("a", "b")]);
    let nested = sheet(vec![rule(".a", vec![rule(".b", vec![])])]);
    let skipped = sheet(vec![at_rule("@font-face", "", vec![decl("a", "b")])]);
    assert!(!bare.is_printable());
    assert!(!printer(2).can_visit_root(&bare));
    assert!(!nested.is_printable());
    assert!(!printer(2).can_visit_root(&nested));
    assert!(skipped.is_printable());
    assert!(!skipped.is_well_formed());
    assert!(printer(2).can_visit_root(&skipped));
}

#[test]
fn printer_tells_whether_a_block_can_be_visited() {
    let wide = printer(usize::MAX);
    let narrow = printer(2);
    assert!(wide.can_visit_declaration());
    assert!(narrow.can_visit_declaration());

    let plain = plain_rule(".a", vec![decl("b", "c")]);
    let holding = plain_rule(
        ".a",
        vec![at_rule("@media", "x", vec![rule(".b", vec![decl("c", "d")])])],
    );
    let broken = plain_rule(".a", vec![rule(".b", vec![])]);
    assert!(wide.can_visit_rule(&plain));
    assert!(!wide.can_visit_rule(&holding));
    assert!(narrow.can_visit_rule(&holding));
    assert!(!narrow.can_visit_rule(&broken));

    let block = plain_at_rule("@media", "x", vec![rule(".a", vec![]), decl("b", "c")]);
    let stacked = plain_at_rule("@media", "x", vec![rule(".a", vec![rule(".b", vec![])])]);
    assert!(narrow.can_visit_at_rule(&block));
    assert!(!wide.can_visit_at_rule(&block));
    assert!(!narrow.can_visit_at_rule(&stacked));
}
