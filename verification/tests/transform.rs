use plugin_aspect_ratio_mini::ratio::{RatioEvaluation, RatioOperands};
use plugin_aspect_ratio_mini::tree::{AtRule, Declaration, Root, Rule, RuleOrAtRuleOrDecl};
use plugin_aspect_ratio_mini::AspectRatioMini;

fn evaluate(operands: &RatioOperands) -> RatioEvaluation {
    let numerator = operands.numerator.parse::<f32>();
    let denominator = operands.denominator.parse::<f32>();
    let percentage = match (denominator, numerator) {
        (Ok(y), Ok(x)) => Some((y / x * 100f32).to_string()),
        _ => None,
    };
    RatioEvaluation {
        numerator: operands.numerator.clone(),
        denominator: operands.denominator.clone(),
        percentage,
    }
}

fn entry(numerator: &str, denominator: &str, percentage: Option<&str>) -> RatioEvaluation {
    RatioEvaluation {
        numerator: numerator.to_string(),
        denominator: denominator.to_string(),
        percentage: percentage.map(|text| text.to_string()),
    }
}

fn pair(numerator: &str, denominator: &str) -> RatioOperands {
    RatioOperands { numerator: numerator.to_string(), denominator: denominator.to_string() }
}

fn decl(prop: &str, value: &str) -> RuleOrAtRuleOrDecl {
    RuleOrAtRuleOrDecl::Declaration(Declaration {
        prop: prop.to_string(),
        value: value.to_string(),
    })
}

fn rule(selector: &str, children: Vec<RuleOrAtRuleOrDecl>) -> RuleOrAtRuleOrDecl {
    RuleOrAtRuleOrDecl::Rule(Rule { selector: selector.to_string(), children })
}

fn at_rule(name: &str, params: &str, children: Vec<RuleOrAtRuleOrDecl>) -> RuleOrAtRuleOrDecl {
    RuleOrAtRuleOrDecl::AtRule(AtRule {
        name: name.to_string(),
        params: params.to_string(),
        children,
    })
}

fn sheet(children: Vec<RuleOrAtRuleOrDecl>) -> Root {
    Root { children }
}

fn run(root: &mut Root, indent: usize) -> String {
    let evaluations: Vec<RatioEvaluation> =
        AspectRatioMini::ratio_operands(root).iter().map(evaluate).collect();
    AspectRatioMini::transform(root, indent, evaluations)
}

/// The text of `.box { <prop>: <value>; }` after the transform.
fn one(prop: &str, value: &str) -> String {
    let mut root = sheet(vec![rule(".box", vec![decl(prop, value)])]);
    run(&mut root, 4)
}

/// The text of a marked `.box` rule with one `padding-top` declaration.
fn padded(value: &str) -> String {
    format!(".box:before {{\n    padding-top: {};\n}}\n", value)
}

#[test]
fn slash_ratio_becomes_padding_top_percentage() {
    assert_eq!(one("aspect-ratio", "16/9"), ".box:before {\n    padding-top: 56.25%;\n}\n");
}

#[test]
fn quoted_colon_ratio_is_rewritten_alike() {
    assert_eq!(one("aspect-ratio", "'16:9'"), ".box:before {\n    padding-top: 56.25%;\n}\n");
}

#[test]
fn double_quoted_ratio_is_rewritten_alike() {
    assert_eq!(one("aspect-ratio", "\"16/9\""), padded("56.25%"));
}

#[test]
fn pipe_ratio_is_rewritten_alike() {
    assert_eq!(one("aspect-ratio", "16|9"), padded("56.25%"));
}

#[test]
fn white_space_around_the_delimiter_belongs_to_the_ratio() {
    assert_eq!(one("aspect-ratio", "16 / 9"), padded("56.25%"));
    assert_eq!(one("aspect-ratio", "4 \t:  3"), padded("75%"));
}

#[test]
fn every_recognised_property_is_rewritten() {
    assert_eq!(one("aspect", "4/3"), padded("75%"));
    assert_eq!(one("ratio", "2/1"), padded("50%"));
    assert_eq!(one("aspect-ratio", "1/1"), padded("100%"));
}

#[test]
fn property_names_are_compared_exactly() {
    let others = [
        "Aspect-Ratio",
        " aspect-ratio",
        "aspect-ratio ",
        "aspect_ratio",
        "aspectratio",
        "ratios",
        "rati",
        "",
    ];
    for prop in others {
        assert_eq!(one(prop, "16/9"), format!(".box {{\n    {}: 16/9;\n}}\n", prop));
    }
}

#[test]
fn fractions_in_the_operands_are_taken() {
    assert_eq!(one("aspect-ratio", "1.5/3"), padded("200%"));
    assert_eq!(one("aspect-ratio", ".5/1."), padded("200%"));
}

#[test]
fn percentage_keeps_single_precision_digits() {
    assert_eq!(one("aspect-ratio", "3/1"), padded(&format!("{}%", 1f32 / 3f32 * 100f32)));
    assert_eq!(one("aspect-ratio", "3/1"), padded("33.333336%"));
    assert_eq!(one("aspect-ratio", "2.39/1"), padded("41.841003%"));
}

#[test]
fn zero_numerator_gives_infinity() {
    assert_eq!(one("aspect-ratio", "0/9"), padded("inf%"));
    assert_eq!(one("aspect-ratio", "0/0"), padded("NaN%"));
}

#[test]
fn malformed_ratio_keeps_the_value_but_is_still_renamed() {
    assert_eq!(one("aspect-ratio", "foo"), ".box:before {\n    padding-top: foo;\n}\n");
}

#[test]
fn ratio_with_an_empty_side_keeps_the_value() {
    assert_eq!(one("aspect-ratio", "/9"), padded("/9"));
    assert_eq!(one("aspect-ratio", "16/"), padded("16/"));
    assert_eq!(one("aspect-ratio", "/"), padded("/"));
    assert_eq!(one("aspect-ratio", "a / b"), padded("a / b"));
}

#[test]
fn ratio_with_a_lone_dot_keeps_the_value() {
    assert_eq!(one("aspect-ratio", "./9"), padded("./9"));
    assert_eq!(one("aspect-ratio", "16/."), padded("16/."));
}

#[test]
fn text_around_a_ratio_stays() {
    assert_eq!(
        one("aspect-ratio", "calc(16/9) !important"),
        padded("calc(56.25%) !important")
    );
}

#[test]
fn every_ratio_of_a_value_is_rewritten() {
    assert_eq!(one("aspect-ratio", "16/9 4:3,2|1"), padded("56.25% 75%,50%"));
}

#[test]
fn one_malformed_ratio_reverts_the_whole_value() {
    assert_eq!(one("aspect-ratio", "16/9 x /"), padded("16/9 x /"));
    assert_eq!(one("aspect-ratio", "/ 16/9"), padded("/ 16/9"));
}

#[test]
fn other_declarations_and_their_selector_stay() {
    let tree = || {
        sheet(vec![rule(
            ".aspect-box",
            vec![
                decl("position", "relative"),
                decl("width", "16/9"),
                decl("padding-top", "56.25%"),
            ],
        )])
    };
    let mut root = tree();
    let css = run(&mut root, 4);
    assert_eq!(
        css,
        ".aspect-box {\n    position: relative;\n    width: 16/9;\n    padding-top: 56.25%;\n}\n"
    );
    assert_eq!(root, tree());
}

#[test]
fn one_ratio_among_others_marks_the_selector_once() {
    let mut root = sheet(vec![rule(
        "[aspectratio][aspect-ratio=\"16/9\"]",
        vec![decl("position", "relative"), decl("aspect-ratio", "16 / 9"), decl("ratio", "4/3")],
    )]);
    let expected = "\
[aspectratio][aspect-ratio=\"16/9\"]:before {
  position: relative;
  padding-top: 56.25%;
  padding-top: 75%;
}
";
    assert_eq!(run(&mut root, 2), expected);
}

#[test]
fn selector_list_gets_one_suffix_at_its_end() {
    let mut root = sheet(vec![rule(".a, .b:hover", vec![decl("aspect", "2/1")])]);
    assert_eq!(run(&mut root, 4), ".a, .b:hover:before {\n    padding-top: 50%;\n}\n");
}

#[test]
fn tree_is_rewritten_in_place() {
    let mut root = sheet(vec![
        rule(".plain", vec![decl("color", "red")]),
        at_rule(
            "@media",
            "screen",
            vec![rule(".wide", vec![decl("aspect-ratio", "'16:9'"), decl("color", "blue")])],
        ),
    ]);
    run(&mut root, 4);
    let expected = sheet(vec![
        rule(".plain", vec![decl("color", "red")]),
        at_rule(
            "@media",
            "screen",
            vec![rule(".wide:before", vec![decl("padding-top", "56.25%"), decl("color", "blue")])],
        ),
    ]);
    assert_eq!(root, expected);
}

#[test]
fn ratio_in_an_at_rule_nested_in_a_rule_marks_only_the_inner_rule() {
    let mut root = sheet(vec![rule(
        ".outer",
        vec![
            decl("color", "red"),
            at_rule("@media", "print", vec![rule(".inner", vec![decl("ratio", "1/2")])]),
        ],
    )]);
    let expected = "\
.outer {
  color: red;
  @media print {
    .inner:before {
      padding-top: 200%;
    }
  }
}
";
    assert_eq!(run(&mut root, 2), expected);
}

#[test]
fn second_pass_leaves_padding_top_and_adds_no_second_suffix() {
    let mut root = sheet(vec![
        rule(".box", vec![decl("aspect-ratio", "16/9"), decl("aspect", "foo")]),
        at_rule("@supports", "(display: grid)", vec![rule(".cell", vec![decl("ratio", "4|3")])]),
    ]);
    let expected_tree = || {
        sheet(vec![
            rule(".box:before", vec![decl("padding-top", "56.25%"), decl("padding-top", "foo")]),
            at_rule(
                "@supports",
                "(display: grid)",
                vec![rule(".cell:before", vec![decl("padding-top", "75%")])],
            ),
        ])
    };
    let expected_text = "\
.box:before {
    padding-top: 56.25%;
    padding-top: foo;
}
@supports (display: grid) {
    .cell:before {
        padding-top: 75%;
    }
}
";
    assert_eq!(run(&mut root, 4), expected_text);
    assert_eq!(root, expected_tree());
    assert!(AspectRatioMini::ratio_operands(&root).is_empty());
    assert_eq!(run(&mut root, 4), expected_text);
    assert_eq!(root, expected_tree());
    let table = vec![entry("56.25", "", Some("1")), entry("16", "9", Some("2"))];
    assert_eq!(AspectRatioMini::transform(&mut root, 4, table), expected_text);
    assert_eq!(root, expected_tree());
}

#[test]
fn rule_nested_in_an_at_rule_is_indented_by_levels() {
    let mut root = sheet(vec![at_rule(
        "@media",
        "(min-width: 100px)",
        vec![rule(".a", vec![decl("color", "red"), decl("aspect-ratio", "16/9")])],
    )]);
    let css = run(&mut root, 4);
    let expected = "\
@media (min-width: 100px) {
    .a:before {
        color: red;
        padding-top: 56.25%;
    }
}
";
    assert_eq!(css, expected);
    let lines: Vec<&str> = css.lines().collect();
    assert_eq!(lines[2], "        color: red;");
    assert_eq!(lines[3], "        padding-top: 56.25%;");
    assert_eq!(lines[4], "    }");
}

#[test]
fn empty_sheet_gives_empty_text() {
    let mut root = sheet(vec![]);
    assert_eq!(run(&mut root, 4), "");
}

#[test]
fn operands_are_listed_in_the_order_of_the_walk() {
    let root = sheet(vec![
        rule(
            ".a",
            vec![
                decl("aspect-ratio", "16/9 4/3"),
                decl("width", "1/2"),
                at_rule("@media", "print", vec![rule(".b", vec![decl("ratio", "'2:1'")])]),
                decl("aspect", "/5"),
            ],
        ),
        at_rule(
            "@media",
            "screen",
            vec![at_rule("@supports", "x", vec![rule(".c", vec![decl("ratio", "7|8")])])],
        ),
    ]);
    assert_eq!(
        AspectRatioMini::ratio_operands(&root),
        vec![pair("16", "9"), pair("4", "3"), pair("2", "1"), pair("", "5"), pair("7", "8")]
    );
}

#[test]
fn declarations_outside_rules_give_no_operands() {
    let root = sheet(vec![
        decl("ratio", "1/2"),
        at_rule("@page", "", vec![decl("aspect", "3/4")]),
    ]);
    assert!(AspectRatioMini::ratio_operands(&root).is_empty());
}

#[test]
fn ratio_without_an_evaluation_keeps_the_value() {
    let mut root = sheet(vec![rule(".box", vec![decl("aspect-ratio", "16/9")])]);
    let css = AspectRatioMini::transform(&mut root, 4, Vec::new());
    assert_eq!(css, ".box:before {\n    padding-top: 16/9;\n}\n");
}

#[test]
fn evaluation_is_found_by_its_operands() {
    let table = vec![
        entry("4", "3", Some("75")),
        entry("16", "9", Some("56.25")),
        entry("16", "9", Some("1")),
        entry("2", "1", None),
    ];
    let mut root = sheet(vec![
        rule(".a", vec![decl("ratio", "16/9 4/3")]),
        rule(".b", vec![decl("ratio", "2/1")]),
    ]);
    let css = AspectRatioMini::transform(&mut root, 0, table);
    assert_eq!(
        css,
        ".a:before {\npadding-top: 56.25% 75%;\n}\n.b:before {\npadding-top: 2/1;\n}\n"
    );
}

#[test]
fn empty_side_is_never_given_a_percentage() {
    let table = vec![entry("", "9", Some("1"))];
    let mut root = sheet(vec![rule(".a", vec![decl("ratio", "/9")])]);
    let css = AspectRatioMini::transform(&mut root, 1, table);
    assert_eq!(css, ".a:before {\n padding-top: /9;\n}\n");
}

#[test]
fn visitors_rewrite_and_return_false() {
    let aspect = AspectRatioMini::new(vec![entry("16", "9", Some("56.25"))]);

    let mut root = sheet(vec![rule(".a", vec![decl("aspect-ratio", "16/9")])]);
    assert!(!aspect.visit_root(&mut root));
    assert_eq!(root, sheet(vec![rule(".a:before", vec![decl("padding-top", "56.25%")])]));

    let mut block = AtRule {
        name: "@media".to_string(),
        params: "all".to_string(),
        children: vec![rule(".b", vec![decl("ratio", "16:9")])],
    };
    assert!(!aspect.visit_at_rule(&mut block));
    assert_eq!(block.name, "@media");
    assert_eq!(block.params, "all");
    assert_eq!(block.children, vec![rule(".b:before", vec![decl("padding-top", "56.25%")])]);

    let mut plain = Rule { selector: ".c".to_string(), children: vec![decl("color", "red")] };
    assert!(!aspect.visit_rule(&mut plain));
    assert_eq!(plain, Rule { selector: ".c".to_string(), children: vec![decl("color", "red")] });
}

#[test]
fn declaration_visitor_tells_whether_it_rewrote() {
    let aspect = AspectRatioMini::default();
    assert!(aspect.evaluations.is_empty());

    let mut other = Declaration { prop: "color".to_string(), value: "16/9".to_string() };
    assert!(!aspect.visit_declaration(&mut other));
    assert_eq!(other, Declaration { prop: "color".to_string(), value: "16/9".to_string() });

    let mut ratio = Declaration { prop: "aspect".to_string(), value: "16/9".to_string() };
    assert!(aspect.visit_declaration(&mut ratio));
    assert_eq!(ratio, Declaration { prop: "padding-top".to_string(), value: "16/9".to_string() });
}

#[test]
fn try_transform_refuses_a_malformed_tree_and_leaves_it() {
    let cases = vec![
        sheet(vec![decl("aspect-ratio", "16/9")]),
        sheet(vec![rule(".a", vec![rule(".b", vec![])])]),
        sheet(vec![at_rule("@font-face", "", vec![decl("aspect-ratio", "16/9")])]),
        sheet(vec![rule(".a", vec![at_rule("@media", "x", vec![decl("ratio", "1/2")])])]),
    ];
    for mut root in cases {
        let before = format!("{:?}", root);
        assert!(!root.is_well_formed());
        assert_eq!(AspectRatioMini::try_transform(&mut root, 4, Vec::new()), None);
        assert_eq!(format!("{:?}", root), before);
    }
}

#[test]
fn try_transform_refuses_an_indentation_that_does_not_fit() {
    let tree = || sheet(vec![at_rule("@media", "x", vec![rule(".a", vec![decl("ratio", "1/2")])])]);
    let mut root = tree();
    assert_eq!(AspectRatioMini::try_transform(&mut root, usize::MAX, Vec::new()), None);
    assert_eq!(root, tree());

    let mut flat = sheet(vec![rule(".a", vec![])]);
    assert_eq!(
        AspectRatioMini::try_transform(&mut flat, usize::MAX, Vec::new()),
        Some(".a {\n}\n".to_string())
    );
}

#[test]
fn try_transform_does_what_transform_does() {
    let table = || vec![entry("16", "9", Some("56.25"))];
    let tree = || sheet(vec![rule(".a", vec![decl("aspect-ratio", "16/9")])]);
    let mut first = tree();
    let mut second = tree();
    assert!(first.is_well_formed());
    let css = AspectRatioMini::transform(&mut first, 3, table());
    assert_eq!(css, ".a:before {\n   padding-top: 56.25%;\n}\n");
    assert_eq!(AspectRatioMini::try_transform(&mut second, 3, table()), Some(css));
    assert_eq!(first, second);
}
