//! Rendering, error merging and the grammar-to-rules pipeline.

use yepp::ast::Node;
use yepp::parser::atom::Atom;
use yepp::parser::expression::{
    Expression, MetaExpr, MultiExpr, NamedExpr, ReplItem, ReplTemplate, RuleInfo, SetOfRules,
    Transf2Expr,
};
use yepp::parser::{ErrPriority, Error, ErrorAlternatives, Possition};
use yepp::{FnCallBack, Peg};

fn err_at(n: usize, what: &str) -> Error {
    Error {
        pos: Possition { n, row: 0, col: n, start_line: 0 },
        alternatives: ErrorAlternatives { context: None, expected: vec![what.to_string()] },
        line_before: String::new(),
        line_after: String::new(),
        parsing_rules: vec![],
        priority: ErrPriority::Normal,
    }
}

#[test]
fn merge_takes_furthest_offset() {
    let a = err_at(3, "b");
    let b = err_at(5, "y");
    let merged = a.merge(&b);
    assert_eq!(merged.pos.n, 5);
    assert_eq!(merged.alternatives.expected, vec!["y".to_string()]);
}

#[test]
fn merge_at_equal_offsets_joins_alternatives() {
    let a = err_at(4, "b");
    let b = err_at(4, "c");
    let merged = a.merge(&b);
    assert_eq!(merged.pos.n, 4);
    assert_eq!(merged.alternatives.expected, vec!["b".to_string(), "c".to_string()]);
}

#[test]
fn or_reports_error_at_furthest_branch() {
    // One branch dies at offset 3, the other at offset 5.
    let lit = |s: &str| Expression::Simple(Atom::Literal(s.to_string()));
    let rules = SetOfRules::empty().add(
        "main",
        RuleInfo {
            expr: Expression::Or(MultiExpr(vec![lit("aaaX"), lit("aaaaaY")])),
            descr: None,
        },
    );
    match rules.parse("aaaaaZ") {
        Err(yepp::Error::ParserErr(e)) => assert_eq!(e.pos.n, 5),
        _ => panic!("expected a parse error"),
    }
}

#[test]
fn template_renders_positional_child_and_endl() {
    let templ = ReplTemplate(vec![
        ReplItem::Text("PUSH ".to_string()),
        ReplItem::ByPos(0),
        ReplItem::Function("endl".to_string()),
    ]);
    let node = Node::Transf2(templ, vec![Node::Val("5".to_string())]);
    let replaced = node.replace(None).unwrap();
    assert_eq!(replaced.str(), "PUSH 5\n");
}

#[test]
fn template_renders_named_capture() {
    let rules = SetOfRules::empty().add(
        "main",
        RuleInfo {
            expr: Expression::MetaExpr(MetaExpr::Transf2(Transf2Expr {
                mexpr: MultiExpr(vec![Expression::MetaExpr(MetaExpr::Named(NamedExpr {
                    name: "x".to_string(),
                    expr: Box::new(Expression::Simple(Atom::Literal("a".to_string()))),
                }))]),
                transf2_rules: ReplTemplate(vec![ReplItem::ByName("x".to_string())]),
            })),
            descr: None,
        },
    );
    let node = rules.parse("a").unwrap();
    let replaced = node.replace(None).unwrap();
    assert_eq!(replaced.str(), "a");
}

#[test]
fn template_missing_name_is_error_and_opt_is_empty() {
    let mk = |item: ReplItem| {
        Node::Transf2(ReplTemplate(vec![item]), vec![Node::Val("v".to_string())])
    };
    assert!(mk(ReplItem::ByName("nope".to_string())).replace(None).is_err());
    let replaced = mk(ReplItem::ByNameOpt("nope".to_string())).replace(None).unwrap();
    assert_eq!(replaced.str(), "");
}

#[test]
fn unresolved_function_is_error_and_callback_resolves() {
    let node = Node::Transf2(
        ReplTemplate(vec![ReplItem::Function("greet".to_string())]),
        vec![],
    );
    match node.replace(None) {
        Err(yepp::Error::ReplaceErr(_)) => {}
        _ => panic!("expected a replace error"),
    }
    fn hooks(name: &str) -> Option<String> {
        if name == "greet" {
            Some("hello".to_string())
        } else {
            None
        }
    }
    let cb = FnCallBack(hooks);
    let replaced = node.replace(Some(&cb)).unwrap();
    assert_eq!(replaced.str(), "hello");
}

#[test]
fn grammar_compiles_and_parses() {
    let rules = Peg::new("main = 'a'+ ('b'/'c')").gen_rules().unwrap();
    assert!(rules.parse("aaab").is_ok());
    assert!(rules.parse("ac").is_ok());
    match rules.parse("aaad") {
        Err(yepp::Error::ParserErr(e)) => {
            assert_eq!(e.pos.n, 3);
            assert_eq!(e.alternatives.expected, vec!["b".to_string(), "c".to_string()]);
        }
        _ => panic!("expected a parse error"),
    }
}

#[test]
fn grammar_with_several_rules_and_quantifiers() {
    let rules = Peg::new(
        "main = item+ end?\nitem = 'x' / 'y'\nend = '.'\n",
    )
    .gen_rules()
    .unwrap();
    assert!(rules.parse("xyx.").is_ok());
    assert!(rules.parse("x").is_ok());
    assert!(rules.parse(".").is_err());
    assert!(rules.parse("xz").is_err());
}

#[test]
fn grammar_dot_matches_any_character() {
    let rules = Peg::new("main = '<' . '>'").gen_rules().unwrap();
    assert!(rules.parse("<q>").is_ok());
    assert!(rules.parse("<>").is_err());
}

#[test]
fn bad_grammar_is_rejected() {
    assert!(Peg::new("main = ('a'").gen_rules().is_err());
}

#[test]
fn grammar_template_renders_named_capture() {
    let rules = Peg::new("main = 'a' x:. 'c' -> <$(x)>$(:endl)").gen_rules().unwrap();
    let node = rules.parse("abc").unwrap();
    assert_eq!(node.replace(None).unwrap().str(), "<b>\n");
}

#[test]
fn grammar_template_renders_positional_child() {
    let rules = Peg::new("main = 'x' . -> $(1)").gen_rules().unwrap();
    let node = rules.parse("xy").unwrap();
    assert_eq!(node.replace(None).unwrap().str(), "y");
}

#[test]
fn grammar_template_optional_name_renders_empty() {
    let rules = Peg::new("main = 'a' -> $(zz?)ok").gen_rules().unwrap();
    let node = rules.parse("a").unwrap();
    assert_eq!(node.replace(None).unwrap().str(), "ok");
}

#[test]
fn grammar_character_classes() {
    let rules = Peg::new("main = [a-c]+ [0-9_]").gen_rules().unwrap();
    assert!(rules.parse("cab7").is_ok());
    assert!(rules.parse("ab_").is_ok());
    assert!(rules.parse("abd").is_err());
}

#[test]
fn grammar_lookahead_markers() {
    let neg = Peg::new("main = !'b' . 'c'").gen_rules().unwrap();
    assert!(neg.parse("ac").is_ok());
    assert!(neg.parse("bc").is_err());
    let pos = Peg::new("main = &'a' 'ab'").gen_rules().unwrap();
    assert!(pos.parse("ab").is_ok());
    assert!(pos.parse("xb").is_err());
}

#[test]
fn grammar_with_alternative_templates() {
    let rules = Peg::new(
        "main = char+\nchar = 'a' -> A$(:endl)/ 'b' -> B$(:endl)/ c:. -> [$(c)]$(:endl)",
    )
    .gen_rules()
    .unwrap();
    let node = rules.parse("aacb").unwrap();
    assert_eq!(node.replace(None).unwrap().str(), "A\nA\n[c]\nB\n");
}

#[test]
fn match_failure_reports_set_and_bounds() {
    let rules = SetOfRules::empty().add(
        "main",
        RuleInfo {
            expr: Expression::Simple(Atom::Match(yepp::parser::atom::MatchRules::init(
                "xy",
                vec![('0', '9')],
            ))),
            descr: None,
        },
    );
    match rules.parse("z") {
        Err(yepp::Error::ParserErr(e)) => {
            assert_eq!(e.alternatives.expected, vec!["match xy 0-9".to_string()]);
        }
        _ => panic!("expected a parse error"),
    }
}

#[test]
fn grammar_expected_directive() {
    let rules = Peg::new("main = 'a' / expected('an a here')").gen_rules().unwrap();
    match rules.parse("z") {
        Err(yepp::Error::ParserErr(e)) => {
            assert!(e.alternatives.expected.contains(&"an a here".to_string()));
        }
        _ => panic!("expected a parse error"),
    }
}
