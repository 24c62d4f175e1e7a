//! Rendering rule sets as host-language initializer text, and rule tracing.

use yepp::gcode::{atom2code, expr2code, get_rust_rules2parse_peg2, match_rules2code, rust_from_rules};
use yepp::parser::atom::{Atom, MatchRules};
use yepp::parser::expression::{Expression, NRep, RepInfo, RuleInfo, SetOfRules};

#[test]
fn atom_rendering_escapes_literals() {
    assert_eq!(atom2code(&Atom::Literal("a\nb\t\"c".to_string())), "lit!(\"a\\nb\\t\\\"c\")");
    assert_eq!(atom2code(&Atom::Expected("msg".to_string())), "expected!(\"msg\")");
    assert_eq!(atom2code(&Atom::Dot), "dot!()");
    assert_eq!(atom2code(&Atom::Eof), "eof!()");
}

#[test]
fn match_rendering_lists_bounds() {
    let m = MatchRules::init("xy", vec![('0', '9'), ('a', 'f')]);
    assert_eq!(
        match_rules2code(&m),
        "ematch!(chlist r#\"xy\"#  , from '0', to '9' , from 'a', to 'f' )"
    );
}

#[test]
fn expression_rendering_nests_constructors() {
    let rep = Expression::Repeat(RepInfo {
        expression: Box::new(Expression::Simple(Atom::Literal("a".to_string()))),
        min: NRep(2),
        max: Some(NRep(5)),
    });
    assert_eq!(expr2code(&rep), "rep!(lit!(\"a\"), 2, 5)");
    assert_eq!(
        expr2code(&Expression::RuleName("word".to_string())),
        "ref_rule!(r#\"word\"#)"
    );
}

#[test]
fn rule_set_rendering_lists_entries() {
    let rules = SetOfRules::empty().add(
        "main",
        RuleInfo { expr: Expression::Simple(Atom::Literal("a".to_string())), descr: None },
    );
    assert_eq!(
        rust_from_rules(&rules),
        "\n         r#\"main\"# => RuleInfo{ expr:lit!(\"a\"), descr:None }"
    );
}

#[test]
fn grammar_text_to_rust_rules() {
    let out = get_rust_rules2parse_peg2("main = w+\nw = 'a' / 'b'").unwrap();
    assert!(out.contains("ref_rule!(r#\"w\"#)"));
    assert!(out.contains("lit!(\"a\")"));
    assert!(out.contains("r#\"main\"# => RuleInfo{"));
}

#[test]
fn tracing_records_the_rule_path() {
    let rules = SetOfRules::empty()
        .add("main", RuleInfo { expr: Expression::RuleName("word".to_string()), descr: None })
        .add(
            "word",
            RuleInfo { expr: Expression::Simple(Atom::Literal("xx".to_string())), descr: None },
        );
    match rules.parse_debug("xy") {
        Err(yepp::Error::ParserErr(e)) => {
            assert_eq!(e.parsing_rules, vec!["main".to_string(), "word".to_string()]);
        }
        _ => panic!("expected a parse error"),
    }
    assert!(rules.parse_debug("xx").is_ok());
}

#[test]
fn rule_description_labels_the_error() {
    let rules = SetOfRules::empty().add(
        "main",
        RuleInfo {
            expr: Expression::Simple(Atom::Literal("xx".to_string())),
            descr: Some("a double x".to_string()),
        },
    );
    match rules.parse("xy") {
        Err(yepp::Error::ParserErr(e)) => {
            assert_eq!(e.alternatives.context, Some("a double x".to_string()));
        }
        _ => panic!("expected a parse error"),
    }
}
