//! The matching engine, driven through `Status` and `parse`.

use yepp::parser::atom::Atom;
use yepp::parser::expression::{
    parse, Expression, MultiExpr, NRep, RepInfo, RuleInfo, SetOfRules,
};
use yepp::parser::Status;

fn lit(s: &str) -> Expression {
    Expression::Simple(Atom::Literal(s.to_string()))
}

fn and(es: Vec<Expression>) -> Expression {
    Expression::And(MultiExpr(es))
}

fn or(es: Vec<Expression>) -> Expression {
    Expression::Or(MultiExpr(es))
}

fn rep(e: Expression, min: usize) -> Expression {
    Expression::Repeat(RepInfo {
        expression: Box::new(e),
        min: NRep(min),
        max: None,
    })
}

fn rules_main(e: Expression) -> SetOfRules {
    SetOfRules::empty().add("main", RuleInfo { expr: e, descr: None })
}

#[test]
fn test_parse_expr_lit() {
    let rules = rules_main(lit("aaa"));
    let status_init = Status::init("aaaaaaaaaaaaaaaa", &rules);

    let (status, _) = parse(status_init).ok().unwrap();
    assert!(status.pos.col == 3);
    assert!(status.pos.n == 3);
    assert!(status.pos.row == 0);
}

#[test]
fn test_parse_expr_and_ok() {
    let rules = rules_main(and(vec![lit("aa"), and(vec![lit("bb"), lit("cc")])]));
    let status_init = Status::init("aabbcc", &rules);

    let (status, _) = parse(status_init).ok().unwrap();
    assert_eq!(status.pos.col, 6);
    assert_eq!(status.pos.n, 6);
    assert_eq!(status.pos.row, 0);
}

#[test]
fn test_parse_expr_or_ok() {
    let rules = rules_main(or(vec![lit("bb"), and(vec![lit("aa"), lit("bb")])]));
    let status_init = Status::init("aabb", &rules);

    let (status, _) = parse(status_init).ok().unwrap();
    assert_eq!(status.pos.col, 4);
    assert_eq!(status.pos.n, 4);
    assert_eq!(status.pos.row, 0);
}

#[test]
fn test_parse_expr_not_ok() {
    let rules = rules_main(Expression::Not(Box::new(lit("bb"))));
    let status_init = Status::init("aa", &rules);

    let (status, _) = parse(status_init).ok().unwrap();
    assert_eq!(status.pos.col, 0);
    assert_eq!(status.pos.n, 0);
    assert_eq!(status.pos.row, 0);
}

#[test]
fn test_parse_expr_repeat_ok() {
    let rules = rules_main(rep(lit("aa"), 3));
    {
        let status_init = Status::init("aaaaaa", &rules);

        let (status, _) = parse(status_init).ok().unwrap();
        assert_eq!(status.pos.col, 6);
        assert_eq!(status.pos.n, 6);
        assert_eq!(status.pos.row, 0);
    }
}

#[test]
fn literal_advances_rows_across_newlines() {
    let rules = rules_main(lit("ab\ncd"));
    let status_init = Status::init("ab\ncdxx", &rules);

    let (status, _) = parse(status_init).ok().unwrap();
    assert_eq!(status.pos.n, 5);
    assert_eq!(status.pos.row, 1);
    assert_eq!(status.pos.col, 2);
    assert_eq!(status.pos.start_line, 3);
}

#[test]
fn repeat_needs_min_iterations() {
    let rules = rules_main(rep(lit("a"), 3));
    assert!(rules.parse("aa").is_err());
    assert!(rules.parse("aaa").is_ok());
    assert!(rules.parse("aaaaa").is_ok());
}

#[test]
fn repeat_stops_at_first_failing_iteration() {
    let rules = rules_main(and(vec![rep(lit("a"), 0), lit("b")]));
    assert!(rules.parse("aaab").is_ok());
    assert!(rules.parse("b").is_ok());
}

#[test]
fn repeat_respects_max_bound() {
    let e = Expression::Repeat(RepInfo {
        expression: Box::new(lit("a")),
        min: NRep(0),
        max: Some(NRep(2)),
    });
    let rules = rules_main(and(vec![e, lit("b")]));
    assert!(rules.parse("aab").is_ok());
    assert!(rules.parse("aaab").is_err());
}

#[test]
fn not_fails_when_inner_matches() {
    let rules = rules_main(Expression::Not(Box::new(lit("aa"))));
    assert!(rules.parse("aa").is_err());
}

#[test]
fn peek_checks_without_consuming() {
    let rules = rules_main(and(vec![
        Expression::Peek(Box::new(lit("aa"))),
        lit("aab"),
    ]));
    assert!(rules.parse("aab").is_ok());
    let rules2 = rules_main(Expression::Peek(Box::new(lit("zz"))));
    assert!(rules2.parse("zz").is_err());
}

#[test]
fn or_first_match_wins() {
    let rules = rules_main(or(vec![lit("aa"), lit("bb")]));
    let node = rules.parse("aa").unwrap();
    assert_eq!(
        node,
        yepp::ast::Node::Rule("main".to_string(), Box::new(yepp::ast::Node::Val("aa".to_string())))
    );
}

#[test]
fn dot_and_eof_atoms() {
    let rules = rules_main(and(vec![
        Expression::Simple(Atom::Dot),
        Expression::Simple(Atom::Eof),
    ]));
    assert!(rules.parse("x").is_ok());
    assert!(rules.parse("").is_err());
    assert!(rules.parse("xy").is_err());
}

#[test]
fn match_atom_by_set_and_range() {
    let m = Expression::Simple(Atom::Match(yepp::parser::atom::MatchRules::init(
        "xy",
        vec![('0', '9')],
    )));
    let rules = rules_main(m);
    assert!(rules.parse("x").is_ok());
    assert!(rules.parse("7").is_ok());
    assert!(rules.parse("z").is_err());
}

#[test]
fn unresolved_rule_reference_fails() {
    let rules = rules_main(Expression::RuleName("missing".to_string()));
    assert!(rules.parse("anything").is_err());
}

#[test]
fn expected_atom_reports_critical_message() {
    let rules = rules_main(Expression::Simple(Atom::Expected("an ok token".to_string())));
    match rules.parse("nope") {
        Err(yepp::Error::ParserErr(e)) => {
            assert_eq!(e.alternatives.expected, vec!["an ok token".to_string()]);
            assert_eq!(e.priority, yepp::parser::ErrPriority::Critical);
        }
        _ => panic!("expected a parse error"),
    }
}

#[test]
fn expected_message_joins_alternatives() {
    let rules = rules_main(or(vec![
        lit("ok"),
        Expression::Simple(Atom::Expected("an ok token".to_string())),
    ]));
    match rules.parse("nope") {
        Err(yepp::Error::ParserErr(e)) => {
            assert!(e.alternatives.expected.contains(&"an ok token".to_string()));
            assert!(e.alternatives.expected.contains(&"ok".to_string()));
        }
        _ => panic!("expected a parse error"),
    }
}
