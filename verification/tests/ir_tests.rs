//! The bootstrap command stream: decoding, encoding, and the round trip.

use yepp::ir::encode::{encode_rules, fmt_usize};
use yepp::ir::to_rules::parse_usize;
use yepp::ir::Ir;
use yepp::parser::atom::{Atom, MatchRules};
use yepp::parser::expression::{
    Expression, MetaExpr, MultiExpr, NRep, NamedExpr, RepInfo, ReplItem, ReplTemplate, RuleInfo,
    SetOfRules, Transf2Expr,
};

fn lit(s: &str) -> Expression {
    Expression::Simple(Atom::Literal(s.to_string()))
}

fn rref(s: &str) -> Expression {
    Expression::RuleName(s.to_string())
}

fn and(es: Vec<Expression>) -> Expression {
    Expression::And(MultiExpr(es))
}

fn or(es: Vec<Expression>) -> Expression {
    Expression::Or(MultiExpr(es))
}

#[test]
fn numeral_reading_and_writing() {
    assert_eq!(parse_usize("0"), Some(0));
    assert_eq!(parse_usize("405"), Some(405));
    assert_eq!(parse_usize(""), None);
    assert_eq!(parse_usize("12a"), None);
    assert_eq!(parse_usize("99999999999999999999999999"), None);
    assert_eq!(fmt_usize(0), "0");
    assert_eq!(fmt_usize(7), "7");
    assert_eq!(fmt_usize(405), "405");
    assert_eq!(parse_usize(fmt_usize(98765).as_str()), Some(98765));
}

#[test]
fn decode_simple_stream() {
    let txt = "RULE\nmain\nDESCR\n\nATOM\nLIT\nhello\nEOP";
    let rules = Ir::new(txt).get_rules().unwrap();
    assert!(rules.parse("hello").is_ok());
    assert!(rules.parse("help").is_err());
}

#[test]
fn decode_rejects_unknown_tag() {
    let txt = "RULE\nmain\nDESCR\n\nBOGUS\nEOP";
    assert!(Ir::new(txt).get_rules().is_err());
}

#[test]
fn decode_rejects_truncated_stream() {
    let txt = "RULE\nmain\nDESCR\n";
    assert!(Ir::new(txt).get_rules().is_err());
}

#[test]
fn decode_rejects_bad_repeat_bound() {
    let txt = "RULE\nmain\nDESCR\n\nREPEAT\nxx\ninf\nATOM\nLIT\na\nEOP";
    assert!(Ir::new(txt).get_rules().is_err());
}

#[test]
fn decode_rejects_minimum_above_maximum() {
    let txt = "RULE\nmain\nDESCR\n\nREPEAT\n3\n2\nATOM\nLIT\na\nEOP";
    assert!(Ir::new(txt).get_rules().is_err());
    let ok = "RULE\nmain\nDESCR\n\nREPEAT\n2\n2\nATOM\nLIT\na\nEOP";
    assert!(Ir::new(ok).get_rules().is_ok());
}

#[test]
fn decode_trims_rule_descriptions() {
    let txt = "RULE\nmain\nDESCR\n  spaced out \nATOM\nLIT\nq\nEOP";
    let rules = Ir::new(txt).get_rules().unwrap();
    assert_eq!(rules.get("main").unwrap().descr, Some("spaced out".to_string()));
    let blank = "RULE\nmain\nDESCR\n   \nATOM\nLIT\nq\nEOP";
    let rules2 = Ir::new(blank).get_rules().unwrap();
    assert_eq!(rules2.get("main").unwrap().descr, None);
}

fn corpus_rules() -> SetOfRules {
    let digits = Expression::Simple(Atom::Match(MatchRules::init("", vec![('0', '9')])));
    let some_digits = Expression::Repeat(RepInfo {
        expression: Box::new(digits),
        min: NRep(1),
        max: None,
    });
    let tail = or(vec![
        lit("!"),
        lit("?"),
        Expression::Simple(Atom::Expected("closing punctuation".to_string())),
    ]);
    let templ = Expression::MetaExpr(MetaExpr::Transf2(Transf2Expr {
        mexpr: MultiExpr(vec![
            Expression::MetaExpr(MetaExpr::Named(NamedExpr {
                name: "x".to_string(),
                expr: Box::new(some_digits),
            })),
            tail,
        ]),
        transf2_rules: ReplTemplate(vec![
            ReplItem::Text("N=".to_string()),
            ReplItem::ByName("x".to_string()),
            ReplItem::ByNameOpt("absent".to_string()),
            ReplItem::Function("endl".to_string()),
            ReplItem::ByPos(1),
        ]),
    }));
    let aux = and(vec![
        Expression::Peek(Box::new(Expression::Simple(Atom::Dot))),
        Expression::Simple(Atom::Dot),
    ]);
    let opt_a = Expression::Repeat(RepInfo {
        expression: Box::new(lit("a")),
        min: NRep(0),
        max: Some(NRep(2)),
    });
    let main = and(vec![
        Expression::Not(Box::new(lit("z"))),
        opt_a,
        rref("aux"),
        templ,
        Expression::Simple(Atom::Eof),
    ]);
    SetOfRules::empty()
        .add("aux", RuleInfo { expr: aux, descr: Some("one character".to_string()) })
        .add("main", RuleInfo { expr: main, descr: None })
}

#[test]
fn encode_decode_round_trip_behaves_identically() {
    let original = corpus_rules();
    let stream = encode_rules(&original);
    let decoded = Ir::new(stream.as_str()).get_rules().unwrap();

    let corpus = [
        "aq12!", "q9?", "aaq3!", "z12!", "q12", "q!", "", "aq0?x",
    ];
    for input in corpus.iter() {
        let a = original.parse(input);
        let b = decoded.parse(input);
        match (a, b) {
            (Ok(na), Ok(nb)) => {
                let ra = na.replace(None).unwrap();
                let rb = nb.replace(None).unwrap();
                assert_eq!(ra.str(), rb.str());
            }
            (Err(_), Err(_)) => {}
            _ => panic!("round trip diverged on {:?}", input),
        }
    }
}

#[test]
fn encode_decode_round_trip_of_a_compiled_grammar() {
    // A grammar compiled from text holds no line breaks in its data, so it
    // survives the line-framed stream whole.
    let original = yepp::Peg::new("main = item+ '.'?\nitem = 'x' / 'y' / w\nw = ' '")
        .gen_rules()
        .unwrap();
    let stream = encode_rules(&original);
    let decoded = Ir::new(stream.as_str()).get_rules().unwrap();

    let corpus = ["x", "xy x.", "x z", "", ".", "yyy"];
    for input in corpus.iter() {
        let a = original.parse(input);
        let b = decoded.parse(input);
        match (a, b) {
            (Ok(na), Ok(nb)) => {
                assert_eq!(na, nb);
                let ra = na.replace(None).unwrap();
                let rb = nb.replace(None).unwrap();
                assert_eq!(ra.str(), rb.str());
            }
            (Err(_), Err(_)) => {}
            _ => panic!("round trip diverged on {:?}", input),
        }
    }
}

#[test]
fn reader_steps_through_commands() {
    let ir = Ir::new("A\nB\r\nC");
    let ir2 = ir.consume("A").unwrap();
    let (ir3, cmd) = ir2.get().unwrap();
    assert_eq!(cmd.0, "B");
    assert_eq!(ir3.peek().unwrap().0, "C");
    let (ir4, _) = ir3.get().unwrap();
    assert!(ir4.peek().is_none());
    assert!(ir4.get().is_err());
}
