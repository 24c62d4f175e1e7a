//! Rendering a rule set as the flat command stream.
//!
//! The encoder is the decoder's inverse: running the decoder over an
//! encoded rule set rebuilds the same rules. Names, literals and messages
//! must not hold line breaks, since the stream frames them by lines.

use vstd::prelude::*;
use crate::parser::atom::{Atom, AtomV};
use crate::parser::expression::{
    expr_view, Expression, ExprV, MetaExpr, ReplItem, ReplItemV, ReplTemplate, RuleInfo, RuleInfoV,
    SetOfRules,
};

verus! {

broadcast use vstd::seq::group_seq_axioms, vstd::std_specs::vec::group_vec_axioms;

/// The decimal digit character of a value below ten.
pub open spec fn digit_char(d: int) -> char {
    if d == 0 {
        '0'
    } else if d == 1 {
        '1'
    } else if d == 2 {
        '2'
    } else if d == 3 {
        '3'
    } else if d == 4 {
        '4'
    } else if d == 5 {
        '5'
    } else if d == 6 {
        '6'
    } else if d == 7 {
        '7'
    } else if d == 8 {
        '8'
    } else {
        '9'
    }
}

/// The decimal numeral of a value, most significant digit first.
pub open spec fn dec_str(n: int) -> Seq<char>
    decreases n,
{
    if n < 10 {
        seq![digit_char(n)]
    } else {
        dec_str(n / 10).push(digit_char(n % 10))
    }
}

/// The one-character string of a decimal digit.
fn digit_str(d: usize) -> (r: &'static str)
    requires
        d < 10,
    ensures
        r@ == seq![digit_char(d as int)],
{
    let r: &'static str = if d == 0 {
        "0"
    } else if d == 1 {
        "1"
    } else if d == 2 {
        "2"
    } else if d == 3 {
        "3"
    } else if d == 4 {
        "4"
    } else if d == 5 {
        "5"
    } else if d == 6 {
        "6"
    } else if d == 7 {
        "7"
    } else if d == 8 {
        "8"
    } else {
        "9"
    };
    proof {
        reveal_strlit("0");
        reveal_strlit("1");
        reveal_strlit("2");
        reveal_strlit("3");
        reveal_strlit("4");
        reveal_strlit("5");
        reveal_strlit("6");
        reveal_strlit("7");
        reveal_strlit("8");
        reveal_strlit("9");
        assert(r@ =~= seq![digit_char(d as int)]);
    }
    r
}

/// The decimal numeral of a value, as a string.
pub fn fmt_usize(n: usize) -> (r: String)
    ensures
        r@ == dec_str(n as int),
{
    let mut s = String::from_str(digit_str(n % 10));
    let mut m: usize = n / 10;
    while m > 0
        invariant
            dec_str(n as int) =~= (if m > 0 {
                dec_str(m as int) + s@
            } else {
                s@
            }),
        decreases m,
    {
        let d = m % 10;
        let s2 = String::from_str(digit_str(d)).concat(s.as_str());
        proof {
            if m >= 10 {
                assert(dec_str(m as int) =~= dec_str(m as int / 10).push(digit_char(m as int % 10)));
                assert(dec_str(m as int) + s@ =~= dec_str(m as int / 10) + s2@);
            } else {
                assert(dec_str(m as int) =~= seq![digit_char(m as int)]);
                assert(dec_str(m as int) + s@ =~= s2@);
            }
        }
        s = s2;
        m = m / 10;
    }
    s
}

/// A value written as a numeral and read back comes out unchanged: the
/// numeric tokens of the command stream survive the round trip.
pub proof fn lemma_numeral_round_trip(n: int)
    requires
        0 <= n,
    ensures
        crate::ir::to_rules::all_digits(dec_str(n)),
        crate::ir::to_rules::dec_val(dec_str(n)) == n,
    decreases n,
{
    if n < 10 {
        let s = dec_str(n);
        assert(s =~= seq![digit_char(n)]);
        assert(s.len() == 1);
        assert(s.subrange(0, 0) =~= Seq::<char>::empty());
        assert(crate::ir::to_rules::dec_val(s.subrange(0, 0)) == 0);
        assert(crate::ir::to_rules::dec_val(s) == crate::ir::to_rules::dec_val(s.subrange(0, 0))
            * 10 + crate::ir::to_rules::digit_val(s[0]));
        assert(crate::ir::to_rules::digit_val(digit_char(n)) == n);
        assert(crate::ir::to_rules::all_digits(s));
    } else {
        lemma_numeral_round_trip(n / 10);
        vstd::arithmetic::div_mod::lemma_fundamental_div_mod(n, 10);
        let s = dec_str(n);
        let p = dec_str(n / 10);
        assert(s == p.push(digit_char(n % 10)));
        assert(s.subrange(0, s.len() - 1) =~= p);
        assert(crate::ir::to_rules::digit_val(digit_char(n % 10)) == n % 10);
        assert forall|k: int| 0 <= k < s.len() implies crate::ir::to_rules::is_digit(
            #[trigger] s[k],
        ) by {
            if k < s.len() - 1 {
                assert(s[k] == p[k]);
            }
        }
        assert(crate::ir::to_rules::dec_val(s) == crate::ir::to_rules::dec_val(p) * 10
            + crate::ir::to_rules::digit_val(s[s.len() - 1]));
    }
}

/// One line of the stream: the text and a newline.
pub open spec fn enc_line(s: Seq<char>) -> Seq<char> {
    s.push('\n')
}

/// The stream text of an atom.
pub open spec fn enc_atom(a: AtomV) -> Seq<char> {
    match a {
        AtomV::Literal(s) => enc_line("ATOM"@) + enc_line("LIT"@) + enc_line(s),
        AtomV::Match(chars, bounds) => enc_line("MATCH"@) + enc_line("CHARS"@) + enc_line(chars)
            + enc_line("BETW"@) + enc_bounds(bounds) + enc_line("EOBETW"@),
        AtomV::Expected(msg) => enc_line("EXPECTED"@) + enc_line(msg),
        AtomV::Dot => enc_line("ATOM"@) + enc_line("DOT"@),
        AtomV::Eof => enc_line("ATOM"@) + enc_line("EOF"@),
    }
}

/// The stream text of a list of bounds: two lines each.
pub open spec fn enc_bounds(bounds: Seq<(char, char)>) -> Seq<char>
    decreases bounds.len(),
{
    if bounds.len() == 0 {
        Seq::empty()
    } else {
        enc_line(seq![bounds[0].0]) + enc_line(seq![bounds[0].1]) + enc_bounds(
            bounds.subrange(1, bounds.len() as int),
        )
    }
}

/// The stream text of one template item.
pub open spec fn enc_item(it: ReplItemV) -> Seq<char> {
    match it {
        ReplItemV::Text(t) => enc_line("TEXT"@) + enc_line(t),
        ReplItemV::ByPos(p) => enc_line("POS"@) + enc_line(dec_str(p)),
        ReplItemV::ByName(n) => enc_line("NAMED"@) + enc_line(n),
        ReplItemV::ByNameOpt(n) => enc_line("NAMED_OPT"@) + enc_line(n),
        ReplItemV::Function(n) => enc_line("FUNCT"@) + enc_line(n),
    }
}

/// The stream text of a template's items.
pub open spec fn enc_items(items: Seq<ReplItemV>) -> Seq<char>
    decreases items.len(),
{
    if items.len() == 0 {
        Seq::empty()
    } else {
        enc_item(items[0]) + enc_items(items.subrange(1, items.len() as int))
    }
}

/// The stream text of an expression.
pub open spec fn enc_expr(e: ExprV) -> Seq<char>
    decreases e, 1int,
{
    match e {
        ExprV::Simple(a) => enc_atom(a),
        ExprV::And(es) => enc_line("AND"@) + enc_list(es) + enc_line("CLOSE_MEXPR"@),
        ExprV::Or(es) => enc_line("OR"@) + enc_list(es) + enc_line("CLOSE_MEXPR"@),
        ExprV::Not(b) => enc_line("NEGATE"@) + enc_expr(*b),
        ExprV::Peek(b) => enc_line("PEEK"@) + enc_expr(*b),
        ExprV::Repeat(b, min, maxo) => enc_line("REPEAT"@) + enc_line(dec_str(min)) + enc_line(
            match maxo {
                Some(m) => dec_str(m),
                None => "inf"@,
            },
        ) + enc_expr(*b),
        ExprV::RuleName(n) => enc_line("ATOM"@) + enc_line("RULREF"@) + enc_line(n),
        ExprV::Named(n, b) => enc_line("NAMED"@) + enc_line(n) + enc_expr(*b),
        ExprV::Transf2(es, items) => enc_line("TRANSF2"@) + enc_items(items) + enc_line(
            "EOTRANSF2"@,
        ) + enc_line("AND"@) + enc_list(es) + enc_line("CLOSE_MEXPR"@),
    }
}

/// The stream text of a list of expressions.
pub open spec fn enc_list(es: Seq<ExprV>) -> Seq<char>
    decreases es, 0int,
{
    if es.len() == 0 {
        Seq::empty()
    } else {
        enc_expr(es[0]) + enc_list(es.subrange(1, es.len() as int))
    }
}

/// The stream text of one rule.
pub open spec fn enc_rule(name: Seq<char>, ri: RuleInfoV) -> Seq<char> {
    enc_line("RULE"@) + enc_line(name) + enc_line("DESCR"@) + enc_line(
        match ri.descr {
            Some(d) => d,
            None => Seq::empty(),
        },
    ) + enc_expr(ri.expr)
}

/// The stream text of a list of rules, ended by the end-of-program command.
pub open spec fn enc_entries(es: Seq<(String, RuleInfo)>) -> Seq<char>
    decreases es.len(),
{
    if es.len() == 0 {
        "EOP"@
    } else {
        enc_rule(es[0].0@, es[0].1@) + enc_entries(es.subrange(1, es.len() as int))
    }
}

/// A line: the text followed by a newline.
fn line(s: &str) -> (r: String)
    ensures
        r@ == enc_line(s@),
{
    let r = String::from_str(s).concat("\n");
    proof {
        reveal_strlit("\n");
        assert(r@ =~= s@.push('\n'));
    }
    r
}

/// The stream text of an atom.
fn encode_atom(a: &Atom) -> (r: String)
    ensures
        r@ == enc_atom(a@),
{
    match a {
        Atom::Literal(s) => {
            let r = line("ATOM").concat(line("LIT").as_str()).concat(line(s.as_str()).as_str());
            proof {
                assert(r@ =~= enc_atom(a@));
            }
            r
        },
        Atom::Match(mr) => {
            let mut bounds_txt = String::from_str("");
            let ghost all = mr.1@;
            let mut i: usize = 0;
            proof {
                reveal_strlit("");
                assert(all.subrange(0, all.len() as int) =~= all);
                assert(bounds_txt@ + enc_bounds(all) =~= enc_bounds(all));
            }
            while i < mr.1.len()
                invariant
                    i <= mr.1@.len(),
                    all == mr.1@,
                    enc_bounds(all) =~= bounds_txt@ + enc_bounds(
                        all.subrange(i as int, all.len() as int),
                    ),
                decreases mr.1@.len() - i,
            {
                let (b, t) = mr.1[i];
                let bs = crate::ir::encode::char_line(b);
                let ts = crate::ir::encode::char_line(t);
                let bt2 = bounds_txt.concat(bs.as_str()).concat(ts.as_str());
                proof {
                    let rest = all.subrange(i as int, all.len() as int);
                    assert(rest[0] == all[i as int]);
                    assert(rest.subrange(1, rest.len() as int) =~= all.subrange(
                        i + 1 as int,
                        all.len() as int,
                    ));
                    assert(enc_bounds(rest) =~= enc_line(seq![all[i as int].0]) + enc_line(
                        seq![all[i as int].1],
                    ) + enc_bounds(all.subrange(i + 1 as int, all.len() as int)));
                    assert(enc_bounds(all) =~= bt2@ + enc_bounds(
                        all.subrange(i + 1 as int, all.len() as int),
                    ));
                }
                bounds_txt = bt2;
                i += 1;
            }
            proof {
                assert(all.subrange(all.len() as int, all.len() as int) =~= Seq::<(
                    char,
                    char,
                )>::empty());
                assert(enc_bounds(all) =~= bounds_txt@);
            }
            let r = line("MATCH").concat(line("CHARS").as_str()).concat(
                line(mr.0.as_str()).as_str(),
            ).concat(line("BETW").as_str()).concat(bounds_txt.as_str()).concat(
                line("EOBETW").as_str(),
            );
            proof {
                assert(r@ =~= enc_atom(a@));
            }
            r
        },
        Atom::Expected(msg) => {
            let r = line("EXPECTED").concat(line(msg.as_str()).as_str());
            proof {
                assert(r@ =~= enc_atom(a@));
            }
            r
        },
        Atom::Dot => {
            let r = line("ATOM").concat(line("DOT").as_str());
            proof {
                assert(r@ =~= enc_atom(a@));
            }
            r
        },
        Atom::Eof => {
            let r = line("ATOM").concat(line("EOF").as_str());
            proof {
                assert(r@ =~= enc_atom(a@));
            }
            r
        },
    }
}

/// A line holding one character.
fn char_line(c: char) -> (r: String)
    ensures
        r@ == enc_line(seq![c]),
{
    let r = crate::parser::atom::string_from_char(c).concat("\n");
    proof {
        reveal_strlit("\n");
        assert(r@ =~= seq![c].push('\n'));
    }
    r
}

/// The stream text of one template item.
fn encode_item(it: &ReplItem) -> (r: String)
    ensures
        r@ == enc_item(it@),
{
    let r = match it {
        ReplItem::Text(t) => line("TEXT").concat(line(t.as_str()).as_str()),
        ReplItem::ByPos(p) => line("POS").concat(line(fmt_usize(*p).as_str()).as_str()),
        ReplItem::ByName(n) => line("NAMED").concat(line(n.as_str()).as_str()),
        ReplItem::ByNameOpt(n) => line("NAMED_OPT").concat(line(n.as_str()).as_str()),
        ReplItem::Function(n) => line("FUNCT").concat(line(n.as_str()).as_str()),
    };
    proof {
        assert(r@ =~= enc_item(it@));
    }
    r
}

/// The stream text of an expression.
pub fn encode_expr(e: &Expression) -> (r: String)
    ensures
        r@ == enc_expr(e@),
    decreases e, 3int,
{
    match e {
        Expression::Simple(a) => encode_atom(a),
        Expression::And(me) => {
            let r = line("AND").concat(encode_list(&me.0).as_str()).concat(
                line("CLOSE_MEXPR").as_str(),
            );
            proof {
                assert(r@ =~= enc_expr(e@));
            }
            r
        },
        Expression::Or(me) => {
            let r = line("OR").concat(encode_list(&me.0).as_str()).concat(
                line("CLOSE_MEXPR").as_str(),
            );
            proof {
                assert(r@ =~= enc_expr(e@));
            }
            r
        },
        Expression::Not(b) => {
            let r = line("NEGATE").concat(encode_expr(b).as_str());
            proof {
                assert(r@ =~= enc_expr(e@));
            }
            r
        },
        Expression::Peek(b) => {
            let r = line("PEEK").concat(encode_expr(b).as_str());
            proof {
                assert(r@ =~= enc_expr(e@));
            }
            r
        },
        Expression::Repeat(ri) => {
            let max_line = match &ri.max {
                Some(m) => line(fmt_usize(m.0).as_str()),
                None => line("inf"),
            };
            let r = line("REPEAT").concat(line(fmt_usize(ri.min.0).as_str()).as_str()).concat(
                max_line.as_str(),
            ).concat(encode_expr(&ri.expression).as_str());
            proof {
                assert(r@ =~= enc_expr(e@));
            }
            r
        },
        Expression::RuleName(n) => {
            let r = line("ATOM").concat(line("RULREF").as_str()).concat(line(n.as_str()).as_str());
            proof {
                assert(r@ =~= enc_expr(e@));
            }
            r
        },
        Expression::MetaExpr(MetaExpr::Named(ne)) => {
            let r = line("NAMED").concat(line(ne.name.as_str()).as_str()).concat(
                encode_expr(&ne.expr).as_str(),
            );
            proof {
                assert(r@ =~= enc_expr(e@));
            }
            r
        },
        Expression::MetaExpr(MetaExpr::Transf2(te)) => {
            let r = line("TRANSF2").concat(encode_items(&te.transf2_rules).as_str()).concat(
                line("EOTRANSF2").as_str(),
            ).concat(line("AND").as_str()).concat(encode_list(&te.mexpr.0).as_str()).concat(
                line("CLOSE_MEXPR").as_str(),
            );
            proof {
                assert(r@ =~= enc_expr(e@));
            }
            r
        },
    }
}

/// The stream text of a template's items.
fn encode_items(t: &ReplTemplate) -> (r: String)
    ensures
        r@ == enc_items(t@),
{
    let mut out = String::from_str("");
    let ghost all = t@;
    proof {
        reveal_strlit("");
        assert(t@.len() == t.0@.len());
    }
    let mut i: usize = 0;
    proof {
        assert(all.subrange(0, all.len() as int) =~= all);
        assert(out@ + enc_items(all) =~= enc_items(all));
    }
    while i < t.0.len()
        invariant
            i <= t.0@.len(),
            all == t@,
            all.len() == t.0@.len(),
            forall|k: int| 0 <= k < all.len() ==> all[k] == t.0@[k]@,
            enc_items(all) =~= out@ + enc_items(all.subrange(i as int, all.len() as int)),
        decreases t.0@.len() - i,
    {
        let piece = encode_item(&t.0[i]);
        let out2 = out.concat(piece.as_str());
        proof {
            let rest = all.subrange(i as int, all.len() as int);
            assert(rest[0] == all[i as int]);
            assert(rest.subrange(1, rest.len() as int) =~= all.subrange(
                i + 1 as int,
                all.len() as int,
            ));
            assert(enc_items(all) =~= out2@ + enc_items(
                all.subrange(i + 1 as int, all.len() as int),
            ));
        }
        out = out2;
        i += 1;
    }
    proof {
        assert(all.subrange(all.len() as int, all.len() as int) =~= Seq::<ReplItemV>::empty());
        assert(enc_items(all) =~= out@);
    }
    out
}

/// The stream text of a list of expressions.
pub fn encode_list(es: &Vec<Expression>) -> (r: String)
    ensures
        r@ == enc_list(crate::parser::expression::exprs_view(es@)),
    decreases es, 2int,
{
    let mut out = String::from_str("");
    let ghost all = crate::parser::expression::exprs_view(es@);
    proof {
        reveal_strlit("");
        crate::parser::expression::lemma_exprs_view(es@);
    }
    let mut i: usize = 0;
    proof {
        assert(all.subrange(0, all.len() as int) =~= all);
        assert(out@ + enc_list(all) =~= enc_list(all));
    }
    while i < es.len()
        invariant
            i <= es@.len(),
            all == crate::parser::expression::exprs_view(es@),
            all.len() == es@.len(),
            forall|k: int| 0 <= k < all.len() ==> all[k] == expr_view(es@[k]),
            enc_list(all) =~= out@ + enc_list(all.subrange(i as int, all.len() as int)),
        decreases es@.len() - i,
    {
        let piece = encode_expr(&es[i]);
        let out2 = out.concat(piece.as_str());
        proof {
            let rest = all.subrange(i as int, all.len() as int);
            assert(rest[0] == all[i as int]);
            assert(rest.subrange(1, rest.len() as int) =~= all.subrange(
                i + 1 as int,
                all.len() as int,
            ));
            assert(enc_list(all) =~= out2@ + enc_list(
                all.subrange(i + 1 as int, all.len() as int),
            ));
        }
        out = out2;
        i += 1;
    }
    proof {
        assert(all.subrange(all.len() as int, all.len() as int) =~= Seq::<ExprV>::empty());
        assert(enc_list(all) =~= out@);
    }
    out
}

/// The stream text of a whole rule set, its rules in an unspecified order,
/// ended by the end-of-program command.
pub fn encode_rules(rules: &SetOfRules) -> (r: String)
    ensures
        exists|es: Seq<(String, RuleInfo)>|
            {
                &&& r@ == enc_entries(es)
                &&& forall|i: int|
                    0 <= i < es.len() ==> rules@.contains_key((#[trigger] es[i]).0@) && rules@[
                        es[i].0@
                    ] == es[i].1@
                &&& forall|k: Seq<char>|
                    #[trigger] rules@.contains_key(k) ==> exists|i: int|
                        0 <= i < es.len() && (#[trigger] es[i]).0@ == k
                &&& forall|i: int, j: int| 0 <= i < j < es.len() ==> es[i].0@ != es[j].0@
            },
{
    let entries = rules.entries();
    let ghost all = entries@;
    let mut out = String::from_str("");
    proof {
        reveal_strlit("");
    }
    let mut i: usize = 0;
    proof {
        assert(all.subrange(0, all.len() as int) =~= all);
        assert(out@ + enc_entries(all) =~= enc_entries(all));
    }
    while i < entries.len()
        invariant
            i <= all.len(),
            all == entries@,
            forall|k: int|
                0 <= k < all.len() ==> rules@.contains_key((#[trigger] all[k]).0@) && rules@[
                    all[k].0@
                ] == all[k].1@,
            enc_entries(all) =~= out@ + enc_entries(all.subrange(i as int, all.len() as int)),
        decreases all.len() - i,
    {
        let (name, ri) = &entries[i];
        let descr_line = match &ri.descr {
            Some(d) => line(d.as_str()),
            None => line(""),
        };
        let piece = line("RULE").concat(line(name.as_str()).as_str()).concat(
            line("DESCR").as_str(),
        ).concat(descr_line.as_str()).concat(encode_expr(&ri.expr).as_str());
        proof {
            reveal_strlit("");
            assert(piece@ =~= enc_rule(all[i as int].0@, all[i as int].1@));
            let rest = all.subrange(i as int, all.len() as int);
            assert(rest[0] == all[i as int]);
            assert(rest.subrange(1, rest.len() as int) =~= all.subrange(
                i + 1 as int,
                all.len() as int,
            ));
            assert(enc_entries(all) =~= out@ + piece@ + enc_entries(
                all.subrange(i + 1 as int, all.len() as int),
            ));
        }
        out = out.concat(piece.as_str());
        i += 1;
    }
    let r = out.concat("EOP");
    proof {
        assert(all.subrange(all.len() as int, all.len() as int) =~= Seq::<(
            String,
            RuleInfo,
        )>::empty());
        assert(r@ =~= enc_entries(all));
        assert(forall|k: Seq<char>|
            #[trigger] rules@.contains_key(k) ==> exists|i: int|
                0 <= i < all.len() && (#[trigger] all[i]).0@ == k);
    }
    r
}

} // verus!
