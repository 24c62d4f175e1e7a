//! Rendering a rule set as host-language initializer text.
//!
//! A pure rendering over the already-defined data model: each rule becomes
//! one entry of a rule-set literal in the host language, expressions become
//! nested constructor calls, and special characters in literals are
//! escaped.

use vstd::prelude::*;
use crate::ir::encode::{dec_str, fmt_usize};
use crate::parser::atom::{string_from_char, Atom, AtomV, MatchRules};
use crate::parser::expression::{
    expr_view, exprs_view, lemma_exprs_view, template_view, Expression, ExprV, MetaExpr, MultiExpr,
    RepInfo, ReplItem, ReplItemV, ReplTemplate, RuleInfo, RuleInfoV, SetOfRules,
};

verus! {

broadcast use vstd::seq::group_seq_axioms, vstd::std_specs::vec::group_vec_axioms;

/// How one character stands inside a generated string literal: line breaks,
/// tabs and double quotes are escaped.
pub open spec fn esc_char(c: char) -> Seq<char> {
    if c == '\n' {
        "\\n"@
    } else if c == '\r' {
        "\\r"@
    } else if c == '\t' {
        "\\t"@
    } else if c == '"' {
        "\\\""@
    } else {
        seq![c]
    }
}

/// A text with its special characters escaped.
pub open spec fn esc_str(s: Seq<char>) -> Seq<char>
    decreases s.len(),
{
    if s.len() == 0 {
        Seq::empty()
    } else {
        esc_char(s[0]) + esc_str(s.subrange(1, s.len() as int))
    }
}

/// Escapes a text for a generated string literal.
pub fn escape(s: &str) -> (r: String)
    ensures
        r@ == esc_str(s@),
{
    let len = s.unicode_len();
    let mut out = String::from_str("");
    proof {
        reveal_strlit("");
        assert(s@.subrange(0, len as int) =~= s@);
        assert(out@ + esc_str(s@) =~= esc_str(s@));
    }
    let mut i: usize = 0;
    while i < len
        invariant
            i <= len,
            len == s@.len(),
            esc_str(s@) =~= out@ + esc_str(s@.subrange(i as int, len as int)),
        decreases len - i,
    {
        let c = s.get_char(i);
        let piece: String = if c == '\n' {
            String::from_str("\\n")
        } else if c == '\r' {
            String::from_str("\\r")
        } else if c == '\t' {
            String::from_str("\\t")
        } else if c == '"' {
            String::from_str("\\\"")
        } else {
            string_from_char(c)
        };
        proof {
            assert(piece@ == esc_char(s@[i as int]));
            let rest = s@.subrange(i as int, len as int);
            assert(rest[0] == s@[i as int]);
            assert(rest.subrange(1, rest.len() as int) =~= s@.subrange(i + 1 as int, len as int));
            assert(esc_str(rest) =~= piece@ + esc_str(s@.subrange(i + 1 as int, len as int)));
        }
        out = out.concat(piece.as_str());
        proof {
            assert(esc_str(s@) =~= out@ + esc_str(s@.subrange(i + 1 as int, len as int)));
        }
        i += 1;
    }
    proof {
        assert(s@.subrange(len as int, len as int) =~= Seq::<char>::empty());
        assert(esc_str(s@) =~= out@);
    }
    out
}

/// The generated text of an atom.
pub open spec fn g_atom(a: AtomV) -> Seq<char> {
    match a {
        AtomV::Literal(s) => "lit!(\""@ + esc_str(s) + "\")"@,
        AtomV::Expected(s) => "expected!(\""@ + esc_str(s) + "\")"@,
        AtomV::Match(chars, bounds) => "ematch!(chlist r#\""@ + chars + "\"#  "@ + g_bounds(bounds)
            + ")"@,
        AtomV::Dot => "dot!()"@,
        AtomV::Eof => "eof!()"@,
    }
}

/// The generated text of a matcher's bounds.
pub open spec fn g_bounds(bounds: Seq<(char, char)>) -> Seq<char>
    decreases bounds.len(),
{
    if bounds.len() == 0 {
        Seq::empty()
    } else {
        ", from '"@ + seq![bounds[0].0] + "', to '"@ + seq![bounds[0].1] + "' "@ + g_bounds(
            bounds.subrange(1, bounds.len() as int),
        )
    }
}

/// The generated text of one template item.
pub open spec fn g_item(it: ReplItemV) -> Seq<char> {
    match it {
        ReplItemV::Text(t) => "t2_text!(\""@ + t + "\"), "@,
        ReplItemV::ByPos(p) => "t2_bypos!(\""@ + dec_str(p) + "\"), "@,
        ReplItemV::ByName(n) => "t2_byname!(\""@ + n + "\"), "@,
        ReplItemV::ByNameOpt(n) => "t2_byname_opt!(\""@ + n + "\"), "@,
        ReplItemV::Function(n) => "t2_funct!(\""@ + n + "\"), "@,
    }
}

/// The generated text of a template's items.
pub open spec fn g_items(items: Seq<ReplItemV>) -> Seq<char>
    decreases items.len(),
{
    if items.len() == 0 {
        Seq::empty()
    } else {
        g_item(items[0]) + g_items(items.subrange(1, items.len() as int))
    }
}

/// The generated text of an expression.
pub open spec fn g_expr(e: ExprV) -> Seq<char>
    decreases e, 1int,
{
    match e {
        ExprV::Simple(a) => g_atom(a),
        ExprV::And(es) => "and!("@ + g_mexpr(es) + ")"@,
        ExprV::Or(es) => "or!("@ + g_mexpr(es) + ")"@,
        ExprV::Not(b) => "not!("@ + g_expr(*b) + ")"@,
        ExprV::Peek(b) => "peek!("@ + g_expr(*b) + ")"@,
        ExprV::Repeat(b, min, maxo) => "rep!("@ + g_expr(*b) + ", "@ + dec_str(min) + (match maxo {
            Some(m) => ", "@ + dec_str(m),
            None => Seq::<char>::empty(),
        }) + ")"@,
        ExprV::RuleName(n) => "ref_rule!(r#\""@ + n + "\"#)"@,
        ExprV::Named(n, b) => "named!(\""@ + n + "\", "@ + g_expr(*b) + ")"@,
        ExprV::Transf2(es, items) => "transf2!( and!( "@ + g_mexpr(es) + " ) , t2rules!("@
            + g_items(items) + ") )"@,
    }
}

/// The generated text of a list of expressions, comma separated.
pub open spec fn g_mexpr(es: Seq<ExprV>) -> Seq<char>
    decreases es, 0int,
{
    if es.len() == 0 {
        Seq::empty()
    } else {
        g_expr(es[0]) + g_mexpr_tail(es.subrange(1, es.len() as int))
    }
}

/// The generated text of the expressions after the first, each led by a
/// comma.
pub open spec fn g_mexpr_tail(es: Seq<ExprV>) -> Seq<char>
    decreases es, 0int,
{
    if es.len() == 0 {
        Seq::empty()
    } else {
        ", "@ + g_expr(es[0]) + g_mexpr_tail(es.subrange(1, es.len() as int))
    }
}

/// The generated text of one rule entry.
pub open spec fn g_rule(name: Seq<char>, ri: RuleInfoV) -> Seq<char> {
    "r#\""@ + name + "\"# => RuleInfo{ expr:"@ + g_expr(ri.expr) + ", descr:"@ + (match ri.descr {
        Some(d) => "Some("@ + d + ")"@,
        None => "None"@,
    }) + " }"@
}

/// The generated text of a list of rule entries.
pub open spec fn g_entries(es: Seq<(String, RuleInfo)>) -> Seq<char>
    decreases es.len(),
{
    if es.len() == 0 {
        Seq::empty()
    } else {
        let lead: Seq<char> = if es.len() == 1 {
            "  "@
        } else {
            ", "@
        };
        g_entries(es.subrange(0, es.len() - 1)) + "\n       "@ + lead + g_rule(
            es[es.len() - 1].0@,
            es[es.len() - 1].1@,
        )
    }
}

/// Compiles a grammar text and renders the resulting rule set as
/// host-language initializer text, ready to be wrapped in a source file.
pub fn get_rust_rules2parse_peg2(txt_peg: &str) -> (r: Result<String, crate::Error>) {
    let rules = match crate::Peg::new(txt_peg).gen_rules() {
        Ok(rules) => rules,
        Err(e) => {
            return Err(e);
        },
    };
    Ok(rust_from_rules(&rules))
}

/// The generated text of an atom: a constructor call, literals escaped.
pub fn atom2code(atom: &Atom) -> (r: String)
    ensures
        r@ == g_atom(atom@),
{
    let r = match atom {
        Atom::Literal(s) => String::from_str("lit!(\"").concat(escape(s.as_str()).as_str()).concat(
            "\")",
        ),
        Atom::Expected(s) => String::from_str("expected!(\"").concat(
            escape(s.as_str()).as_str(),
        ).concat("\")"),
        Atom::Match(mrules) => match_rules2code(mrules),
        Atom::Dot => String::from_str("dot!()"),
        Atom::Eof => String::from_str("eof!()"),
    };
    proof {
        assert(r@ =~= g_atom(atom@));
    }
    r
}

/// The generated text of a character matcher and its bounds.
pub fn match_rules2code(mrules: &MatchRules) -> (r: String)
    ensures
        r@ == g_atom(AtomV::Match(mrules.0@, mrules.1@)),
{
    let mut bounds_txt = String::from_str("");
    let ghost all = mrules.1@;
    proof {
        reveal_strlit("");
        assert(all.subrange(0, all.len() as int) =~= all);
        assert(bounds_txt@ + g_bounds(all) =~= g_bounds(all));
    }
    let mut i: usize = 0;
    while i < mrules.1.len()
        invariant
            i <= all.len(),
            all == mrules.1@,
            g_bounds(all) =~= bounds_txt@ + g_bounds(all.subrange(i as int, all.len() as int)),
        decreases all.len() - i,
    {
        let (f, t) = mrules.1[i];
        let piece = String::from_str(", from '").concat(string_from_char(f).as_str()).concat(
            "', to '",
        ).concat(string_from_char(t).as_str()).concat("' ");
        proof {
            let rest = all.subrange(i as int, all.len() as int);
            assert(rest[0] == all[i as int]);
            assert(rest.subrange(1, rest.len() as int) =~= all.subrange(
                i + 1 as int,
                all.len() as int,
            ));
            assert(g_bounds(rest) =~= piece@ + g_bounds(
                all.subrange(i + 1 as int, all.len() as int),
            ));
        }
        bounds_txt = bounds_txt.concat(piece.as_str());
        i += 1;
    }
    proof {
        assert(all.subrange(all.len() as int, all.len() as int) =~= Seq::<(char, char)>::empty());
        assert(g_bounds(all) =~= bounds_txt@);
    }
    let r = String::from_str("ematch!(chlist r#\"").concat(mrules.0.as_str()).concat(
        "\"#  ",
    ).concat(bounds_txt.as_str()).concat(")");
    proof {
        assert(r@ =~= g_atom(AtomV::Match(mrules.0@, mrules.1@)));
    }
    r
}

/// The generated text of a repetition.
pub fn repeat2code(rep: &RepInfo) -> (r: String)
    ensures
        r@ == g_expr(expr_view(Expression::Repeat(*rep))),
    decreases rep, 4int,
{
    let max_txt: String = match &rep.max {
        Some(m) => String::from_str(", ").concat(fmt_usize(m.0).as_str()),
        None => String::from_str(""),
    };
    proof {
        reveal_strlit("");
    }
    let r = String::from_str("rep!(").concat(expr2code(&rep.expression).as_str()).concat(
        ", ",
    ).concat(fmt_usize(rep.min.0).as_str()).concat(max_txt.as_str()).concat(")");
    proof {
        assert(r@ =~= g_expr(expr_view(Expression::Repeat(*rep))));
    }
    r
}

/// The generated text of one template item.
fn t2item2code(it: &ReplItem) -> (r: String)
    ensures
        r@ == g_item(it@),
{
    let r = match it {
        ReplItem::Text(t) => String::from_str("t2_text!(\"").concat(t.as_str()).concat("\"), "),
        ReplItem::ByPos(p) => String::from_str("t2_bypos!(\"").concat(
            fmt_usize(*p).as_str(),
        ).concat("\"), "),
        ReplItem::ByName(n) => String::from_str("t2_byname!(\"").concat(n.as_str()).concat(
            "\"), ",
        ),
        ReplItem::ByNameOpt(n) => String::from_str("t2_byname_opt!(\"").concat(n.as_str()).concat(
            "\"), ",
        ),
        ReplItem::Function(n) => String::from_str("t2_funct!(\"").concat(n.as_str()).concat(
            "\"), ",
        ),
    };
    proof {
        assert(r@ =~= g_item(it@));
    }
    r
}

/// Relies on idata's `IString::iappend` for `String`: appends the text,
/// character by character, and returns the string.
#[verifier::external_body]
fn istring_append(s: String, txt: &str) -> (r: String)
    ensures
        r@ == s@ + txt@,
{
    idata::IString::iappend(s, txt)
}

/// The generated text of a template: its items in order.
pub fn transf2templ2code(t: &ReplTemplate) -> (r: String)
    ensures
        r@ == g_items(template_view(*t)),
{
    let mut out = String::from_str("");
    let ghost all = template_view(*t);
    proof {
        reveal_strlit("");
        assert(all.len() == t.0@.len());
        assert(all.subrange(0, all.len() as int) =~= all);
        assert(out@ + g_items(all) =~= g_items(all));
    }
    let mut i: usize = 0;
    while i < t.0.len()
        invariant
            i <= t.0@.len(),
            all == template_view(*t),
            all.len() == t.0@.len(),
            forall|k: int| 0 <= k < all.len() ==> all[k] == t.0@[k]@,
            g_items(all) =~= out@ + g_items(all.subrange(i as int, all.len() as int)),
        decreases t.0@.len() - i,
    {
        let piece = t2item2code(&t.0[i]);
        proof {
            let rest = all.subrange(i as int, all.len() as int);
            assert(rest[0] == all[i as int]);
            assert(rest.subrange(1, rest.len() as int) =~= all.subrange(
                i + 1 as int,
                all.len() as int,
            ));
            assert(g_items(rest) =~= piece@ + g_items(
                all.subrange(i + 1 as int, all.len() as int),
            ));
        }
        out = istring_append(out, piece.as_str());
        i += 1;
    }
    proof {
        assert(all.subrange(all.len() as int, all.len() as int) =~= Seq::<ReplItemV>::empty());
        assert(g_items(all) =~= out@);
    }
    out
}

/// The generated text of a template-attached sequence.
pub fn transf2code(expr: &MultiExpr, t2: &ReplTemplate) -> (r: String)
    ensures
        r@ == "transf2!( and!( "@ + g_mexpr(exprs_view(expr.0@)) + " ) , t2rules!("@ + g_items(
            template_view(*t2),
        ) + ") )"@,
    decreases expr, 4int,
{
    let r = String::from_str("transf2!( and!( ").concat(mexpr2code(expr).as_str()).concat(
        " ) , t2rules!(",
    ).concat(transf2templ2code(t2).as_str()).concat(") )");
    proof {
        assert(r@ =~= "transf2!( and!( "@ + g_mexpr(exprs_view(expr.0@)) + " ) , t2rules!("@
            + g_items(template_view(*t2)) + ") )"@);
    }
    r
}

/// The generated text of a named capture or template-attached sequence.
pub fn metaexpr2code(me: &MetaExpr) -> (r: String)
    ensures
        r@ == g_expr(expr_view(Expression::MetaExpr(*me))),
    decreases me, 5int,
{
    match me {
        MetaExpr::Named(ne) => {
            let r = String::from_str("named!(\"").concat(ne.name.as_str()).concat("\", ").concat(
                expr2code(&ne.expr).as_str(),
            ).concat(")");
            proof {
                assert(r@ =~= g_expr(expr_view(Expression::MetaExpr(*me))));
            }
            r
        },
        MetaExpr::Transf2(te) => {
            let r = transf2code(&te.mexpr, &te.transf2_rules);
            proof {
                assert(r@ =~= g_expr(expr_view(Expression::MetaExpr(*me))));
            }
            r
        },
    }
}

/// The generated text of an expression: nested constructor calls.
pub fn expr2code(expr: &Expression) -> (r: String)
    ensures
        r@ == g_expr(expr@),
    decreases expr, 6int,
{
    let r = match expr {
        Expression::Simple(atom) => atom2code(atom),
        Expression::And(me) => String::from_str("and!(").concat(mexpr2code(me).as_str()).concat(
            ")",
        ),
        Expression::Or(me) => String::from_str("or!(").concat(mexpr2code(me).as_str()).concat(")"),
        Expression::Not(e) => String::from_str("not!(").concat(expr2code(e).as_str()).concat(")"),
        Expression::Peek(e) => String::from_str("peek!(").concat(expr2code(e).as_str()).concat(
            ")",
        ),
        Expression::Repeat(rep) => repeat2code(rep),
        Expression::RuleName(rname) => String::from_str("ref_rule!(r#\"").concat(
            rname.as_str(),
        ).concat("\"#)"),
        Expression::MetaExpr(me) => metaexpr2code(me),
    };
    proof {
        assert(r@ =~= g_expr(expr@));
    }
    r
}

/// The generated text of a list of expressions, comma separated.
pub fn mexpr2code(mexpr: &MultiExpr) -> (r: String)
    ensures
        r@ == g_mexpr(exprs_view(mexpr.0@)),
    decreases mexpr, 3int,
{
    let mut out = String::from_str("");
    let ghost all = exprs_view(mexpr.0@);
    proof {
        reveal_strlit("");
        lemma_exprs_view(mexpr.0@);
        assert(all.subrange(0, all.len() as int) =~= all);
        assert(out@ + g_mexpr(all) =~= g_mexpr(all));
    }
    let mut i: usize = 0;
    while i < mexpr.0.len()
        invariant
            i <= mexpr.0@.len(),
            all == exprs_view(mexpr.0@),
            all.len() == mexpr.0@.len(),
            forall|k: int| 0 <= k < all.len() ==> all[k] == expr_view(mexpr.0@[k]),
            i == 0 ==> out@ == Seq::<char>::empty(),
            i > 0 ==> g_mexpr(all) =~= out@ + g_mexpr_tail(
                all.subrange(i as int, all.len() as int),
            ),
        decreases mexpr.0@.len() - i,
    {
        let sep: &str = if i == 0 {
            ""
        } else {
            ", "
        };
        let piece = expr2code(&mexpr.0[i]);
        let out2 = out.concat(sep).concat(piece.as_str());
        proof {
            reveal_strlit("");
            let rest = all.subrange(i as int, all.len() as int);
            let rest2 = all.subrange(i + 1 as int, all.len() as int);
            assert(rest[0] == all[i as int]);
            assert(rest.subrange(1, rest.len() as int) =~= rest2);
            if i == 0 {
                assert(g_mexpr(all.subrange(0, all.len() as int)) == g_mexpr(all));
                assert(all.subrange(0, all.len() as int) =~= all);
                assert(g_mexpr(all) =~= out2@ + g_mexpr_tail(rest2));
            } else {
                assert(g_mexpr_tail(rest) =~= ", "@ + piece@ + g_mexpr_tail(rest2));
                assert(g_mexpr(all) =~= out2@ + g_mexpr_tail(rest2));
            }
        }
        out = out2;
        i += 1;
    }
    proof {
        if all.len() > 0 {
            assert(all.subrange(all.len() as int, all.len() as int) =~= Seq::<ExprV>::empty());
            assert(g_mexpr(all) =~= out@);
        } else {
            assert(g_mexpr(all) =~= out@);
        }
    }
    out
}

/// The generated text of one rule entry.
pub fn rule2code(name: &str, ri: &RuleInfo) -> (r: String)
    ensures
        r@ == g_rule(name@, ri@),
{
    let descr_txt: String = match &ri.descr {
        Some(d) => String::from_str("Some(").concat(d.as_str()).concat(")"),
        None => String::from_str("None"),
    };
    let r = String::from_str("r#\"").concat(name).concat("\"# => RuleInfo{ expr:").concat(
        expr2code(&ri.expr).as_str(),
    ).concat(", descr:").concat(descr_txt.as_str()).concat(" }");
    proof {
        assert(r@ =~= g_rule(name@, ri@));
    }
    r
}

/// The generated text of a whole rule set, one entry per rule, the rules in
/// an unspecified order.
pub fn rust_from_rules(rules: &SetOfRules) -> (r: String)
    ensures
        exists|es: Seq<(String, RuleInfo)>|
            {
                &&& r@ == g_entries(es)
                &&& forall|i: int|
                    0 <= i < es.len() ==> rules@.contains_key((#[trigger] es[i]).0@) && rules@[
                        es[i].0@
                    ] == es[i].1@
                &&& forall|k: Seq<char>|
                    #[trigger] rules@.contains_key(k) ==> exists|i: int|
                        0 <= i < es.len() && (#[trigger] es[i]).0@ == k
                &&& forall|i: int, j: int| 0 <= i < j < es.len() ==> es[i].0@ != es[j].0@
            },
{
    let entries = rules.entries();
    let ghost all = entries@;
    let mut out = String::from_str("");
    proof {
        reveal_strlit("");
        assert(all.subrange(0, 0) =~= Seq::<(String, RuleInfo)>::empty());
        assert(out@ =~= g_entries(all.subrange(0, 0)));
    }
    let mut i: usize = 0;
    while i < entries.len()
        invariant
            i <= all.len(),
            all == entries@,
            forall|k: int|
                0 <= k < all.len() ==> rules@.contains_key((#[trigger] all[k]).0@) && rules@[
                    all[k].0@
                ] == all[k].1@,
            out@ == g_entries(all.subrange(0, i as int)),
        decreases all.len() - i,
    {
        let lead: &str = if i == 0 {
            "  "
        } else {
            ", "
        };
        let (name, ri) = &entries[i];
        let piece = rule2code(name.as_str(), ri);
        let out2 = out.concat("\n       ").concat(lead).concat(piece.as_str());
        proof {
            reveal_strlit("  ");
            reveal_strlit(", ");
            let done = all.subrange(0, i + 1 as int);
            assert(done.subrange(0, done.len() - 1) =~= all.subrange(0, i as int));
            assert(done[done.len() - 1] == all[i as int]);
            assert(out2@ =~= g_entries(done));
        }
        out = out2;
        i += 1;
    }
    proof {
        assert(all.subrange(0, all.len() as int) =~= all);
        assert(forall|k: Seq<char>|
            #[trigger] rules@.contains_key(k) ==> exists|i: int|
                0 <= i < all.len() && (#[trigger] all[i]).0@ == k);
    }
    out
}

} // verus!
