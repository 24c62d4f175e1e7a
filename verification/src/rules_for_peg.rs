//! The rule set that parses the grammar-description notation itself.
//!
//! The notation: one rule per line, `name = expression`; ordered choice
//! with `/`; grouping with parentheses; single-quoted literals; character
//! classes `[a-z0-9_]` of ranges and single characters; `.` for any
//! character; the postfix quantifiers `+`, `*` and `?`; negative and
//! positive lookahead `!e` and `&e`; named captures `name:e`; explicit
//! failure directives `expected('message')`; and a rewrite template
//! attached to a sequence with `->`, holding verbatim text and the
//! references `$(name)`, `$(name?)`, `$(0)` and `$(:hook)`. The templates
//! attached to these rules render a parsed grammar as the intermediate
//! command stream, which the bootstrap decoder turns back into native
//! rules: the language describing grammars is parsed and rendered by the
//! engine it configures.

use vstd::prelude::*;
use crate::parser::atom::{Atom, AtomV, MatchRules};
use crate::parser::expression::{
    exprs_view, lemma_exprs_view, Expression, ExprV, MetaExpr, MultiExpr, NRep, NamedExpr,
    RepInfo, ReplItem, ReplItemV, ReplTemplate, RuleInfo, RuleInfoV, SetOfRules, Transf2Expr,
};

verus! {

/// A literal-string expression.
fn lit(s: &str) -> (r: Expression)
    ensures
        r@ == ExprV::Simple(AtomV::Literal(s@)),
{
    Expression::Simple(Atom::Literal(String::from_str(s)))
}

/// A reference to a rule by name.
fn rref(s: &str) -> (r: Expression)
    ensures
        r@ == ExprV::RuleName(s@),
{
    Expression::RuleName(String::from_str(s))
}

/// A one-character matcher over a set and inclusive ranges.
fn mtch(chars: &str, bounds: Vec<(char, char)>) -> (r: Expression)
    ensures
        r@ == ExprV::Simple(AtomV::Match(chars@, bounds@)),
{
    Expression::Simple(Atom::Match(MatchRules::init(chars, bounds)))
}

/// A repetition of `e`, `min` times or more.
fn rep_min(e: Expression, min: usize) -> (r: Expression)
    ensures
        r@ == ExprV::Repeat(Box::new(e@), min as int, Option::None),
{
    Expression::Repeat(RepInfo { expression: Box::new(e), min: NRep(min), max: None })
}

/// An ordered choice.
fn alt(es: Vec<Expression>) -> (r: Expression)
    ensures
        r@ == ExprV::Or(exprs_view(es@)),
{
    Expression::Or(MultiExpr(es))
}

/// A sequence with an attached rewrite template.
fn transf(es: Vec<Expression>, items: Vec<ReplItem>) -> (r: Expression)
    ensures
        r@ == ExprV::Transf2(exprs_view(es@), ReplTemplate(items)@),
{
    Expression::MetaExpr(
        MetaExpr::Transf2(
            Transf2Expr { mexpr: MultiExpr(es), transf2_rules: ReplTemplate(items) },
        ),
    )
}

/// A verbatim template item.
fn tx(s: &str) -> (r: ReplItem)
    ensures
        r@ == ReplItemV::Text(s@),
{
    ReplItem::Text(String::from_str(s))
}

/// The newline function hook: kept as a hook, not as literal text, so the
/// templates survive the line-framed command stream.
fn endl() -> (r: ReplItem)
    ensures
        r@ == ReplItemV::Function("endl"@),
{
    ReplItem::Function(String::from_str("endl"))
}

/// A rule without a description.
fn rule(e: Expression) -> (r: RuleInfo)
    ensures
        r@ == (RuleInfoV { expr: e@, descr: Option::None }),
{
    RuleInfo { expr: e, descr: None }
}

/// A literal-string expression, at the model level.
pub open spec fn s_lit(s: Seq<char>) -> ExprV {
    ExprV::Simple(crate::parser::atom::AtomV::Literal(s))
}

/// A rule reference, at the model level.
pub open spec fn s_ref(s: Seq<char>) -> ExprV {
    ExprV::RuleName(s)
}

/// A one-character matcher, at the model level.
pub open spec fn s_mtch(chars: Seq<char>, bounds: Seq<(char, char)>) -> ExprV {
    ExprV::Simple(crate::parser::atom::AtomV::Match(chars, bounds))
}

/// An unbounded repetition, at the model level.
pub open spec fn s_rep(e: ExprV, min: int) -> ExprV {
    ExprV::Repeat(Box::new(e), min, Option::None)
}

/// A template-attached sequence, at the model level.
pub open spec fn s_transf(es: Seq<ExprV>, items: Seq<ReplItemV>) -> ExprV {
    ExprV::Transf2(es, items)
}

/// A verbatim template item, at the model level.
pub open spec fn s_tx(s: Seq<char>) -> ReplItemV {
    ReplItemV::Text(s)
}

/// The newline hook item, at the model level.
pub open spec fn s_endl() -> ReplItemV {
    ReplItemV::Function("endl"@)
}

/// A rule without a description, at the model level.
pub open spec fn s_rule(e: ExprV) -> RuleInfoV {
    RuleInfoV { expr: e, descr: Option::None }
}

/// The body of the start rule: leading whitespace, the rules, then the
/// end-of-program command.
pub open spec fn main_v() -> ExprV {
    s_transf(
        seq![s_ref("__"@), s_rep(s_ref("rule"@), 1)],
        seq![ReplItemV::ByPos(1), s_tx("EOP"@)],
    )
}

/// The body of `rule`: a name, `=`, the alternatives, then trailing
/// whitespace; rendered as the rule command and an empty description.
pub open spec fn rule_v() -> ExprV {
    s_transf(
        seq![
            s_ref("name"@),
            s_ref("_"@),
            s_lit("="@),
            s_ref("_"@),
            s_ref("or"@),
            s_ref("__"@),
        ],
        seq![
            s_tx("RULE"@),
            s_endl(),
            ReplItemV::ByPos(0),
            s_endl(),
            s_tx("DESCR"@),
            s_endl(),
            s_endl(),
            ReplItemV::ByPos(4),
        ],
    )
}

/// The body of `or`: alternatives separated by `/`.
pub open spec fn or_v() -> ExprV {
    s_transf(
        seq![
            s_ref("and"@),
            s_rep(
                s_transf(
                    seq![s_ref("_"@), s_lit("/"@), s_ref("_"@), s_ref("and"@)],
                    seq![ReplItemV::ByPos(3)],
                ),
                0,
            ),
        ],
        seq![
            s_tx("OR"@),
            s_endl(),
            ReplItemV::ByPos(0),
            ReplItemV::ByPos(1),
            s_tx("CLOSE_MEXPR"@),
            s_endl(),
        ],
    )
}

/// One further term of a sequence, separated by inline whitespace.
pub open spec fn and_tail_v() -> ExprV {
    s_transf(seq![s_ref("_"@), s_ref("term"@)], seq![ReplItemV::ByPos(1)])
}

/// A sequence without a template.
pub open spec fn and_plain_v() -> ExprV {
    s_transf(
        seq![s_ref("term"@), s_rep(and_tail_v(), 0)],
        seq![
            s_tx("AND"@),
            s_endl(),
            ReplItemV::ByPos(0),
            ReplItemV::ByPos(1),
            s_tx("CLOSE_MEXPR"@),
            s_endl(),
        ],
    )
}

/// A sequence with a `->` template attached.
pub open spec fn and_templ_v() -> ExprV {
    s_transf(
        seq![
            s_ref("term"@),
            s_rep(and_tail_v(), 0),
            s_ref("_"@),
            s_lit("->"@),
            s_ref("_"@),
            s_rep(titem_v(), 0),
        ],
        seq![
            s_tx("TRANSF2"@),
            s_endl(),
            ReplItemV::ByPos(5),
            s_tx("EOTRANSF2"@),
            s_endl(),
            s_tx("AND"@),
            s_endl(),
            ReplItemV::ByPos(0),
            ReplItemV::ByPos(1),
            s_tx("CLOSE_MEXPR"@),
            s_endl(),
        ],
    )
}

/// The body of `and`: a sequence with or without a template.
pub open spec fn and_v() -> ExprV {
    ExprV::Or(seq![and_templ_v(), and_plain_v()])
}

/// One template item: a hook, a position, an optional or plain name, or
/// one verbatim character.
pub open spec fn titem_v() -> ExprV {
    ExprV::Or(
        seq![
            s_transf(
                seq![s_lit("$(:"@), s_ref("name"@), s_lit(")"@)],
                seq![s_tx("FUNCT"@), s_endl(), ReplItemV::ByPos(1), s_endl()],
            ),
            s_transf(
                seq![s_lit("$("@), s_ref("digits"@), s_lit(")"@)],
                seq![s_tx("POS"@), s_endl(), ReplItemV::ByPos(1), s_endl()],
            ),
            s_transf(
                seq![s_lit("$("@), s_ref("name"@), s_lit("?)"@)],
                seq![s_tx("NAMED_OPT"@), s_endl(), ReplItemV::ByPos(1), s_endl()],
            ),
            s_transf(
                seq![s_lit("$("@), s_ref("name"@), s_lit(")"@)],
                seq![s_tx("NAMED"@), s_endl(), ReplItemV::ByPos(1), s_endl()],
            ),
            s_transf(
                seq![s_mtch(Seq::empty(), seq![(' ', '#'), ('%', '.'), ('0', '~')])],
                seq![s_tx("TEXT"@), s_endl(), ReplItemV::ByPos(0), s_endl()],
            ),
        ],
    )
}

/// One character-class item: a range or a single character, rendered as
/// a bound pair.
pub open spec fn citem_v() -> ExprV {
    ExprV::Or(
        seq![
            s_transf(
                seq![
                    s_mtch(Seq::empty(), seq![(' ', '\\'), ('^', '~')]),
                    s_lit("-"@),
                    s_mtch(Seq::empty(), seq![(' ', '\\'), ('^', '~')]),
                ],
                seq![ReplItemV::ByPos(0), s_endl(), ReplItemV::ByPos(2), s_endl()],
            ),
            s_transf(
                seq![s_mtch(Seq::empty(), seq![(' ', '\\'), ('^', '~')])],
                seq![ReplItemV::ByPos(0), s_endl(), ReplItemV::ByPos(0), s_endl()],
            ),
        ],
    )
}

/// The body of `term`: a factor with an optional postfix quantifier.
pub open spec fn term_v() -> ExprV {
    ExprV::Or(
        seq![
            s_transf(
                seq![s_ref("factor"@), s_lit("+"@)],
                seq![
                    s_tx("REPEAT"@),
                    s_endl(),
                    s_tx("1"@),
                    s_endl(),
                    s_tx("inf"@),
                    s_endl(),
                    ReplItemV::ByPos(0),
                ],
            ),
            s_transf(
                seq![s_ref("factor"@), s_lit("*"@)],
                seq![
                    s_tx("REPEAT"@),
                    s_endl(),
                    s_tx("0"@),
                    s_endl(),
                    s_tx("inf"@),
                    s_endl(),
                    ReplItemV::ByPos(0),
                ],
            ),
            s_transf(
                seq![s_ref("factor"@), s_lit("?"@)],
                seq![
                    s_tx("REPEAT"@),
                    s_endl(),
                    s_tx("0"@),
                    s_endl(),
                    s_tx("1"@),
                    s_endl(),
                    ReplItemV::ByPos(0),
                ],
            ),
            s_ref("factor"@),
        ],
    )
}

/// The body of `factor`: a literal, a character class, a group, the
/// any-character dot, a lookahead, a failure directive, a named capture
/// or a rule reference.
pub open spec fn factor_v() -> ExprV {
    ExprV::Or(
        seq![
            s_ref("literal"@),
            s_transf(
                seq![s_lit("["@), s_rep(citem_v(), 1), s_lit("]"@)],
                seq![
                    s_tx("MATCH"@),
                    s_endl(),
                    s_tx("BETW"@),
                    s_endl(),
                    ReplItemV::ByPos(1),
                    s_tx("EOBETW"@),
                    s_endl(),
                ],
            ),
            s_ref("group"@),
            s_ref("dot"@),
            s_transf(
                seq![s_lit("!"@), s_ref("factor"@)],
                seq![s_tx("NEGATE"@), s_endl(), ReplItemV::ByPos(1)],
            ),
            s_transf(
                seq![s_lit("&"@), s_ref("factor"@)],
                seq![s_tx("PEEK"@), s_endl(), ReplItemV::ByPos(1)],
            ),
            s_transf(
                seq![
                    s_lit("expected('"@),
                    s_rep(s_mtch(Seq::empty(), seq![(' ', '&'), ('(', '~')]), 0),
                    s_lit("')"@),
                ],
                seq![s_tx("EXPECTED"@), s_endl(), ReplItemV::ByPos(1), s_endl()],
            ),
            s_transf(
                seq![s_ref("name"@), s_lit(":"@), s_ref("factor"@)],
                seq![s_tx("NAMED"@), s_endl(), ReplItemV::ByPos(0), s_endl(), ReplItemV::ByPos(2)],
            ),
            s_ref("ruleref"@),
        ],
    )
}

/// The body of `literal`: single-quoted text.
pub open spec fn literal_v() -> ExprV {
    s_transf(
        seq![
            s_lit("'"@),
            ExprV::Named(
                "t"@,
                Box::new(s_rep(s_mtch(Seq::empty(), seq![(' ', '&'), ('(', '~')]), 0)),
            ),
            s_lit("'"@),
        ],
        seq![
            s_tx("ATOM"@),
            s_endl(),
            s_tx("LIT"@),
            s_endl(),
            ReplItemV::ByName("t"@),
            s_endl(),
        ],
    )
}

/// The body of `group`: a parenthesised choice.
pub open spec fn group_v() -> ExprV {
    s_transf(
        seq![s_lit("("@), s_ref("_"@), s_ref("or"@), s_ref("_"@), s_lit(")"@)],
        seq![ReplItemV::ByPos(2)],
    )
}

/// The body of `dot`: the any-character atom.
pub open spec fn dot_v() -> ExprV {
    s_transf(
        seq![s_lit("."@)],
        seq![s_tx("ATOM"@), s_endl(), s_tx("DOT"@), s_endl()],
    )
}

/// The body of `ruleref`: a bare name.
pub open spec fn ruleref_v() -> ExprV {
    s_transf(
        seq![s_ref("name"@)],
        seq![
            s_tx("ATOM"@),
            s_endl(),
            s_tx("RULREF"@),
            s_endl(),
            ReplItemV::ByPos(0),
            s_endl(),
        ],
    )
}

/// The body of `name`: lower-case letters, digits and underscores.
pub open spec fn name_v() -> ExprV {
    s_rep(s_mtch("_"@, seq![('a', 'z'), ('0', '9')]), 1)
}

/// The body of `digits`: decimal digits.
pub open spec fn digits_v() -> ExprV {
    s_rep(s_mtch(Seq::empty(), seq![('0', '9')]), 1)
}

/// The body of `_`: inline whitespace, rendering as nothing.
pub open spec fn inline_ws_v() -> ExprV {
    s_transf(seq![s_rep(s_mtch(" \t"@, Seq::empty()), 0)], Seq::empty())
}

/// The body of `__`: any whitespace, rendering as nothing.
pub open spec fn any_ws_v() -> ExprV {
    s_transf(seq![s_rep(s_mtch(" \t\r\n"@, Seq::empty()), 0)], Seq::empty())
}

/// The whole grammar-description rule set, at the model level.
pub open spec fn meta_rules() -> Map<Seq<char>, RuleInfoV> {
    Map::empty().insert("main"@, s_rule(main_v())).insert("rule"@, s_rule(rule_v())).insert(
        "or"@,
        s_rule(or_v()),
    ).insert("and"@, s_rule(and_v())).insert("term"@, s_rule(term_v())).insert(
        "factor"@,
        s_rule(factor_v()),
    ).insert("literal"@, s_rule(literal_v())).insert("group"@, s_rule(group_v())).insert(
        "dot"@,
        s_rule(dot_v()),
    ).insert("ruleref"@, s_rule(ruleref_v())).insert("name"@, s_rule(name_v())).insert(
        "digits"@,
        s_rule(digits_v()),
    ).insert("_"@, s_rule(inline_ws_v())).insert("__"@, s_rule(any_ws_v()))
}

/// The character bounds of a class character: printable, except the
/// closing bracket.
fn cchar_bounds() -> (r: Vec<(char, char)>)
    ensures
        r@ == seq![(' ', '\\'), ('^', '~')],
{
    let v: Vec<(char, char)> = vec![(' ', '\\'), ('^', '~')];
    proof {
        assert(v@ =~= seq![(' ', '\\'), ('^', '~')]);
    }
    v
}

/// A class character matcher.
fn cchar() -> (r: Expression)
    ensures
        r@ == s_mtch(Seq::empty(), seq![(' ', '\\'), ('^', '~')]),
{
    let r = mtch("", cchar_bounds());
    proof {
        reveal_strlit("");
        assert(""@ =~= Seq::<char>::empty());
    }
    r
}

/// A quoted-text character matcher: printable, except the quote.
fn lchar() -> (r: Expression)
    ensures
        r@ == s_mtch(Seq::empty(), seq![(' ', '&'), ('(', '~')]),
{
    let v: Vec<(char, char)> = vec![(' ', '&'), ('(', '~')];
    proof {
        assert(v@ =~= seq![(' ', '&'), ('(', '~')]);
    }
    let r = mtch("", v);
    proof {
        reveal_strlit("");
        assert(""@ =~= Seq::<char>::empty());
    }
    r
}

/// The grammar-description grammar: its rules are exactly the modelled
/// meta rules, and its templates render a parsed grammar as the
/// intermediate command stream.
pub fn rules() -> (r: SetOfRules)
    ensures
        r@ =~= meta_rules(),
{
    let main_rule = build_main();
    let rule_rule = build_rule();
    let or_rule = build_or();
    let and_rule = build_and();
    let term_rule = build_term();
    let factor_rule = build_factor();
    let literal_rule = build_literal();
    let group_rule = build_group();
    let dot_rule = build_dot();
    let ruleref_rule = build_ruleref();
    let name_rule = build_name();
    let digits_rule = build_digits();
    let inline_ws = build_inline_ws();
    let any_ws = build_any_ws();

    SetOfRules::empty().add("main", rule(main_rule)).add("rule", rule(rule_rule)).add(
        "or",
        rule(or_rule),
    ).add("and", rule(and_rule)).add("term", rule(term_rule)).add("factor", rule(factor_rule)).add(
        "literal",
        rule(literal_rule),
    ).add("group", rule(group_rule)).add("dot", rule(dot_rule)).add(
        "ruleref",
        rule(ruleref_rule),
    ).add("name", rule(name_rule)).add("digits", rule(digits_rule)).add(
        "_",
        rule(inline_ws),
    ).add("__", rule(any_ws))
}

/// Builds the start rule.
fn build_main() -> (r: Expression)
    ensures
        r@ == main_v(),
{
    let es: Vec<Expression> = vec![rref("__"), rep_min(rref("rule"), 1)];
    proof {
        lemma_exprs_view(es@);
        assert(exprs_view(es@) =~~= seq![s_ref("__"@), s_rep(s_ref("rule"@), 1)]);
    }
    let items: Vec<ReplItem> = vec![ReplItem::ByPos(1), tx("EOP")];
    proof {
        assert(ReplTemplate(items)@ =~~= seq![ReplItemV::ByPos(1), s_tx("EOP"@)]);
    }
    let r = transf(es, items);
    proof {
        assert(r@ =~~= main_v());
    }
    r
}

/// Builds the rule-definition rule.
fn build_rule() -> (r: Expression)
    ensures
        r@ == rule_v(),
{
    let es: Vec<Expression> = vec![
        rref("name"),
        rref("_"),
        lit("="),
        rref("_"),
        rref("or"),
        rref("__"),
    ];
    proof {
        lemma_exprs_view(es@);
        assert(exprs_view(es@) =~~= seq![
            s_ref("name"@),
            s_ref("_"@),
            s_lit("="@),
            s_ref("_"@),
            s_ref("or"@),
            s_ref("__"@),
        ]);
    }
    let items: Vec<ReplItem> = vec![
        tx("RULE"),
        endl(),
        ReplItem::ByPos(0),
        endl(),
        tx("DESCR"),
        endl(),
        endl(),
        ReplItem::ByPos(4),
    ];
    proof {
        assert(ReplTemplate(items)@ =~~= seq![
            s_tx("RULE"@),
            s_endl(),
            ReplItemV::ByPos(0),
            s_endl(),
            s_tx("DESCR"@),
            s_endl(),
            s_endl(),
            ReplItemV::ByPos(4),
        ]);
    }
    let r = transf(es, items);
    proof {
        assert(r@ =~~= rule_v());
    }
    r
}

/// Builds the ordered-choice rule.
fn build_or() -> (r: Expression)
    ensures
        r@ == or_v(),
{
    let tail_es: Vec<Expression> = vec![rref("_"), lit("/"), rref("_"), rref("and")];
    proof {
        lemma_exprs_view(tail_es@);
        assert(exprs_view(tail_es@) =~~= seq![s_ref("_"@), s_lit("/"@), s_ref("_"@), s_ref("and"@)]);
    }
    let tail_items: Vec<ReplItem> = vec![ReplItem::ByPos(3)];
    proof {
        assert(ReplTemplate(tail_items)@ =~~= seq![ReplItemV::ByPos(3)]);
    }
    let or_tail = transf(tail_es, tail_items);
    let es: Vec<Expression> = vec![rref("and"), rep_min(or_tail, 0)];
    proof {
        lemma_exprs_view(es@);
        assert(exprs_view(es@) =~~= seq![
            s_ref("and"@),
            s_rep(
                s_transf(
                    seq![s_ref("_"@), s_lit("/"@), s_ref("_"@), s_ref("and"@)],
                    seq![ReplItemV::ByPos(3)],
                ),
                0,
            ),
        ]);
    }
    let items: Vec<ReplItem> = vec![
        tx("OR"),
        endl(),
        ReplItem::ByPos(0),
        ReplItem::ByPos(1),
        tx("CLOSE_MEXPR"),
        endl(),
    ];
    proof {
        assert(ReplTemplate(items)@ =~~= seq![
            s_tx("OR"@),
            s_endl(),
            ReplItemV::ByPos(0),
            ReplItemV::ByPos(1),
            s_tx("CLOSE_MEXPR"@),
            s_endl(),
        ]);
    }
    let r = transf(es, items);
    proof {
        assert(r@ =~~= or_v());
    }
    r
}

/// Builds the further-term piece of a sequence.
fn build_and_tail() -> (r: Expression)
    ensures
        r@ == and_tail_v(),
{
    let es: Vec<Expression> = vec![rref("_"), rref("term")];
    proof {
        lemma_exprs_view(es@);
        assert(exprs_view(es@) =~~= seq![s_ref("_"@), s_ref("term"@)]);
    }
    let items: Vec<ReplItem> = vec![ReplItem::ByPos(1)];
    proof {
        assert(ReplTemplate(items)@ =~~= seq![ReplItemV::ByPos(1)]);
    }
    let r = transf(es, items);
    proof {
        assert(r@ =~~= and_tail_v());
    }
    r
}

/// Builds one template-item alternative of the notation.
fn build_titem() -> (r: Expression)
    ensures
        r@ == titem_v(),
{
    let f_es: Vec<Expression> = vec![lit("$(:"), rref("name"), lit(")")];
    let f_items: Vec<ReplItem> = vec![tx("FUNCT"), endl(), ReplItem::ByPos(1), endl()];
    proof {
        lemma_exprs_view(f_es@);
        assert(exprs_view(f_es@) =~~= seq![s_lit("$(:"@), s_ref("name"@), s_lit(")"@)]);
        assert(ReplTemplate(f_items)@ =~~= seq![
            s_tx("FUNCT"@),
            s_endl(),
            ReplItemV::ByPos(1),
            s_endl(),
        ]);
    }
    let t_funct = transf(f_es, f_items);

    let p_es: Vec<Expression> = vec![lit("$("), rref("digits"), lit(")")];
    let p_items: Vec<ReplItem> = vec![tx("POS"), endl(), ReplItem::ByPos(1), endl()];
    proof {
        lemma_exprs_view(p_es@);
        assert(exprs_view(p_es@) =~~= seq![s_lit("$("@), s_ref("digits"@), s_lit(")"@)]);
        assert(ReplTemplate(p_items)@ =~~= seq![
            s_tx("POS"@),
            s_endl(),
            ReplItemV::ByPos(1),
            s_endl(),
        ]);
    }
    let t_pos = transf(p_es, p_items);

    let o_es: Vec<Expression> = vec![lit("$("), rref("name"), lit("?)")];
    let o_items: Vec<ReplItem> = vec![tx("NAMED_OPT"), endl(), ReplItem::ByPos(1), endl()];
    proof {
        lemma_exprs_view(o_es@);
        assert(exprs_view(o_es@) =~~= seq![s_lit("$("@), s_ref("name"@), s_lit("?)"@)]);
        assert(ReplTemplate(o_items)@ =~~= seq![
            s_tx("NAMED_OPT"@),
            s_endl(),
            ReplItemV::ByPos(1),
            s_endl(),
        ]);
    }
    let t_nameopt = transf(o_es, o_items);

    let n_es: Vec<Expression> = vec![lit("$("), rref("name"), lit(")")];
    let n_items: Vec<ReplItem> = vec![tx("NAMED"), endl(), ReplItem::ByPos(1), endl()];
    proof {
        lemma_exprs_view(n_es@);
        assert(exprs_view(n_es@) =~~= seq![s_lit("$("@), s_ref("name"@), s_lit(")"@)]);
        assert(ReplTemplate(n_items)@ =~~= seq![
            s_tx("NAMED"@),
            s_endl(),
            ReplItemV::ByPos(1),
            s_endl(),
        ]);
    }
    let t_name = transf(n_es, n_items);

    let tchar_bounds: Vec<(char, char)> = vec![(' ', '#'), ('%', '.'), ('0', '~')];
    proof {
        assert(tchar_bounds@ =~= seq![(' ', '#'), ('%', '.'), ('0', '~')]);
    }
    let tchar = mtch("", tchar_bounds);
    proof {
        reveal_strlit("");
        assert(""@ =~= Seq::<char>::empty());
    }
    let x_es: Vec<Expression> = vec![tchar];
    let x_items: Vec<ReplItem> = vec![tx("TEXT"), endl(), ReplItem::ByPos(0), endl()];
    proof {
        lemma_exprs_view(x_es@);
        assert(exprs_view(x_es@) =~~= seq![
            s_mtch(Seq::empty(), seq![(' ', '#'), ('%', '.'), ('0', '~')]),
        ]);
        assert(ReplTemplate(x_items)@ =~~= seq![
            s_tx("TEXT"@),
            s_endl(),
            ReplItemV::ByPos(0),
            s_endl(),
        ]);
    }
    let t_text = transf(x_es, x_items);

    let alts: Vec<Expression> = vec![t_funct, t_pos, t_nameopt, t_name, t_text];
    proof {
        lemma_exprs_view(alts@);
        assert(exprs_view(alts@) =~= titem_v()->Or_0);
    }
    let r = alt(alts);
    proof {
        assert(r@ == titem_v());
    }
    r
}

/// Builds the sequence rule: with or without an attached template.
fn build_and() -> (r: Expression)
    ensures
        r@ == and_v(),
{
    let plain_es: Vec<Expression> = vec![rref("term"), rep_min(build_and_tail(), 0)];
    let plain_items: Vec<ReplItem> = vec![
        tx("AND"),
        endl(),
        ReplItem::ByPos(0),
        ReplItem::ByPos(1),
        tx("CLOSE_MEXPR"),
        endl(),
    ];
    proof {
        lemma_exprs_view(plain_es@);
        assert(exprs_view(plain_es@) =~~= seq![s_ref("term"@), s_rep(and_tail_v(), 0)]);
        assert(ReplTemplate(plain_items)@ =~~= seq![
            s_tx("AND"@),
            s_endl(),
            ReplItemV::ByPos(0),
            ReplItemV::ByPos(1),
            s_tx("CLOSE_MEXPR"@),
            s_endl(),
        ]);
    }
    let and_plain = transf(plain_es, plain_items);

    let t_es: Vec<Expression> = vec![
        rref("term"),
        rep_min(build_and_tail(), 0),
        rref("_"),
        lit("->"),
        rref("_"),
        rep_min(build_titem(), 0),
    ];
    let t_items: Vec<ReplItem> = vec![
        tx("TRANSF2"),
        endl(),
        ReplItem::ByPos(5),
        tx("EOTRANSF2"),
        endl(),
        tx("AND"),
        endl(),
        ReplItem::ByPos(0),
        ReplItem::ByPos(1),
        tx("CLOSE_MEXPR"),
        endl(),
    ];
    proof {
        lemma_exprs_view(t_es@);
        assert(exprs_view(t_es@) =~~= seq![
            s_ref("term"@),
            s_rep(and_tail_v(), 0),
            s_ref("_"@),
            s_lit("->"@),
            s_ref("_"@),
            s_rep(titem_v(), 0),
        ]);
        assert(ReplTemplate(t_items)@ =~~= seq![
            s_tx("TRANSF2"@),
            s_endl(),
            ReplItemV::ByPos(5),
            s_tx("EOTRANSF2"@),
            s_endl(),
            s_tx("AND"@),
            s_endl(),
            ReplItemV::ByPos(0),
            ReplItemV::ByPos(1),
            s_tx("CLOSE_MEXPR"@),
            s_endl(),
        ]);
    }
    let and_templ = transf(t_es, t_items);

    let alts: Vec<Expression> = vec![and_templ, and_plain];
    proof {
        lemma_exprs_view(alts@);
        assert(exprs_view(alts@) =~= and_v()->Or_0);
    }
    let r = alt(alts);
    proof {
        assert(r@ == and_v());
    }
    r
}

/// Builds the quantified-term rule.
fn build_term() -> (r: Expression)
    ensures
        r@ == term_v(),
{
    let p_es: Vec<Expression> = vec![rref("factor"), lit("+")];
    let p_items: Vec<ReplItem> = vec![
        tx("REPEAT"),
        endl(),
        tx("1"),
        endl(),
        tx("inf"),
        endl(),
        ReplItem::ByPos(0),
    ];
    proof {
        lemma_exprs_view(p_es@);
        assert(exprs_view(p_es@) =~~= seq![s_ref("factor"@), s_lit("+"@)]);
        assert(ReplTemplate(p_items)@ =~~= seq![
            s_tx("REPEAT"@),
            s_endl(),
            s_tx("1"@),
            s_endl(),
            s_tx("inf"@),
            s_endl(),
            ReplItemV::ByPos(0),
        ]);
    }
    let t_plus = transf(p_es, p_items);

    let st_es: Vec<Expression> = vec![rref("factor"), lit("*")];
    let st_items: Vec<ReplItem> = vec![
        tx("REPEAT"),
        endl(),
        tx("0"),
        endl(),
        tx("inf"),
        endl(),
        ReplItem::ByPos(0),
    ];
    proof {
        lemma_exprs_view(st_es@);
        assert(exprs_view(st_es@) =~~= seq![s_ref("factor"@), s_lit("*"@)]);
        assert(ReplTemplate(st_items)@ =~~= seq![
            s_tx("REPEAT"@),
            s_endl(),
            s_tx("0"@),
            s_endl(),
            s_tx("inf"@),
            s_endl(),
            ReplItemV::ByPos(0),
        ]);
    }
    let t_star = transf(st_es, st_items);

    let q_es: Vec<Expression> = vec![rref("factor"), lit("?")];
    let q_items: Vec<ReplItem> = vec![
        tx("REPEAT"),
        endl(),
        tx("0"),
        endl(),
        tx("1"),
        endl(),
        ReplItem::ByPos(0),
    ];
    proof {
        lemma_exprs_view(q_es@);
        assert(exprs_view(q_es@) =~~= seq![s_ref("factor"@), s_lit("?"@)]);
        assert(ReplTemplate(q_items)@ =~~= seq![
            s_tx("REPEAT"@),
            s_endl(),
            s_tx("0"@),
            s_endl(),
            s_tx("1"@),
            s_endl(),
            ReplItemV::ByPos(0),
        ]);
    }
    let t_opt = transf(q_es, q_items);

    let alts: Vec<Expression> = vec![t_plus, t_star, t_opt, rref("factor")];
    proof {
        lemma_exprs_view(alts@);
        assert(exprs_view(alts@) =~= term_v()->Or_0);
    }
    let r = alt(alts);
    proof {
        assert(r@ == term_v());
    }
    r
}

/// Builds the factor rule, with classes, lookahead, failure directives and
/// named captures.
fn build_factor() -> (r: Expression)
    ensures
        r@ == factor_v(),
{
    let range_es: Vec<Expression> = vec![cchar(), lit("-"), cchar()];
    let range_items: Vec<ReplItem> = vec![
        ReplItem::ByPos(0),
        endl(),
        ReplItem::ByPos(2),
        endl(),
    ];
    proof {
        lemma_exprs_view(range_es@);
        assert(exprs_view(range_es@) =~~= seq![
            s_mtch(Seq::empty(), seq![(' ', '\\'), ('^', '~')]),
            s_lit("-"@),
            s_mtch(Seq::empty(), seq![(' ', '\\'), ('^', '~')]),
        ]);
        assert(ReplTemplate(range_items)@ =~~= seq![
            ReplItemV::ByPos(0),
            s_endl(),
            ReplItemV::ByPos(2),
            s_endl(),
        ]);
    }
    let crange = transf(range_es, range_items);

    let single_es: Vec<Expression> = vec![cchar()];
    let single_items: Vec<ReplItem> = vec![
        ReplItem::ByPos(0),
        endl(),
        ReplItem::ByPos(0),
        endl(),
    ];
    proof {
        lemma_exprs_view(single_es@);
        assert(exprs_view(single_es@) =~~= seq![
            s_mtch(Seq::empty(), seq![(' ', '\\'), ('^', '~')]),
        ]);
        assert(ReplTemplate(single_items)@ =~~= seq![
            ReplItemV::ByPos(0),
            s_endl(),
            ReplItemV::ByPos(0),
            s_endl(),
        ]);
    }
    let csingle = transf(single_es, single_items);

    let citems: Vec<Expression> = vec![crange, csingle];
    proof {
        lemma_exprs_view(citems@);
        assert(exprs_view(citems@) =~= citem_v()->Or_0);
    }
    let citem = alt(citems);
    proof {
        assert(citem@ == citem_v());
    }

    let k_es: Vec<Expression> = vec![lit("["), rep_min(citem, 1), lit("]")];
    let k_items: Vec<ReplItem> = vec![
        tx("MATCH"),
        endl(),
        tx("BETW"),
        endl(),
        ReplItem::ByPos(1),
        tx("EOBETW"),
        endl(),
    ];
    proof {
        lemma_exprs_view(k_es@);
        assert(exprs_view(k_es@) =~~= seq![s_lit("["@), s_rep(citem_v(), 1), s_lit("]"@)]);
        assert(ReplTemplate(k_items)@ =~~= seq![
            s_tx("MATCH"@),
            s_endl(),
            s_tx("BETW"@),
            s_endl(),
            ReplItemV::ByPos(1),
            s_tx("EOBETW"@),
            s_endl(),
        ]);
    }
    let klass = transf(k_es, k_items);

    let neg_es: Vec<Expression> = vec![lit("!"), rref("factor")];
    let neg_items: Vec<ReplItem> = vec![tx("NEGATE"), endl(), ReplItem::ByPos(1)];
    proof {
        lemma_exprs_view(neg_es@);
        assert(exprs_view(neg_es@) =~~= seq![s_lit("!"@), s_ref("factor"@)]);
        assert(ReplTemplate(neg_items)@ =~~= seq![s_tx("NEGATE"@), s_endl(), ReplItemV::ByPos(1)]);
    }
    let neg = transf(neg_es, neg_items);

    let pk_es: Vec<Expression> = vec![lit("&"), rref("factor")];
    let pk_items: Vec<ReplItem> = vec![tx("PEEK"), endl(), ReplItem::ByPos(1)];
    proof {
        lemma_exprs_view(pk_es@);
        assert(exprs_view(pk_es@) =~~= seq![s_lit("&"@), s_ref("factor"@)]);
        assert(ReplTemplate(pk_items)@ =~~= seq![s_tx("PEEK"@), s_endl(), ReplItemV::ByPos(1)]);
    }
    let peekf = transf(pk_es, pk_items);

    let ex_es: Vec<Expression> = vec![lit("expected('"), rep_min(lchar(), 0), lit("')")];
    let ex_items: Vec<ReplItem> = vec![tx("EXPECTED"), endl(), ReplItem::ByPos(1), endl()];
    proof {
        lemma_exprs_view(ex_es@);
        assert(exprs_view(ex_es@) =~~= seq![
            s_lit("expected('"@),
            s_rep(s_mtch(Seq::empty(), seq![(' ', '&'), ('(', '~')]), 0),
            s_lit("')"@),
        ]);
        assert(ReplTemplate(ex_items)@ =~~= seq![
            s_tx("EXPECTED"@),
            s_endl(),
            ReplItemV::ByPos(1),
            s_endl(),
        ]);
    }
    let expectedf = transf(ex_es, ex_items);

    let nm_es: Vec<Expression> = vec![rref("name"), lit(":"), rref("factor")];
    let nm_items: Vec<ReplItem> = vec![
        tx("NAMED"),
        endl(),
        ReplItem::ByPos(0),
        endl(),
        ReplItem::ByPos(2),
    ];
    proof {
        lemma_exprs_view(nm_es@);
        assert(exprs_view(nm_es@) =~~= seq![s_ref("name"@), s_lit(":"@), s_ref("factor"@)]);
        assert(ReplTemplate(nm_items)@ =~~= seq![
            s_tx("NAMED"@),
            s_endl(),
            ReplItemV::ByPos(0),
            s_endl(),
            ReplItemV::ByPos(2),
        ]);
    }
    let namedf = transf(nm_es, nm_items);

    let alts: Vec<Expression> = vec![
        rref("literal"),
        klass,
        rref("group"),
        rref("dot"),
        neg,
        peekf,
        expectedf,
        namedf,
        rref("ruleref"),
    ];
    proof {
        lemma_exprs_view(alts@);
        assert(exprs_view(alts@) =~= factor_v()->Or_0);
    }
    let r = alt(alts);
    proof {
        assert(r@ == factor_v());
    }
    r
}

/// Builds the quoted-literal rule.
fn build_literal() -> (r: Expression)
    ensures
        r@ == literal_v(),
{
    let body = Expression::MetaExpr(
        MetaExpr::Named(
            NamedExpr {
                name: String::from_str("t"),
                expr: Box::new(rep_min(lchar(), 0)),
            },
        ),
    );
    let es: Vec<Expression> = vec![lit("'"), body, lit("'")];
    let items: Vec<ReplItem> = vec![
        tx("ATOM"),
        endl(),
        tx("LIT"),
        endl(),
        ReplItem::ByName(String::from_str("t")),
        endl(),
    ];
    proof {
        lemma_exprs_view(es@);
        assert(exprs_view(es@) =~= literal_v()->Transf2_0);
        assert(ReplTemplate(items)@ =~~= seq![
            s_tx("ATOM"@),
            s_endl(),
            s_tx("LIT"@),
            s_endl(),
            ReplItemV::ByName("t"@),
            s_endl(),
        ]);
    }
    let r = transf(es, items);
    proof {
        assert(r@ =~~= literal_v());
    }
    r
}

/// Builds the parenthesised-group rule.
fn build_group() -> (r: Expression)
    ensures
        r@ == group_v(),
{
    let es: Vec<Expression> = vec![lit("("), rref("_"), rref("or"), rref("_"), lit(")")];
    let items: Vec<ReplItem> = vec![ReplItem::ByPos(2)];
    proof {
        lemma_exprs_view(es@);
        assert(exprs_view(es@) =~~= seq![
            s_lit("("@),
            s_ref("_"@),
            s_ref("or"@),
            s_ref("_"@),
            s_lit(")"@),
        ]);
        assert(ReplTemplate(items)@ =~~= seq![ReplItemV::ByPos(2)]);
    }
    let r = transf(es, items);
    proof {
        assert(r@ =~~= group_v());
    }
    r
}

/// Builds the any-character rule.
fn build_dot() -> (r: Expression)
    ensures
        r@ == dot_v(),
{
    let es: Vec<Expression> = vec![lit(".")];
    let items: Vec<ReplItem> = vec![tx("ATOM"), endl(), tx("DOT"), endl()];
    proof {
        lemma_exprs_view(es@);
        assert(exprs_view(es@) =~~= seq![s_lit("."@)]);
        assert(ReplTemplate(items)@ =~~= seq![s_tx("ATOM"@), s_endl(), s_tx("DOT"@), s_endl()]);
    }
    let r = transf(es, items);
    proof {
        assert(r@ =~~= dot_v());
    }
    r
}

/// Builds the rule-reference rule.
fn build_ruleref() -> (r: Expression)
    ensures
        r@ == ruleref_v(),
{
    let es: Vec<Expression> = vec![rref("name")];
    let items: Vec<ReplItem> = vec![
        tx("ATOM"),
        endl(),
        tx("RULREF"),
        endl(),
        ReplItem::ByPos(0),
        endl(),
    ];
    proof {
        lemma_exprs_view(es@);
        assert(exprs_view(es@) =~~= seq![s_ref("name"@)]);
        assert(ReplTemplate(items)@ =~~= seq![
            s_tx("ATOM"@),
            s_endl(),
            s_tx("RULREF"@),
            s_endl(),
            ReplItemV::ByPos(0),
            s_endl(),
        ]);
    }
    let r = transf(es, items);
    proof {
        assert(r@ =~~= ruleref_v());
    }
    r
}

/// Builds the rule-name token rule.
fn build_name() -> (r: Expression)
    ensures
        r@ == name_v(),
{
    let bounds: Vec<(char, char)> = vec![('a', 'z'), ('0', '9')];
    proof {
        assert(bounds@ =~= seq![('a', 'z'), ('0', '9')]);
    }
    let r = rep_min(mtch("_", bounds), 1);
    proof {
        assert(r@ =~~= name_v());
    }
    r
}

/// Builds the digit token rule.
fn build_digits() -> (r: Expression)
    ensures
        r@ == digits_v(),
{
    let bounds: Vec<(char, char)> = vec![('0', '9')];
    proof {
        assert(bounds@ =~= seq![('0', '9')]);
    }
    let r = rep_min(mtch("", bounds), 1);
    proof {
        reveal_strlit("");
        assert(""@ =~= Seq::<char>::empty());
        assert(r@ =~~= digits_v());
    }
    r
}

/// Builds the inline-whitespace rule; it renders as nothing.
fn build_inline_ws() -> (r: Expression)
    ensures
        r@ == inline_ws_v(),
{
    let es: Vec<Expression> = vec![rep_min(mtch(" \t", Vec::new()), 0)];
    let items: Vec<ReplItem> = Vec::new();
    proof {
        lemma_exprs_view(es@);
        assert(exprs_view(es@) =~~= seq![s_rep(s_mtch(" \t"@, Seq::empty()), 0)]);
        assert(ReplTemplate(items)@ =~~= Seq::<ReplItemV>::empty());
    }
    let r = transf(es, items);
    proof {
        assert(r@ =~~= inline_ws_v());
    }
    r
}

/// Builds the any-whitespace rule; it renders as nothing.
fn build_any_ws() -> (r: Expression)
    ensures
        r@ == any_ws_v(),
{
    let es: Vec<Expression> = vec![rep_min(mtch(" \t\r\n", Vec::new()), 0)];
    let items: Vec<ReplItem> = Vec::new();
    proof {
        lemma_exprs_view(es@);
        assert(exprs_view(es@) =~~= seq![s_rep(s_mtch(" \t\r\n"@, Seq::empty()), 0)]);
        assert(ReplTemplate(items)@ =~~= Seq::<ReplItemV>::empty());
    }
    let r = transf(es, items);
    proof {
        assert(r@ =~~= any_ws_v());
    }
    r
}

} // verus!
