//! The expression data model and the rule set.
//!
//! An [`Expression`] composes atoms by sequence, ordered choice, lookahead,
//! bounded repetition, named capture, rule-name indirection and
//! template-attached sub-expressions. Rule bodies reference each other by
//! name through a [`SetOfRules`], never by direct structural embedding, so
//! recursive and mutually referential grammars need no cyclic ownership.

use vstd::prelude::*;
use crate::ast::{
    lemma_nodes_view, lemma_nodes_view_insert0, lemma_nodes_view_push, nodes_view, Node, NodeV,
};
use crate::parser::atom::{self, eval_atom, Atom, AtomOut, AtomV};
use crate::parser::{opt_error_view, st_same_frame, st_wf, Error, Status};

verus! {

broadcast use vstd::seq::group_seq_axioms, vstd::std_specs::vec::group_vec_axioms;

/// A repetition bound.
#[derive(Debug, Clone, Copy, PartialEq)]
pub struct NRep(pub usize);

/// An ordered list of sub-expressions.
#[derive(Debug, PartialEq)]
pub struct MultiExpr(pub Vec<Expression>);

/// A bounded repetition: at least `min` matches, at most `max` when bounded.
#[derive(Debug, PartialEq)]
pub struct RepInfo {
    /// The repeated expression.
    pub expression: Box<Expression>,
    /// Minimum number of matches for the repetition to succeed.
    pub min: NRep,
    /// Maximum number of matches tried; unbounded when `None`.
    pub max: Option<NRep>,
}

/// A capture: the wrapped expression's result is tagged with a name.
#[derive(Debug, PartialEq)]
pub struct NamedExpr {
    /// The capture name.
    pub name: String,
    /// The wrapped expression.
    pub expr: Box<Expression>,
}

/// A sequence with an attached rewrite template.
#[derive(Debug, PartialEq)]
pub struct Transf2Expr {
    /// The wrapped sequence.
    pub mexpr: MultiExpr,
    /// The template rendered against the sequence's children.
    pub transf2_rules: ReplTemplate,
}

/// Expressions that decorate another expression.
#[derive(Debug, PartialEq)]
pub enum MetaExpr {
    /// A named capture.
    Named(NamedExpr),
    /// A sequence with an attached rewrite template.
    Transf2(Transf2Expr),
}

/// One item of a rewrite template.
#[derive(Debug, PartialEq)]
pub enum ReplItem {
    /// Literal text, emitted verbatim.
    Text(String),
    /// The value of the n-th positional child (zero-based).
    ByPos(usize),
    /// The value of the child captured under a name; absence is an error.
    ByName(String),
    /// Like `ByName`, but absence renders as the empty string.
    ByNameOpt(String),
    /// The value an external function hook resolves the name to.
    Function(String),
}

/// An ordered rewrite template.
#[derive(Debug, PartialEq)]
pub struct ReplTemplate(pub Vec<ReplItem>);

/// A parsing expression.
#[derive(Debug, PartialEq)]
pub enum Expression {
    /// A minimum matching element.
    Simple(Atom),
    /// A sequence, matched left to right; the first failure aborts it.
    And(MultiExpr),
    /// An ordered choice; the first alternative that matches wins.
    Or(MultiExpr),
    /// Negative lookahead: consumes nothing, succeeds iff the inner fails.
    Not(Box<Expression>),
    /// Positive lookahead: consumes nothing, succeeds iff the inner matches.
    Peek(Box<Expression>),
    /// A bounded repetition.
    Repeat(RepInfo),
    /// A reference to a rule, resolved against the active rule set.
    RuleName(String),
    /// A named capture or a template-attached sequence.
    MetaExpr(MetaExpr),
}

/// Mathematical model of one template item.
#[verifier::ext_equal]
pub ghost enum ReplItemV {
    Text(Seq<char>),
    ByPos(int),
    ByName(Seq<char>),
    ByNameOpt(Seq<char>),
    Function(Seq<char>),
}

/// Mathematical model of an expression.
#[verifier::ext_equal]
pub ghost enum ExprV {
    Simple(AtomV),
    And(Seq<ExprV>),
    Or(Seq<ExprV>),
    Not(Box<ExprV>),
    Peek(Box<ExprV>),
    Repeat(Box<ExprV>, int, Option<int>),
    RuleName(Seq<char>),
    Named(Seq<char>, Box<ExprV>),
    Transf2(Seq<ExprV>, Seq<ReplItemV>),
}

/// The model of one template item.
pub open spec fn repl_item_view(it: ReplItem) -> ReplItemV {
    match it {
        ReplItem::Text(s) => ReplItemV::Text(s@),
        ReplItem::ByPos(n) => ReplItemV::ByPos(n as int),
        ReplItem::ByName(s) => ReplItemV::ByName(s@),
        ReplItem::ByNameOpt(s) => ReplItemV::ByNameOpt(s@),
        ReplItem::Function(s) => ReplItemV::Function(s@),
    }
}

impl View for ReplItem {
    type V = ReplItemV;

    open spec fn view(&self) -> ReplItemV {
        repl_item_view(*self)
    }
}

/// The model of a template: its items in order.
pub open spec fn template_view(t: ReplTemplate) -> Seq<ReplItemV> {
    t.0@.map(|i: int, it: ReplItem| repl_item_view(it))
}

impl View for ReplTemplate {
    type V = Seq<ReplItemV>;

    open spec fn view(&self) -> Seq<ReplItemV> {
        template_view(*self)
    }
}

/// The model of an expression.
pub open spec fn expr_view(e: Expression) -> ExprV
    decreases e,
{
    match e {
        Expression::Simple(a) => ExprV::Simple(a@),
        Expression::And(me) => ExprV::And(exprs_view(me.0@)),
        Expression::Or(me) => ExprV::Or(exprs_view(me.0@)),
        Expression::Not(b) => ExprV::Not(Box::new(expr_view(*b))),
        Expression::Peek(b) => ExprV::Peek(Box::new(expr_view(*b))),
        Expression::Repeat(r) => ExprV::Repeat(
            Box::new(expr_view(*r.expression)),
            r.min.0 as int,
            match r.max {
                Some(m) => Some(m.0 as int),
                None => None,
            },
        ),
        Expression::RuleName(n) => ExprV::RuleName(n@),
        Expression::MetaExpr(MetaExpr::Named(ne)) => ExprV::Named(
            ne.name@,
            Box::new(expr_view(*ne.expr)),
        ),
        Expression::MetaExpr(MetaExpr::Transf2(te)) => ExprV::Transf2(
            exprs_view(te.mexpr.0@),
            template_view(te.transf2_rules),
        ),
    }
}

/// The models of a list of expressions, in order.
pub open spec fn exprs_view(es: Seq<Expression>) -> Seq<ExprV>
    decreases es,
{
    if es.len() == 0 {
        Seq::empty()
    } else {
        exprs_view(es.subrange(0, es.len() - 1)).push(expr_view(es[es.len() - 1]))
    }
}

/// The model of a list of expressions is pointwise the models of its
/// elements.
pub broadcast proof fn lemma_exprs_view(es: Seq<Expression>)
    ensures
        (#[trigger] exprs_view(es)).len() == es.len(),
        forall|i: int| 0 <= i < es.len() ==> exprs_view(es)[i] == expr_view(es[i]),
    decreases es.len(),
{
    if es.len() > 0 {
        lemma_exprs_view(es.subrange(0, es.len() - 1));
    }
}

impl View for Expression {
    type V = ExprV;

    open spec fn view(&self) -> ExprV {
        expr_view(*self)
    }
}

impl View for MultiExpr {
    type V = Seq<ExprV>;

    open spec fn view(&self) -> Seq<ExprV> {
        exprs_view(self.0@)
    }
}

impl MultiExpr {
    /// An empty list of sub-expressions.
    pub fn new(v: Vec<Expression>) -> (r: Self)
        ensures
            r@ == exprs_view(v@),
    {
        MultiExpr(v)
    }

    /// Appends one sub-expression, returning the list.
    pub fn ipush(self, e: Expression) -> (r: Self)
        ensures
            r@ =~= self@.push(e@),
    {
        let r = MultiExpr(ivec_push_expression(self.0, e));
        proof {
            lemma_exprs_view(r.0@);
            lemma_exprs_view(self.0@);
            assert(r@ =~= self@.push(e@));
        }
        r
    }
}

impl ReplTemplate {
    /// The empty template.
    pub fn empty() -> (r: Self)
        ensures
            r@ =~= Seq::<ReplItemV>::empty(),
    {
        ReplTemplate(Vec::new())
    }

    /// Appends one item, returning the template.
    pub fn ipush(self, it: ReplItem) -> (r: Self)
        ensures
            r@ =~= self@.push(it@),
    {
        ReplTemplate(ivec_push_repl_item(self.0, it))
    }
}

/// Relies on idata's `IVec::ipush` for `Vec`: pushes the value and returns
/// the same vector.
#[verifier::external_body]
fn ivec_push_expression(v: Vec<Expression>, e: Expression) -> (r: Vec<Expression>)
    ensures
        r@ == v@.push(e),
{
    idata::cont::IVec::ipush(v, e)
}

/// Relies on idata's `IVec::ipush` for `Vec`: pushes the value and returns
/// the same vector.
#[verifier::external_body]
fn ivec_push_repl_item(v: Vec<ReplItem>, it: ReplItem) -> (r: Vec<ReplItem>)
    ensures
        r@ == v@.push(it),
{
    idata::cont::IVec::ipush(v, it)
}

/// An exact copy of a template item.
pub fn clone_repl_item(it: &ReplItem) -> (r: ReplItem)
    ensures
        r@ == it@,
{
    match it {
        ReplItem::Text(s) => ReplItem::Text(String::from_str(s.as_str())),
        ReplItem::ByPos(n) => ReplItem::ByPos(*n),
        ReplItem::ByName(s) => ReplItem::ByName(String::from_str(s.as_str())),
        ReplItem::ByNameOpt(s) => ReplItem::ByNameOpt(String::from_str(s.as_str())),
        ReplItem::Function(s) => ReplItem::Function(String::from_str(s.as_str())),
    }
}

/// An exact copy of a template.
pub fn clone_repl_template(t: &ReplTemplate) -> (r: ReplTemplate)
    ensures
        r@ == t@,
{
    let mut items: Vec<ReplItem> = Vec::new();
    let mut i: usize = 0;
    while i < t.0.len()
        invariant
            i <= t.0.len(),
            items@.len() == i,
            forall|k: int| 0 <= k < i ==> items@[k]@ == t.0@[k]@,
        decreases t.0.len() - i,
    {
        items.push(clone_repl_item(&t.0[i]));
        i += 1;
    }
    let r = ReplTemplate(items);
    assert(r@ =~= t@);
    r
}

/// An exact copy of an expression.
pub fn clone_expr(e: &Expression) -> (r: Expression)
    ensures
        r@ == e@,
    decreases *e,
{
    match e {
        Expression::Simple(a) => Expression::Simple(crate::parser::atom::clone_atom(a)),
        Expression::And(me) => Expression::And(MultiExpr(clone_expr_vec(&me.0))),
        Expression::Or(me) => Expression::Or(MultiExpr(clone_expr_vec(&me.0))),
        Expression::Not(b) => Expression::Not(Box::new(clone_expr(b))),
        Expression::Peek(b) => Expression::Peek(Box::new(clone_expr(b))),
        Expression::Repeat(ri) => Expression::Repeat(
            RepInfo { expression: Box::new(clone_expr(&ri.expression)), min: ri.min, max: ri.max },
        ),
        Expression::RuleName(n) => Expression::RuleName(String::from_str(n.as_str())),
        Expression::MetaExpr(MetaExpr::Named(ne)) => Expression::MetaExpr(
            MetaExpr::Named(
                NamedExpr {
                    name: String::from_str(ne.name.as_str()),
                    expr: Box::new(clone_expr(&ne.expr)),
                },
            ),
        ),
        Expression::MetaExpr(MetaExpr::Transf2(te)) => Expression::MetaExpr(
            MetaExpr::Transf2(
                Transf2Expr {
                    mexpr: MultiExpr(clone_expr_vec(&te.mexpr.0)),
                    transf2_rules: clone_repl_template(&te.transf2_rules),
                },
            ),
        ),
    }
}

/// Exact copies of a list of expressions, in order.
pub fn clone_expr_vec(v: &Vec<Expression>) -> (r: Vec<Expression>)
    ensures
        exprs_view(r@) == exprs_view(v@),
    decreases *v,
{
    let mut r: Vec<Expression> = Vec::new();
    let mut i: usize = 0;
    while i < v.len()
        invariant
            i <= v.len(),
            r@.len() == i,
            forall|k: int| 0 <= k < i ==> r@[k]@ == v@[k]@,
        decreases v.len() - i,
    {
        r.push(clone_expr(&v[i]));
        i += 1;
    }
    proof {
        lemma_exprs_view(r@);
        lemma_exprs_view(v@);
        assert(exprs_view(r@) =~= exprs_view(v@));
    }
    r
}

impl Clone for RuleInfo {
    /// An exact copy; the copy's model equals the original's.
    fn clone(&self) -> (r: Self)
        ensures
            r@ == self@,
    {
        let descr: Option<String> = match &self.descr {
            Some(d) => Some(String::from_str(d.as_str())),
            None => None,
        };
        let r = RuleInfo { expr: clone_expr(&self.expr), descr };
        assert(r@.descr =~= self@.descr);
        r
    }
}

/// A rule: its body and an optional description for diagnostics.
#[derive(Debug, PartialEq)]
pub struct RuleInfo {
    /// The rule's body.
    pub expr: Expression,
    /// An optional description, shown in place of generated diagnostics.
    pub descr: Option<String>,
}

/// Mathematical model of a rule.
#[verifier::ext_equal]
pub ghost struct RuleInfoV {
    pub expr: ExprV,
    pub descr: Option<Seq<char>>,
}

impl View for RuleInfo {
    type V = RuleInfoV;

    open spec fn view(&self) -> RuleInfoV {
        RuleInfoV { expr: expr_view(self.expr), descr: self.descr.deep_view() }
    }
}

#[verifier::external_type_specification]
#[verifier::external_body]
#[verifier::reject_recursive_types(K)]
#[verifier::reject_recursive_types(V)]
#[verifier::reject_recursive_types(S)]
/// An `im::HashMap`, declared so it can stand in fields and signatures.
pub struct ExImHashMap<K, V, S>(im::HashMap<K, V, S>);

/// The mapping an `im::HashMap` of rules holds.
pub uninterp spec fn rule_map_of(m: im::HashMap<String, RuleInfo>) -> Map<Seq<char>, RuleInfo>;

/// The empty rule mapping.
pub open spec fn no_rules() -> Map<Seq<char>, RuleInfo> {
    Map::empty()
}

/// Relies on `im::HashMap::new`: the empty map.
#[verifier::external_body]
fn im_rules_new() -> (r: im::HashMap<String, RuleInfo>)
    ensures
        rule_map_of(r) == no_rules(),
{
    im::HashMap::new()
}

/// Relies on `im::HashMap::update`: the same map with one key added or
/// replaced.
#[verifier::external_body]
fn im_rules_update(m: &im::HashMap<String, RuleInfo>, k: String, v: RuleInfo) -> (r: im::HashMap<
    String,
    RuleInfo,
>)
    ensures
        rule_map_of(r) == rule_map_of(*m).insert(k@, v),
{
    m.update(k, v)
}

/// Relies on `im::HashMap::get`: the value stored at the key, `None` when
/// the key is absent.
#[verifier::external_body]
fn im_rules_get<'a>(m: &'a im::HashMap<String, RuleInfo>, k: &str) -> (r: Option<&'a RuleInfo>)
    ensures
        match r {
            Some(v) => rule_map_of(*m).contains_key(k@) && *v == rule_map_of(*m)[k@],
            None => !rule_map_of(*m).contains_key(k@),
        },
{
    m.get(k)
}

/// Relies on `im::HashMap::clone`: the same mapping, shared structurally.
#[verifier::external_body]
fn im_rules_dup(m: &im::HashMap<String, RuleInfo>) -> (r: im::HashMap<String, RuleInfo>)
    ensures
        rule_map_of(r) == rule_map_of(*m),
{
    m.clone()
}

/// Relies on `im::HashMap::iter`: yields each entry exactly once, in an
/// unspecified order.
#[verifier::external_body]
fn im_rules_entries(m: &im::HashMap<String, RuleInfo>) -> (r: Vec<(String, RuleInfo)>)
    ensures
        forall|i: int|
            0 <= i < r@.len() ==> rule_map_of(*m).contains_pair((#[trigger] r@[i]).0@, r@[i].1),
        forall|k: Seq<char>|
            #[trigger] rule_map_of(*m).contains_key(k) ==> exists|i: int|
                0 <= i < r@.len() && (#[trigger] r@[i]).0@ == k,
        forall|i: int, j: int| 0 <= i < j < r@.len() ==> r@[i].0@ != r@[j].0@,
{
    let mut out = Vec::new();
    for (k, v) in m.iter() {
        out.push((k.clone(), v.clone()));
    }
    out
}

/// Whether one of the first `i` entries carries the key `k`.
pub open spec fn key_among(es: Seq<(String, RuleInfo)>, i: int, k: Seq<char>) -> bool {
    exists|j: int| 0 <= j < i && (#[trigger] es[j]).0@ == k
}

/// A name-indexed set of rules, resolved lazily per reference.
#[derive(Debug)]
pub struct SetOfRules(pub(crate) im::HashMap<String, RuleInfo>);

impl View for SetOfRules {
    type V = Map<Seq<char>, RuleInfoV>;

    closed spec fn view(&self) -> Map<Seq<char>, RuleInfoV> {
        rule_map_of(self.0).map_values(|ri: RuleInfo| ri@)
    }
}

impl SetOfRules {
    /// The empty rule set.
    pub fn empty() -> (r: Self)
        ensures
            r@ =~= Map::<Seq<char>, RuleInfoV>::empty(),
    {
        SetOfRules(im_rules_new())
    }

    /// Adds one rule, replacing any rule of the same name.
    pub fn add(self, name: &str, info: RuleInfo) -> (r: Self)
        ensures
            r@ =~= self@.insert(name@, info@),
    {
        let ghost info_v = info@;
        let r = SetOfRules(im_rules_update(&self.0, String::from_str(name), info));
        proof {
            assert(r@ =~= self@.insert(name@, info_v)) by {
                assert forall|k: Seq<char>| r@.contains_key(k) <==> self@.insert(
                    name@,
                    info_v,
                ).contains_key(k) by {}
            }
        }
        r
    }

    /// Merges another rule set into this one; on a name collision the other
    /// set's rule wins. Built rule by rule through `add`, whose contract is
    /// exact.
    pub fn merge(self, rules: SetOfRules) -> (r: Self)
        ensures
            r@ =~= self@.union_prefer_right(rules@),
    {
        let ghost self0 = self@;
        let entries = rules.entries();
        let ghost es = entries@;
        let mut acc = self;
        let mut i: usize = 0;
        while i < entries.len()
            invariant
                i <= es.len(),
                es == entries@,
                forall|j: int|
                    0 <= j < es.len() ==> rules@.contains_key((#[trigger] es[j]).0@) && rules@[
                        es[j].0@
                    ] == es[j].1@,
                forall|k: Seq<char>|
                    #[trigger] rules@.contains_key(k) ==> key_among(es, es.len() as int, k),
                forall|j: int, j2: int| 0 <= j < j2 < es.len() ==> es[j].0@ != es[j2].0@,
                forall|j: int|
                    0 <= j < i ==> acc@.contains_key((#[trigger] es[j]).0@) && acc@[es[j].0@]
                        == es[j].1@,
                forall|k: Seq<char>|
                    !key_among(es, i as int, k) ==> #[trigger] acc@.contains_key(k)
                        == self0.contains_key(k) && (self0.contains_key(k) ==> acc@[k]
                        == self0[k]),
            decreases es.len() - i,
        {
            let (name, ri) = &entries[i];
            let ghost acc0 = acc@;
            acc = acc.add(name.as_str(), ri.clone());
            proof {
                assert(acc@ =~= acc0.insert(es[i as int].0@, es[i as int].1@));
                assert forall|k: Seq<char>|
                    !key_among(es, i + 1 as int, k) implies #[trigger] acc@.contains_key(k)
                    == self0.contains_key(k) && (self0.contains_key(k) ==> acc@[k]
                    == self0[k]) by {
                    assert(!key_among(es, i as int, k)) by {
                        if key_among(es, i as int, k) {
                            let j = choose|j: int|
                                0 <= j < i as int && (#[trigger] es[j]).0@ == k;
                            assert(key_among(es, i + 1 as int, k));
                        }
                    }
                    assert(es[i as int].0@ != k) by {
                        if es[i as int].0@ == k {
                            assert(key_among(es, i + 1 as int, k));
                        }
                    }
                }
            }
            i += 1;
        }
        proof {
            assert(acc@ =~= self0.union_prefer_right(rules@)) by {
                assert forall|k: Seq<char>|
                    acc@.contains_key(k) == self0.union_prefer_right(rules@).contains_key(k) && (
                acc@.contains_key(k) ==> acc@[k] == self0.union_prefer_right(rules@)[k]) by {
                    if rules@.contains_key(k) {
                        assert(key_among(es, es.len() as int, k));
                        let j = choose|j: int|
                            0 <= j < es.len() && (#[trigger] es[j]).0@ == k;
                        assert(acc@.contains_key(k) && acc@[k] == es[j].1@);
                    } else {
                        assert(!key_among(es, es.len() as int, k)) by {
                            if key_among(es, es.len() as int, k) {
                                let j = choose|j: int|
                                    0 <= j < es.len() && (#[trigger] es[j]).0@ == k;
                                assert(rules@.contains_key(es[j].0@));
                            }
                        }
                    }
                }
            }
        }
        acc
    }

    /// An exact copy.
    pub fn duplicate(&self) -> (r: Self)
        ensures
            r@ == self@,
    {
        SetOfRules(im_rules_dup(&self.0))
    }

    /// Looks a rule up by name.
    pub fn get<'a>(&'a self, name: &str) -> (r: Option<&'a RuleInfo>)
        ensures
            match r {
                Some(ri) => self@.contains_key(name@) && ri@ == self@[name@],
                None => !self@.contains_key(name@),
            },
    {
        im_rules_get(&self.0, name)
    }

    /// The rules as a list of name/rule pairs, each rule exactly once, in
    /// an unspecified order.
    pub fn entries(&self) -> (r: Vec<(String, RuleInfo)>)
        ensures
            forall|i: int|
                0 <= i < r@.len() ==> self@.contains_key((#[trigger] r@[i]).0@) && self@[r@[i].0@]
                    == r@[i].1@,
            forall|k: Seq<char>|
                #[trigger] self@.contains_key(k) ==> exists|i: int|
                    0 <= i < r@.len() && (#[trigger] r@[i]).0@ == k,
            forall|i: int, j: int| 0 <= i < j < r@.len() ==> r@[i].0@ != r@[j].0@,
    {
        im_rules_entries(&self.0)
    }
}

/// What matching an expression at a position yields: the new position and
/// node, a failure, or an exhausted matching budget.
pub ghost enum Outcome {
    Matched(int, NodeV),
    Failed,
    Stop,
}

/// What matching a list of expressions in sequence yields.
pub ghost enum OutcomeL {
    MatchedL(int, Seq<NodeV>),
    FailedL,
    StopL,
}

/// The matching semantics of an expression against `text` at `pos` under a
/// rule mapping. Each evaluation step spends one unit of budget, so deep or
/// unproductive recursion ends in `Stop` rather than running forever.
pub open spec fn eval(
    rs: Map<Seq<char>, RuleInfoV>,
    text: Seq<char>,
    e: ExprV,
    pos: int,
    fuel: nat,
) -> Outcome
    decreases fuel,
{
    if fuel == 0 {
        Outcome::Stop
    } else {
        let f = (fuel - 1) as nat;
        match e {
            ExprV::Simple(a) => match eval_atom(text, a, pos) {
                AtomOut::Matched(p, n) => Outcome::Matched(p, n),
                AtomOut::Failed => Outcome::Failed,
            },
            ExprV::And(es) => match eval_and(rs, text, es, 0, pos, f) {
                OutcomeL::MatchedL(p, ns) => Outcome::Matched(p, NodeV::List(ns)),
                OutcomeL::FailedL => Outcome::Failed,
                OutcomeL::StopL => Outcome::Stop,
            },
            ExprV::Or(es) => eval_or(rs, text, es, 0, pos, f),
            ExprV::Not(b) => match eval(rs, text, *b, pos, f) {
                Outcome::Matched(_, _) => Outcome::Failed,
                Outcome::Failed => Outcome::Matched(pos, NodeV::Val(Seq::empty())),
                Outcome::Stop => Outcome::Stop,
            },
            ExprV::Peek(b) => match eval(rs, text, *b, pos, f) {
                Outcome::Matched(_, n) => Outcome::Matched(pos, n),
                Outcome::Failed => Outcome::Failed,
                Outcome::Stop => Outcome::Stop,
            },
            ExprV::Repeat(b, min, maxo) => eval_rep(rs, text, *b, pos, min, maxo, 0, Seq::empty(), f),
            ExprV::RuleName(nm) => if rs.contains_key(nm) {
                match eval(rs, text, rs[nm].expr, pos, f) {
                    Outcome::Matched(p, n) => Outcome::Matched(p, NodeV::Rule(nm, Box::new(n))),
                    o => o,
                }
            } else {
                Outcome::Failed
            },
            ExprV::Named(nm, b) => match eval(rs, text, *b, pos, f) {
                Outcome::Matched(p, n) => Outcome::Matched(p, NodeV::Named(nm, Box::new(n))),
                o => o,
            },
            ExprV::Transf2(es, items) => match eval_and(rs, text, es, 0, pos, f) {
                OutcomeL::MatchedL(p, ns) => Outcome::Matched(p, NodeV::Transf2(items, ns)),
                OutcomeL::FailedL => Outcome::Failed,
                OutcomeL::StopL => Outcome::Stop,
            },
        }
    }
}

/// Matches `es[i..]` left to right, chaining the position; the first
/// failure aborts the whole sequence.
pub open spec fn eval_and(
    rs: Map<Seq<char>, RuleInfoV>,
    text: Seq<char>,
    es: Seq<ExprV>,
    i: int,
    pos: int,
    fuel: nat,
) -> OutcomeL
    decreases fuel,
{
    if fuel == 0 {
        OutcomeL::StopL
    } else if i >= es.len() {
        OutcomeL::MatchedL(pos, Seq::empty())
    } else {
        match eval(rs, text, es[i], pos, (fuel - 1) as nat) {
            Outcome::Matched(p, n) => match eval_and(rs, text, es, i + 1, p, (fuel - 1) as nat) {
                OutcomeL::MatchedL(p2, ns) => OutcomeL::MatchedL(p2, ns.insert(0, n)),
                o => o,
            },
            Outcome::Failed => OutcomeL::FailedL,
            Outcome::Stop => OutcomeL::StopL,
        }
    }
}

/// Tries the alternatives `es[i..]` in order, each from the same position;
/// the first that matches wins.
pub open spec fn eval_or(
    rs: Map<Seq<char>, RuleInfoV>,
    text: Seq<char>,
    es: Seq<ExprV>,
    i: int,
    pos: int,
    fuel: nat,
) -> Outcome
    decreases fuel,
{
    if fuel == 0 {
        Outcome::Stop
    } else if i >= es.len() {
        Outcome::Failed
    } else {
        match eval(rs, text, es[i], pos, (fuel - 1) as nat) {
            Outcome::Matched(p, n) => Outcome::Matched(p, n),
            Outcome::Stop => Outcome::Stop,
            Outcome::Failed => eval_or(rs, text, es, i + 1, pos, (fuel - 1) as nat),
        }
    }
}

/// Matches the repeated expression greedily after `done` completed
/// iterations, until a failure or the bound `maxo`; it succeeds iff the
/// completed count reaches `min`.
pub open spec fn eval_rep(
    rs: Map<Seq<char>, RuleInfoV>,
    text: Seq<char>,
    b: ExprV,
    pos: int,
    min: int,
    maxo: Option<int>,
    done: int,
    ns: Seq<NodeV>,
    fuel: nat,
) -> Outcome
    decreases fuel,
{
    if fuel == 0 {
        Outcome::Stop
    } else if (match maxo {
        Some(m) => done == m,
        None => false,
    }) {
        Outcome::Matched(pos, NodeV::List(ns))
    } else {
        match eval(rs, text, b, pos, (fuel - 1) as nat) {
            Outcome::Stop => Outcome::Stop,
            Outcome::Failed => if done >= min {
                Outcome::Matched(pos, NodeV::List(ns))
            } else {
                Outcome::Failed
            },
            Outcome::Matched(p, n) => eval_rep(
                rs,
                text,
                b,
                p,
                min,
                maxo,
                done + 1,
                ns.push(n),
                (fuel - 1) as nat,
            ),
        }
    }
}

/// Why a match attempt ended without a node: the failure to report, and
/// whether the matching budget ran out (a `Stop`) rather than the input not
/// matching.
pub struct Failure {
    /// The failure to report.
    pub err: Error,
    /// True when the matching budget ran out.
    pub stop: bool,
}

/// The model of a repetition bound.
pub open spec fn rep_bound_view(m: Option<NRep>) -> Option<int> {
    match m {
        Some(nr) => Some(nr.0 as int),
        None => None,
    }
}

/// Matches one expression against the status's input at its position.
pub fn parse_expr(status: Status, e: &Expression, fuel: u64) -> (r: Result<(Status, Node), Failure>)
    requires
        st_wf(status),
    ensures
        match r {
            Ok((st, node)) => {
                &&& eval(status.rules@, status.text2parse@, e@, status.pos@.n, fuel as nat)
                    == Outcome::Matched(st.pos@.n as int, node@)
                &&& st_wf(st)
                &&& st_same_frame(st, status)
                &&& status.pos@.n <= st.pos@.n
                &&& (e@ is Not ==> st == status)
                &&& (e@ is Peek ==> st == status)
                &&& ((match e@ {
                    ExprV::Repeat(_, _, mo) => mo is None,
                    _ => false,
                }) ==> opt_error_view(st.potential_error) is Some)
            },
            Err(f) => {
                &&& eval(status.rules@, status.text2parse@, e@, status.pos@.n, fuel as nat) == (
                if f.stop {
                    Outcome::Stop
                } else {
                    Outcome::Failed
                })
            },
        },
    decreases fuel,
{
    if fuel == 0 {
        return Err(budget_failure(&status));
    }
    match e {
        Expression::Simple(a) => match atom::parse(status, a) {
            Ok((st, node)) => Ok((st, node)),
            Err(err) => Err(Failure { err, stop: false }),
        },
        Expression::And(me) => match parse_and_from(status, &me.0, 0, fuel - 1) {
            Ok((st, nodes)) => Ok((st, Node::List(nodes))),
            Err(f) => Err(f),
        },
        Expression::Or(me) => parse_or_from(status, &me.0, 0, None, fuel - 1),
        Expression::Not(b) => {
            let snap = status.duplicate();
            match parse_expr(snap, b, fuel - 1) {
                Ok((_st, _node)) => Err(
                    Failure {
                        err: Error::from_status_normal_simple(&status, "not expected"),
                        stop: false,
                    },
                ),
                Err(f) => {
                    if f.stop {
                        Err(f)
                    } else {
                        let node = Node::Val(String::from_str(""));
                        proof {
                            reveal_strlit("");
                            assert(""@ =~= Seq::<char>::empty());
                        }
                        Ok((status, node))
                    }
                },
            }
        },
        Expression::Peek(b) => {
            let snap = status.duplicate();
            match parse_expr(snap, b, fuel - 1) {
                Ok((_st, node)) => Ok((status, node)),
                Err(f) => Err(f),
            }
        },
        Expression::Repeat(ri) => {
            let nodes: Vec<Node> = Vec::new();
            proof {
                assert(nodes_view(nodes@) =~= Seq::<NodeV>::empty());
            }
            parse_rep(status, &ri.expression, ri.min.0, &ri.max, 0, nodes, fuel - 1)
        },
        Expression::RuleName(name) => {
            let body_opt: Option<(Expression, Option<String>)> = match status.rules.get(
                name.as_str(),
            ) {
                Some(ri) => {
                    let descr: Option<String> = match &ri.descr {
                        Some(d) => Some(String::from_str(d.as_str())),
                        None => None,
                    };
                    Some((clone_expr(&ri.expr), descr))
                },
                None => None,
            };
            match body_opt {
                None => {
                    let msg = String::from_str("undefined rule ").concat(name.as_str());
                    Err(
                        Failure {
                            err: Error::from_status_normal_simple(&status, msg.as_str()),
                            stop: false,
                        },
                    )
                },
                Some((body, descr)) => {
                    let traced = status.trace_rules;
                    let ghost walking0 = status.walking_rules.deep_view();
                    let st_in = if traced {
                        status.push_rule(name.as_str())
                    } else {
                        status
                    };
                    match parse_expr(st_in, &body, fuel - 1) {
                        Ok((st, node)) => {
                            let mut st = st;
                            if traced {
                                let ghost before = st.walking_rules@;
                                let ghost before_dv = st.walking_rules.deep_view();
                                let _ = st.walking_rules.pop();
                                proof {
                                    assert(before_dv == walking0.push(name@));
                                    assert(st.walking_rules@ =~= before.drop_last());
                                    assert forall|k: int|
                                        0 <= k < walking0.len() implies st.walking_rules.deep_view()[k]
                                        == walking0[k] by {
                                        assert(st.walking_rules@[k] == before[k]);
                                        assert(before_dv[k] == walking0.push(name@)[k]);
                                    }
                                    assert(st.walking_rules.deep_view() =~~= walking0);
                                }
                            }
                            Ok((st, Node::Rule(String::from_str(name.as_str()), Box::new(node))))
                        },
                        Err(f) => match descr {
                            Some(d) => Err(
                                Failure { err: f.err.with_context(d.as_str()), stop: f.stop },
                            ),
                            None => Err(f),
                        },
                    }
                },
            }
        },
        Expression::MetaExpr(MetaExpr::Named(ne)) => {
            match parse_expr(status, &ne.expr, fuel - 1) {
                Ok((st, node)) => Ok(
                    (st, Node::Named(String::from_str(ne.name.as_str()), Box::new(node))),
                ),
                Err(f) => Err(f),
            }
        },
        Expression::MetaExpr(MetaExpr::Transf2(te)) => {
            match parse_and_from(status, &te.mexpr.0, 0, fuel - 1) {
                Ok((st, nodes)) => Ok(
                    (st, Node::Transf2(clone_repl_template(&te.transf2_rules), nodes)),
                ),
                Err(f) => Err(f),
            }
        },
    }
}

/// The failure reported when the matching budget runs out.
fn budget_failure(status: &Status) -> (f: Failure)
    requires
        st_wf(*status),
    ensures
        f.stop,
{
    Failure {
        err: Error::from_status_normal_simple(status, "matching budget exhausted"),
        stop: true,
    }
}

/// Matches the sub-expressions `es[i..]` in sequence, chaining the status.
pub fn parse_and_from(status: Status, es: &Vec<Expression>, i: usize, fuel: u64) -> (r: Result<
    (Status, Vec<Node>),
    Failure,
>)
    requires
        st_wf(status),
        i <= es@.len(),
    ensures
        match r {
            Ok((st, nodes)) => {
                &&& eval_and(
                    status.rules@,
                    status.text2parse@,
                    exprs_view(es@),
                    i as int,
                    status.pos@.n,
                    fuel as nat,
                ) == OutcomeL::MatchedL(st.pos@.n as int, nodes_view(nodes@))
                &&& st_wf(st)
                &&& st_same_frame(st, status)
                &&& status.pos@.n <= st.pos@.n
            },
            Err(f) => {
                &&& eval_and(
                    status.rules@,
                    status.text2parse@,
                    exprs_view(es@),
                    i as int,
                    status.pos@.n,
                    fuel as nat,
                ) == (if f.stop {
                    OutcomeL::StopL
                } else {
                    OutcomeL::FailedL
                })
            },
        },
    decreases fuel,
{
    proof {
        lemma_exprs_view(es@);
    }
    if fuel == 0 {
        return Err(budget_failure(&status));
    }
    if i == es.len() {
        let nodes: Vec<Node> = Vec::new();
        proof {
            assert(nodes_view(nodes@) =~= Seq::<NodeV>::empty());
        }
        return Ok((status, nodes));
    }
    match parse_expr(status, &es[i], fuel - 1) {
        Ok((st1, n)) => match parse_and_from(st1, es, i + 1, fuel - 1) {
            Ok((st2, mut nodes)) => {
                proof {
                    lemma_nodes_view_insert0(nodes@, n);
                }
                nodes.insert(0, n);
                Ok((st2, nodes))
            },
            Err(f) => Err(f),
        },
        Err(f) => Err(f),
    }
}

/// Tries the alternatives `es[i..]` in order from the same status; the
/// failures seen so far are merged furthest-offset-first into `acc`.
pub fn parse_or_from(
    status: Status,
    es: &Vec<Expression>,
    i: usize,
    acc: Option<Error>,
    fuel: u64,
) -> (r: Result<(Status, Node), Failure>)
    requires
        st_wf(status),
        i <= es@.len(),
    ensures
        match r {
            Ok((st, node)) => {
                &&& eval_or(
                    status.rules@,
                    status.text2parse@,
                    exprs_view(es@),
                    i as int,
                    status.pos@.n,
                    fuel as nat,
                ) == Outcome::Matched(st.pos@.n as int, node@)
                &&& st_wf(st)
                &&& st_same_frame(st, status)
                &&& status.pos@.n <= st.pos@.n
            },
            Err(f) => {
                &&& eval_or(
                    status.rules@,
                    status.text2parse@,
                    exprs_view(es@),
                    i as int,
                    status.pos@.n,
                    fuel as nat,
                ) == (if f.stop {
                    Outcome::Stop
                } else {
                    Outcome::Failed
                })
            },
        },
    decreases fuel,
{
    proof {
        lemma_exprs_view(es@);
    }
    if fuel == 0 {
        return Err(budget_failure(&status));
    }
    if i == es.len() {
        let err = match acc {
            Some(e) => e,
            None => Error::from_status_normal_simple(&status, "no alternative matched"),
        };
        return Err(Failure { err, stop: false });
    }
    let snap = status.duplicate();
    match parse_expr(snap, &es[i], fuel - 1) {
        Ok((st, node)) => Ok((st, node)),
        Err(f) => {
            if f.stop {
                Err(f)
            } else {
                let acc2 = match acc {
                    Some(a) => Some(a.merge(&f.err)),
                    None => Some(f.err),
                };
                parse_or_from(status, es, i + 1, acc2, fuel - 1)
            }
        },
    }
}

/// Matches the repeated expression greedily; on the final failing attempt
/// the repetition still succeeds when `done` reached the minimum, and that
/// failure is recorded as the running furthest error.
pub fn parse_rep(
    status: Status,
    b: &Expression,
    min: usize,
    maxo: &Option<NRep>,
    done: u64,
    nodes: Vec<Node>,
    fuel: u64,
) -> (r: Result<(Status, Node), Failure>)
    requires
        st_wf(status),
        done as int + fuel as int <= u64::MAX as int,
    ensures
        match r {
            Ok((st, node)) => {
                &&& eval_rep(
                    status.rules@,
                    status.text2parse@,
                    b@,
                    status.pos@.n,
                    min as int,
                    rep_bound_view(*maxo),
                    done as int,
                    nodes_view(nodes@),
                    fuel as nat,
                ) == Outcome::Matched(st.pos@.n as int, node@)
                &&& st_wf(st)
                &&& st_same_frame(st, status)
                &&& status.pos@.n <= st.pos@.n
                &&& (rep_bound_view(*maxo) is None ==> opt_error_view(st.potential_error)
                    is Some)
            },
            Err(f) => {
                &&& eval_rep(
                    status.rules@,
                    status.text2parse@,
                    b@,
                    status.pos@.n,
                    min as int,
                    rep_bound_view(*maxo),
                    done as int,
                    nodes_view(nodes@),
                    fuel as nat,
                ) == (if f.stop {
                    Outcome::Stop
                } else {
                    Outcome::Failed
                })
            },
        },
    decreases fuel,
{
    if fuel == 0 {
        return Err(budget_failure(&status));
    }
    let at_max = match maxo {
        Some(m) => done == m.0 as u64,
        None => false,
    };
    if at_max {
        return Ok((status, Node::List(nodes)));
    }
    let snap = status.duplicate();
    match parse_expr(snap, b, fuel - 1) {
        Ok((st, n)) => {
            let mut nodes = nodes;
            proof {
                lemma_nodes_view_push(nodes@, n);
            }
            nodes.push(n);
            parse_rep(st, b, min, maxo, done + 1, nodes, fuel - 1)
        },
        Err(f) => {
            if f.stop {
                Err(f)
            } else if done >= min as u64 {
                let st = match status.potential_error {
                    Some(_) => {
                        let merged = match &status.potential_error {
                            Some(p) => p.merge(&f.err),
                            None => f.err,
                        };
                        status.set_potential_error(merged)
                    },
                    None => status.set_potential_error(f.err),
                };
                Ok((st, Node::List(nodes)))
            } else {
                Err(f)
            }
        },
    }
}

/// Negative lookahead: `Not(b)` consumes nothing whichever way it goes, and
/// it succeeds exactly when the wrapped expression fails.
pub proof fn lemma_not_semantics(
    rs: Map<Seq<char>, RuleInfoV>,
    text: Seq<char>,
    b: ExprV,
    pos: int,
    fuel: nat,
)
    requires
        fuel > 0,
    ensures
        eval(rs, text, ExprV::Not(Box::new(b)), pos, fuel) is Matched <==> eval(
            rs,
            text,
            b,
            pos,
            (fuel - 1) as nat,
        ) is Failed,
        eval(rs, text, ExprV::Not(Box::new(b)), pos, fuel) is Failed <==> eval(
            rs,
            text,
            b,
            pos,
            (fuel - 1) as nat,
        ) is Matched,
        eval(rs, text, ExprV::Not(Box::new(b)), pos, fuel) matches Outcome::Matched(p, _) ==> p
            == pos,
{
}

/// Positive lookahead: `Peek(b)` consumes nothing, succeeds exactly when
/// the wrapped expression matches, and returns that match's node.
pub proof fn lemma_peek_semantics(
    rs: Map<Seq<char>, RuleInfoV>,
    text: Seq<char>,
    b: ExprV,
    pos: int,
    fuel: nat,
)
    requires
        fuel > 0,
    ensures
        eval(rs, text, ExprV::Peek(Box::new(b)), pos, fuel) is Matched <==> eval(
            rs,
            text,
            b,
            pos,
            (fuel - 1) as nat,
        ) is Matched,
        eval(rs, text, ExprV::Peek(Box::new(b)), pos, fuel) matches Outcome::Matched(p, n) ==> p
            == pos && eval(rs, text, b, pos, (fuel - 1) as nat) == Outcome::Matched(
            eval(rs, text, b, pos, (fuel - 1) as nat)->Matched_0,
            n,
        ),
{
}

/// Ordered choice: when the first alternative matches, the choice returns
/// exactly that alternative's result, and the others are never consulted.
pub proof fn lemma_or_first_wins(
    rs: Map<Seq<char>, RuleInfoV>,
    text: Seq<char>,
    es: Seq<ExprV>,
    pos: int,
    fuel: nat,
)
    requires
        fuel >= 2,
        es.len() > 0,
        eval(rs, text, es[0], pos, (fuel - 2) as nat) is Matched,
    ensures
        eval(rs, text, ExprV::Or(es), pos, fuel) == eval(rs, text, es[0], pos, (fuel - 2) as nat),
{
    let f1 = (fuel - 1) as nat;
    assert(eval(rs, text, ExprV::Or(es), pos, fuel) == eval_or(rs, text, es, 0, pos, f1));
    assert((f1 - 1) as nat == (fuel - 2) as nat);
    assert(eval_or(rs, text, es, 0, pos, f1) == eval(rs, text, es[0], pos, (fuel - 2) as nat));
}

/// An unbounded repetition with minimum `min` never succeeds with fewer
/// than `min` iterations, and it stops exactly at an iteration on which the
/// repeated expression fails.
pub proof fn lemma_repeat_min_unbounded(
    rs: Map<Seq<char>, RuleInfoV>,
    text: Seq<char>,
    b: ExprV,
    pos: int,
    min: int,
    done: int,
    ns: Seq<NodeV>,
    fuel: nat,
    p: int,
    ns2: Seq<NodeV>,
)
    requires
        eval_rep(rs, text, b, pos, min, None, done, ns, fuel) == Outcome::Matched(
            p,
            NodeV::List(ns2),
        ),
    ensures
        ns2.len() >= ns.len(),
        ns2.len() - ns.len() + done >= min,
        exists|f2: nat| f2 < fuel && eval(rs, text, b, p, f2) is Failed,
    decreases fuel,
{
    if fuel > 0 {
        let f = (fuel - 1) as nat;
        match eval(rs, text, b, pos, f) {
            Outcome::Stop => {},
            Outcome::Failed => {
                assert(eval(rs, text, b, p, f) is Failed);
            },
            Outcome::Matched(p1, n) => {
                lemma_repeat_min_unbounded(
                    rs,
                    text,
                    b,
                    p1,
                    min,
                    done + 1,
                    ns.push(n),
                    f,
                    p,
                    ns2,
                );
            },
        }
    }
}

/// A repetition without an upper bound never matches with fewer than `min`
/// completed iterations, and the repeated expression fails at the position
/// where the repetition stopped.
pub proof fn lemma_repeat_semantics(
    rs: Map<Seq<char>, RuleInfoV>,
    text: Seq<char>,
    b: ExprV,
    pos: int,
    min: int,
    fuel: nat,
    p: int,
    ns: Seq<NodeV>,
)
    requires
        fuel > 0,
        eval(rs, text, ExprV::Repeat(Box::new(b), min, None), pos, fuel) == Outcome::Matched(
            p,
            NodeV::List(ns),
        ),
    ensures
        ns.len() >= min,
        exists|f2: nat| f2 < fuel && eval(rs, text, b, p, f2) is Failed,
{
    lemma_repeat_min_unbounded(
        rs,
        text,
        b,
        pos,
        min,
        0,
        Seq::empty(),
        (fuel - 1) as nat,
        p,
        ns,
    );
}

/// The matching budget granted for an input of the given length. The
/// matcher spends one unit per evaluation step, so a parse whose recursion
/// outgrows the budget — a cyclic rule chain, or a repetition over an
/// expression that consumes nothing — stops with a budget failure instead
/// of recursing without bound, which the verifier could not admit.
pub open spec fn spec_budget(len: nat) -> nat {
    1000000 + 1000 * (if len > 1000000000 {
        1000000000 as nat
    } else {
        len
    })
}

/// The matching budget, computed from the input length.
pub fn match_budget(len: usize) -> (r: u64)
    ensures
        r as nat == spec_budget(len as nat),
{
    if len > 1000000000 {
        1000001000000
    } else {
        1000000 + 1000 * (len as u64)
    }
}

/// Matches the rule `main` against the status's input from its position.
pub fn parse(status: Status) -> (r: Result<(Status, Node), Error>)
    requires
        st_wf(status),
    ensures
        match r {
            Ok((st, node)) => {
                &&& eval(
                    status.rules@,
                    status.text2parse@,
                    ExprV::RuleName("main"@),
                    status.pos@.n,
                    spec_budget(status.text2parse@.len()),
                ) == Outcome::Matched(st.pos@.n as int, node@)
                &&& st_wf(st)
                &&& st_same_frame(st, status)
                &&& status.pos@.n <= st.pos@.n
            },
            Err(_) => !(eval(
                status.rules@,
                status.text2parse@,
                ExprV::RuleName("main"@),
                status.pos@.n,
                spec_budget(status.text2parse@.len()),
            ) is Matched),
        },
{
    let fuel = match_budget(status.text2parse.as_str().unicode_len());
    let main_expr = Expression::RuleName(String::from_str("main"));
    match parse_expr(status, &main_expr, fuel) {
        Ok((st, node)) => Ok((st, node)),
        Err(f) => Err(f.err),
    }
}

} // verus!
