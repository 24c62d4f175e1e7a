//! A parsing-expression-grammar (PEG) compiler and runtime.
//!
//! The crate compiles a declarative grammar into an executable rule set,
//! parses input text into a concrete tree, and renders that tree back into
//! derived text via per-rule rewrite templates attached to the grammar.

use vstd::prelude::*;
use crate::ast::{no_fns, render_node_spec, Node, Replaced};
use crate::ir::lines_from;
use crate::ir::to_rules::dec_rules_rec;
use crate::parser::expression::{eval, spec_budget, ExprV, Outcome, RuleInfoV, SetOfRules};
use crate::parser::Status;
use crate::rules_for_peg::meta_rules;

pub mod ast;
pub mod gcode;
pub mod ir;
pub mod parser;
pub mod rules_for_peg;

verus! {

/// A user-supplied hook resolving a function name to replacement text.
/// It holds a plain function pointer, a type the verifier does not
/// represent, so the struct is opaque and nothing is assumed of calls
/// through it.
#[verifier::external_body]
pub struct FnCallBack(pub fn(&str) -> Option<String>);

/// Relies on the user-supplied hook held in a [`FnCallBack`]; nothing is
/// assumed of its result.
#[verifier::external_body]
pub(crate) fn call_hook(cb: &FnCallBack, name: &str) -> (r: Option<String>) {
    (cb.0)(name)
}

/// Whether two strings hold the same characters.
pub fn str_eq(a: &str, b: &str) -> (r: bool)
    ensures
        r == (a@ == b@),
{
    let alen = a.unicode_len();
    let blen = b.unicode_len();
    if alen != blen {
        proof {
            if a@ == b@ {
                assert(a@.len() == b@.len());
            }
        }
        return false;
    }
    let mut i: usize = 0;
    while i < alen
        invariant
            i <= alen,
            alen == a@.len(),
            alen == b@.len(),
            forall|k: int| 0 <= k < i ==> a@[k] == b@[k],
        decreases alen - i,
    {
        if a.get_char(i) != b.get_char(i) {
            proof {
                if a@ == b@ {
                    assert(a@[i as int] == b@[i as int]);
                }
            }
            return false;
        }
        i += 1;
    }
    proof {
        assert(a@ =~= b@);
    }
    true
}

/// The errors the fluent API reports: a failed parse, a failed rendering,
/// or a malformed intermediate command stream.
#[derive(Debug)]
pub enum Error {
    /// The input did not match the grammar.
    ParserErr(crate::parser::Error),
    /// A completed tree lacked a referenced capture or function.
    ReplaceErr(String),
    /// The intermediate command stream was malformed.
    IRErr(crate::ir::Error),
}

/// What compiling a grammar text yields: the meta grammar must match the
/// whole text, the tree must render, and the rendered command stream must
/// decode.
pub open spec fn spec_gen_rules(s: Seq<char>) -> Option<Map<Seq<char>, RuleInfoV>> {
    match spec_parse(meta_rules(), s) {
        Outcome::Matched(p, nv) => if p == s.len() {
            match render_node_spec(nv, no_fns()) {
                Some(txt) => match dec_rules_rec(lines_from(txt, 0), 0, Map::empty()) {
                    Some((_, m)) => Some(m),
                    None => None,
                },
                None => None,
            }
        } else {
            None
        },
        _ => None,
    }
}

/// What matching the rule `main` of `rules` against the whole of `s` yields.
pub open spec fn spec_parse(rules: Map<Seq<char>, crate::parser::expression::RuleInfoV>, s: Seq<char>) -> Outcome {
    eval(rules, s, ExprV::RuleName("main"@), 0, spec_budget(s.len()))
}

/// Parses the whole input against the rule set's `main` rule.
pub fn parse(s: &str, rules: &SetOfRules) -> (r: Result<Node, crate::parser::Error>)
    ensures
        match r {
            Ok(node) => spec_parse(rules@, s@) == Outcome::Matched(s@.len() as int, node@),
            Err(_) => (spec_parse(rules@, s@) matches Outcome::Matched(p, _) ==> p != s@.len()),
        },
{
    parse_with_debug(s, rules, false)
}

/// Parses the whole input, recording the rule path for diagnostics.
pub fn parse_debug(s: &str, rules: &SetOfRules) -> (r: Result<Node, crate::parser::Error>)
    ensures
        match r {
            Ok(node) => spec_parse(rules@, s@) == Outcome::Matched(s@.len() as int, node@),
            Err(_) => (spec_parse(rules@, s@) matches Outcome::Matched(p, _) ==> p != s@.len()),
        },
{
    parse_with_debug(s, rules, true)
}

/// Parses the whole input against the rule set's `main` rule; a match that
/// leaves input unconsumed is reported as a failure, preferring the
/// furthest failure recovered from along the winning path.
pub fn parse_with_debug(s: &str, rules: &SetOfRules, debug: bool) -> (r: Result<
    Node,
    crate::parser::Error,
>)
    ensures
        match r {
            Ok(node) => spec_parse(rules@, s@) == Outcome::Matched(s@.len() as int, node@),
            Err(_) => (spec_parse(rules@, s@) matches Outcome::Matched(p, _) ==> p != s@.len()),
        },
{
    let status = if debug {
        Status::init_debug(s, rules, debug)
    } else {
        Status::init(s, rules)
    };
    match crate::parser::expression::parse(status) {
        Err(e) => Err(e),
        Ok((st, node)) => {
            let len = st.text2parse.as_str().unicode_len();
            if st.pos.n == len {
                Ok(node)
            } else {
                match st.potential_error {
                    Some(e) => Err(e),
                    None => Err(
                        crate::parser::Error::from_status_normal_simple(
                            &st,
                            "not consumed full input",
                        ),
                    ),
                }
            }
        },
    }
}

impl SetOfRules {
    /// Parses the input against this rule set's `main` rule.
    pub fn parse(&self, text: &str) -> (r: Result<Node, Error>)
        ensures
            match r {
                Ok(node) => spec_parse(self@, text@) == Outcome::Matched(
                    text@.len() as int,
                    node@,
                ),
                Err(_) => (spec_parse(self@, text@) matches Outcome::Matched(p, _) ==> p
                    != text@.len()),
            },
    {
        match crate::parse(text, self) {
            Ok(node) => Ok(node),
            Err(e) => Err(Error::ParserErr(e)),
        }
    }

    /// Parses the input, recording the rule path for diagnostics.
    pub fn parse_debug(&self, text: &str) -> (r: Result<Node, Error>)
        ensures
            match r {
                Ok(node) => spec_parse(self@, text@) == Outcome::Matched(
                    text@.len() as int,
                    node@,
                ),
                Err(_) => (spec_parse(self@, text@) matches Outcome::Matched(p, _) ==> p
                    != text@.len()),
            },
    {
        match crate::parse_debug(text, self) {
            Ok(node) => Ok(node),
            Err(e) => Err(Error::ParserErr(e)),
        }
    }
}

/// The grammar text the fluent API starts from.
pub struct Peg(String);

impl View for Peg {
    type V = Seq<char>;

    closed spec fn view(&self) -> Seq<char> {
        self.0@
    }
}

impl Peg {
    /// Wraps a grammar text.
    pub fn new(txt: &str) -> (r: Self)
        ensures
            r@ == txt@,
    {
        Peg(String::from_str(txt))
    }

    /// Compiles the grammar text into a rule set: the text is parsed with
    /// the grammar-description rules, the parse tree is rendered into the
    /// intermediate command stream, and the stream is decoded into native
    /// rules. The result is `Ok` exactly when every stage of that pipeline
    /// goes through, and then it is the decoded rule set.
    pub fn gen_rules(&self) -> (r: Result<SetOfRules, Error>)
        ensures
            match r {
                Ok(rules) => match spec_gen_rules(self@) {
                    Some(m) => rules@ =~= m,
                    None => false,
                },
                Err(_) => spec_gen_rules(self@) is None,
            },
    {
        let meta = crate::rules_for_peg::rules();
        let node = match meta.parse(self.0.as_str()) {
            Ok(n) => n,
            Err(e) => {
                return Err(e);
            },
        };
        let replaced = match node.replace(None) {
            Ok(rep) => rep,
            Err(e) => {
                return Err(e);
            },
        };
        let ir = crate::ir::Ir::new(replaced.str());
        match ir.get_rules() {
            Ok(rules) => Ok(rules),
            Err(e) => Err(Error::IRErr(e)),
        }
    }
}

impl Node {
    /// Renders the tree: every kept template is resolved bottom-up against
    /// its children, and the resulting texts are concatenated.
    pub fn replace(&self, fcallback: Option<&FnCallBack>) -> (r: Result<Replaced, Error>)
        ensures
            fcallback is None ==> match r {
                Ok(rep) => render_node_spec(self@, no_fns()) == Some(rep@),
                Err(e) => render_node_spec(self@, no_fns()) is None && e is ReplaceErr,
            },
            render_node_spec(self@, no_fns()) matches Some(s) ==> r matches Ok(rep) && rep@
                == s,
    {
        match crate::ast::replace_node(self, fcallback) {
            Ok(s) => Ok(Replaced(s)),
            Err(m) => Err(Error::ReplaceErr(m)),
        }
    }
}

} // verus!
