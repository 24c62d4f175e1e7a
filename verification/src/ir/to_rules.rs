//! The recursive-descent reader that rebuilds native rules from the
//! command stream.
//!
//! Each command tag consumes a statically fixed number of tokens;
//! distinguished terminator tokens delimit the variable-length lists, so a
//! reader returns to its caller instead of recursing further. An unknown
//! tag, a malformed numeric token or a premature end of the stream is a
//! fatal bootstrap failure. Every reader is specified against the spec
//! decoder `dec_expr` and its companions: it returns `Ok` exactly when the
//! spec decoder yields a value, and then returns that value.

use vstd::prelude::*;
use crate::ir::{cmds_view, Error, Ir};
use crate::parser::atom::{Atom, AtomV, MatchRules};
use crate::parser::expression::{
    Expression, ExprV, MetaExpr, MultiExpr, NRep, NamedExpr, RepInfo, ReplItem, ReplItemV,
    ReplTemplate, RuleInfo, RuleInfoV, SetOfRules, Transf2Expr,
};

verus! {

broadcast use vstd::seq::group_seq_axioms, vstd::std_specs::vec::group_vec_axioms;

/// Whether a character is a decimal digit.
pub open spec fn is_digit(c: char) -> bool {
    ('0' as u32) <= (c as u32) <= ('9' as u32)
}

/// The value of a decimal digit.
pub open spec fn digit_val(c: char) -> int {
    c as u32 - '0' as u32
}

/// Whether a text is all decimal digits.
pub open spec fn all_digits(s: Seq<char>) -> bool {
    forall|i: int| 0 <= i < s.len() ==> is_digit(#[trigger] s[i])
}

/// The value of a decimal numeral, most significant digit first.
pub open spec fn dec_val(s: Seq<char>) -> int
    decreases s.len(),
{
    if s.len() == 0 {
        0
    } else {
        dec_val(s.subrange(0, s.len() - 1)) * 10 + digit_val(s[s.len() - 1])
    }
}

/// Whether a text is a readable numeral whose value fits the machine.
pub open spec fn is_numeral(s: Seq<char>) -> bool {
    &&& s.len() > 0
    &&& all_digits(s)
    &&& dec_val(s) <= usize::MAX as int
}

/// Extending a numeral by a digit multiplies its value by ten and adds it.
proof fn lemma_dec_val_step(s: Seq<char>, i: int)
    requires
        0 <= i < s.len(),
    ensures
        dec_val(s.subrange(0, i + 1)) == dec_val(s.subrange(0, i)) * 10 + digit_val(s[i]),
{
    assert(s.subrange(0, i + 1).subrange(0, i) =~= s.subrange(0, i));
    assert(s.subrange(0, i + 1)[i] == s[i]);
}

/// A numeral of digits has a nonnegative value.
proof fn lemma_dec_val_nonneg(s: Seq<char>)
    requires
        all_digits(s),
    ensures
        dec_val(s) >= 0,
    decreases s.len(),
{
    if s.len() > 0 {
        assert(all_digits(s.subrange(0, s.len() - 1)));
        lemma_dec_val_nonneg(s.subrange(0, s.len() - 1));
        assert(dec_val(s.subrange(0, s.len() - 1)) * 10 >= 0) by (nonlinear_arith)
            requires
                dec_val(s.subrange(0, s.len() - 1)) >= 0,
        ;
        assert(is_digit(s[s.len() - 1]));
    }
}

/// Dropping trailing digits never increases a numeral's value.
proof fn lemma_dec_val_mono(s: Seq<char>, j: int)
    requires
        all_digits(s),
        0 <= j <= s.len(),
    ensures
        dec_val(s) >= dec_val(s.subrange(0, j)),
    decreases s.len() - j,
{
    if j < s.len() {
        lemma_dec_val_step(s, j);
        assert(all_digits(s.subrange(0, j)));
        lemma_dec_val_nonneg(s.subrange(0, j));
        assert(dec_val(s.subrange(0, j)) * 10 >= dec_val(s.subrange(0, j))) by (nonlinear_arith)
            requires
                dec_val(s.subrange(0, j)) >= 0,
        ;
        lemma_dec_val_mono(s, j + 1);
    } else {
        assert(s.subrange(0, s.len() as int) =~= s);
    }
}

/// Reads a decimal numeral: its value exactly when the text is a nonempty
/// digit string whose value fits, and nothing otherwise.
pub fn parse_usize(s: &str) -> (r: Option<usize>)
    ensures
        match r {
            Some(v) => is_numeral(s@) && v as int == dec_val(s@),
            None => !is_numeral(s@),
        },
{
    let len = s.unicode_len();
    if len == 0 {
        return None;
    }
    let mut acc: usize = 0;
    let mut i: usize = 0;
    while i < len
        invariant
            i <= len,
            len == s@.len(),
            all_digits(s@.subrange(0, i as int)),
            acc as int == dec_val(s@.subrange(0, i as int)),
        decreases len - i,
    {
        let c = s.get_char(i);
        if !(('0' <= c) && (c <= '9')) {
            proof {
                assert(!is_digit(s@[i as int]));
            }
            return None;
        }
        let d: usize = (c as u32 as usize) - ('0' as u32 as usize);
        proof {
            lemma_dec_val_step(s@, i as int);
        }
        if acc > usize::MAX / 10 || (acc == usize::MAX / 10 && d > usize::MAX % 10) {
            proof {
                assert(all_digits(s@.subrange(0, i + 1)));
                assert(dec_val(s@.subrange(0, i + 1)) > usize::MAX as int);
                if all_digits(s@) {
                    lemma_dec_val_mono(s@, i + 1);
                }
            }
            return None;
        }
        acc = acc * 10 + d;
        proof {
            assert(all_digits(s@.subrange(0, i + 1)));
        }
        i += 1;
    }
    proof {
        assert(s@.subrange(0, len as int) =~= s@);
    }
    Some(acc)
}

/// Whether a character counts as whitespace for description trimming.
pub open spec fn is_ws_char(c: char) -> bool {
    c == ' ' || c == '\t' || c == '\r' || c == '\n'
}

/// The first index at or after `i` holding a non-whitespace character, or
/// the text's length.
pub open spec fn ws_start(s: Seq<char>, i: int) -> int
    decreases s.len() - i,
{
    if i < 0 || i >= s.len() {
        s.len() as int
    } else if !is_ws_char(s[i]) {
        i
    } else {
        ws_start(s, i + 1)
    }
}

/// The index one past the last non-whitespace character below `i`, or zero.
pub open spec fn ws_end(s: Seq<char>, i: int) -> int
    decreases i,
{
    if i <= 0 {
        0
    } else if i > s.len() {
        ws_end(s, s.len() as int)
    } else if !is_ws_char(s[i - 1]) {
        i
    } else {
        ws_end(s, i - 1)
    }
}

/// The text with leading and trailing whitespace removed.
pub open spec fn trim_view(s: Seq<char>) -> Seq<char> {
    if ws_start(s, 0) >= s.len() {
        Seq::empty()
    } else {
        s.subrange(ws_start(s, 0), ws_end(s, s.len() as int))
    }
}

/// The end of the trimmed text lies beyond any non-whitespace index.
proof fn lemma_ws_end_above(s: Seq<char>, i: int, j: int)
    requires
        0 <= j < i <= s.len(),
        !is_ws_char(s[j]),
    ensures
        ws_end(s, i) > j,
    decreases i,
{
    if i - 1 > j && is_ws_char(s[i - 1]) {
        lemma_ws_end_above(s, i - 1, j);
    }
}

/// Removes leading and trailing whitespace.
pub fn trim(s: &str) -> (r: String)
    ensures
        r@ == trim_view(s@),
{
    let len = s.unicode_len();
    let mut a: usize = 0;
    while a < len && (s.get_char(a) == ' ' || s.get_char(a) == '\t' || s.get_char(a) == '\r'
        || s.get_char(a) == '\n')
        invariant
            a <= len,
            len == s@.len(),
            ws_start(s@, 0) == ws_start(s@, a as int),
        decreases len - a,
    {
        a += 1;
    }
    assert(ws_start(s@, 0) == a);
    if a == len {
        let r = String::from_str("");
        proof {
            reveal_strlit("");
            assert(r@ =~= trim_view(s@));
        }
        return r;
    }
    let mut b: usize = len;
    while b > a && (s.get_char(b - 1) == ' ' || s.get_char(b - 1) == '\t' || s.get_char(b - 1)
        == '\r' || s.get_char(b - 1) == '\n')
        invariant
            a < b <= len,
            len == s@.len(),
            a < len,
            !is_ws_char(s@[a as int]),
            ws_end(s@, len as int) == ws_end(s@, b as int),
        decreases b,
    {
        proof {
            if b - 1 == a {
                assert(is_ws_char(s@[a as int]));
            }
        }
        b -= 1;
    }
    proof {
        assert(ws_end(s@, b as int) == b);
    }
    String::from_str(s.substring_char(a, b))
}

/// The cursor for the next step of a list reader: past `pos`, within the
/// stream.
pub open spec fn next_pos(p: int, pos: int, len: int) -> int {
    if p <= pos {
        pos + 1
    } else if p > len {
        len
    } else {
        p
    }
}

/// What the spec decoder yields for one expression at `pos` of the command
/// lines `cs`: the cursor after the expression and its model, or nothing
/// when the stream is malformed there.
pub open spec fn dec_expr(cs: Seq<Seq<char>>, pos: int) -> Option<(int, ExprV)>
    decreases cs.len() - pos, 1int,
{
    if pos < 0 || pos >= cs.len() {
        None
    } else {
        let tag = cs[pos];
        if tag == "ATOM"@ {
            dec_atom(cs, pos + 1)
        } else if tag == "AND"@ {
            match dec_mexpr_rec(cs, pos + 1, Seq::empty()) {
                Some((p, es)) => Some((p, ExprV::And(es))),
                None => None,
            }
        } else if tag == "OR"@ {
            match dec_mexpr_rec(cs, pos + 1, Seq::empty()) {
                Some((p, es)) => Some((p, ExprV::Or(es))),
                None => None,
            }
        } else if tag == "REPEAT"@ {
            dec_repeat(cs, pos + 1)
        } else if tag == "MATCH"@ {
            dec_match(cs, pos + 1)
        } else if tag == "NAMED"@ {
            dec_named(cs, pos + 1)
        } else if tag == "NEGATE"@ {
            match dec_expr(cs, pos + 1) {
                Some((p, e)) => Some((p, ExprV::Not(Box::new(e)))),
                None => None,
            }
        } else if tag == "EXPECTED"@ {
            dec_expected(cs, pos + 1)
        } else if tag == "TRANSF2"@ {
            dec_transf2(cs, pos + 1)
        } else if tag == "PEEK"@ {
            match dec_expr(cs, pos + 1) {
                Some((p, e)) => Some((p, ExprV::Peek(Box::new(e)))),
                None => None,
            }
        } else {
            None
        }
    }
}

/// The spec decoder for an atom: the tag line picks the variant.
pub open spec fn dec_atom(cs: Seq<Seq<char>>, pos: int) -> Option<(int, ExprV)>
    decreases cs.len() - pos, 5int,
{
    if pos < 0 || pos >= cs.len() {
        None
    } else {
        let tag = cs[pos];
        if tag == "LIT"@ {
            if pos + 1 < cs.len() {
                Some((pos + 2, ExprV::Simple(AtomV::Literal(cs[pos + 1]))))
            } else {
                None
            }
        } else if tag == "RULREF"@ {
            if pos + 1 < cs.len() {
                Some((pos + 2, ExprV::RuleName(cs[pos + 1])))
            } else {
                None
            }
        } else if tag == "DOT"@ {
            Some((pos + 1, ExprV::Simple(AtomV::Dot)))
        } else if tag == "EOF"@ {
            Some((pos + 1, ExprV::Simple(AtomV::Eof)))
        } else {
            None
        }
    }
}

/// The spec decoder for an explicit failure directive.
pub open spec fn dec_expected(cs: Seq<Seq<char>>, pos: int) -> Option<(int, ExprV)> {
    if 0 <= pos < cs.len() {
        Some((pos + 1, ExprV::Simple(AtomV::Expected(cs[pos]))))
    } else {
        None
    }
}

/// The spec decoder for a named capture: the name line, then the wrapped
/// expression.
pub open spec fn dec_named(cs: Seq<Seq<char>>, pos: int) -> Option<(int, ExprV)>
    decreases cs.len() - pos, 5int,
{
    if pos < 0 || pos >= cs.len() {
        None
    } else {
        match dec_expr(cs, pos + 1) {
            Some((p, e)) => Some((p, ExprV::Named(cs[pos], Box::new(e)))),
            None => None,
        }
    }
}

/// The spec decoder for a repetition: the minimum line, the maximum-or-inf
/// line (the minimum may not exceed a bounded maximum), then the repeated
/// expression.
pub open spec fn dec_repeat(cs: Seq<Seq<char>>, pos: int) -> Option<(int, ExprV)>
    decreases cs.len() - pos, 5int,
{
    if pos < 0 || pos + 1 >= cs.len() {
        None
    } else if !is_numeral(cs[pos]) {
        None
    } else if cs[pos + 1] != "inf"@ && !is_numeral(cs[pos + 1]) {
        None
    } else {
        let mn = dec_val(cs[pos]);
        let maxo: Option<int> = if cs[pos + 1] == "inf"@ {
            None
        } else {
            Some(dec_val(cs[pos + 1]))
        };
        if (match maxo {
            Some(m) => mn > m,
            None => false,
        }) {
            None
        } else {
            match dec_expr(cs, pos + 2) {
                Some((p, e)) => Some((p, ExprV::Repeat(Box::new(e), mn, maxo))),
                None => None,
            }
        }
    }
}

/// The spec decoder for a character matcher: an optional character-set
/// part, then an optional bounds part.
pub open spec fn dec_match(cs: Seq<Seq<char>>, pos: int) -> Option<(int, ExprV)>
    decreases cs.len() - pos, 5int,
{
    match dec_match_chars(cs, pos) {
        None => None,
        Some((p1, chars)) => {
            let p1c = if p1 < pos {
                pos
            } else {
                p1
            };
            match dec_match_between(cs, p1c) {
                None => None,
                Some((p2, bounds)) => Some((p2, ExprV::Simple(AtomV::Match(chars, bounds)))),
            }
        },
    }
}

/// The spec decoder for the optional character-set part.
pub open spec fn dec_match_chars(cs: Seq<Seq<char>>, pos: int) -> Option<(int, Seq<char>)> {
    if 0 <= pos < cs.len() && cs[pos] == "CHARS"@ {
        if pos + 1 < cs.len() {
            Some((pos + 2, cs[pos + 1]))
        } else {
            None
        }
    } else {
        Some((pos, Seq::empty()))
    }
}

/// The spec decoder for the optional bounds part.
pub open spec fn dec_match_between(cs: Seq<Seq<char>>, pos: int) -> Option<
    (int, Seq<(char, char)>),
>
    decreases cs.len() - pos, 2int,
{
    if 0 <= pos < cs.len() && cs[pos] == "BETW"@ {
        dec_between_rec(cs, pos + 1, Seq::empty())
    } else {
        Some((pos, Seq::empty()))
    }
}

/// The spec decoder for bound pairs until the end-of-bounds command.
pub open spec fn dec_between_rec(cs: Seq<Seq<char>>, pos: int, acc: Seq<(char, char)>) -> Option<
    (int, Seq<(char, char)>),
>
    decreases cs.len() - pos, 1int,
{
    if 0 <= pos < cs.len() && cs[pos] == "EOBETW"@ {
        Some((pos + 1, acc))
    } else if pos < 0 || pos + 1 >= cs.len() {
        None
    } else if cs[pos].len() == 0 || cs[pos + 1].len() == 0 {
        None
    } else {
        dec_between_rec(cs, pos + 2, acc.push((cs[pos][0], cs[pos + 1][0])))
    }
}

/// The spec decoder for a template-attached sequence: the items, then the
/// wrapped expression.
pub open spec fn dec_transf2(cs: Seq<Seq<char>>, pos: int) -> Option<(int, ExprV)>
    decreases cs.len() - pos, 5int,
{
    match dec_t2items_rec(cs, pos, Seq::empty()) {
        None => None,
        Some((p1, items)) => {
            let p1c = if p1 < pos {
                pos
            } else if p1 > cs.len() {
                cs.len() as int
            } else {
                p1
            };
            match dec_expr(cs, p1c) {
                Some((p2, e)) => Some((p2, ExprV::Transf2(seq![e], items))),
                None => None,
            }
        },
    }
}

/// The spec decoder for template items until the end-of-template command.
pub open spec fn dec_t2items_rec(cs: Seq<Seq<char>>, pos: int, acc: Seq<ReplItemV>) -> Option<
    (int, Seq<ReplItemV>),
>
    decreases cs.len() - pos, 4int,
{
    if pos < 0 || pos >= cs.len() {
        None
    } else if cs[pos] == "EOTRANSF2"@ {
        Some((pos + 1, acc))
    } else {
        match dec_t2item(cs, pos) {
            None => None,
            Some((p, it)) => dec_t2items_rec(cs, next_pos(p, pos, cs.len() as int), acc.push(it)),
        }
    }
}

/// The spec decoder for one template item, picked by the tag line.
pub open spec fn dec_t2item(cs: Seq<Seq<char>>, pos: int) -> Option<(int, ReplItemV)> {
    if pos < 0 || pos >= cs.len() {
        None
    } else {
        let tag = cs[pos];
        if pos + 1 >= cs.len() {
            None
        } else if tag == "TEXT"@ {
            Some((pos + 2, ReplItemV::Text(cs[pos + 1])))
        } else if tag == "NAMED"@ {
            Some((pos + 2, ReplItemV::ByName(cs[pos + 1])))
        } else if tag == "NAMED_OPT"@ {
            Some((pos + 2, ReplItemV::ByNameOpt(cs[pos + 1])))
        } else if tag == "POS"@ {
            if is_numeral(cs[pos + 1]) {
                Some((pos + 2, ReplItemV::ByPos(dec_val(cs[pos + 1]))))
            } else {
                None
            }
        } else if tag == "FUNCT"@ {
            Some((pos + 2, ReplItemV::Function(cs[pos + 1])))
        } else {
            None
        }
    }
}

/// The spec decoder for one rule: the rule command, the name, the
/// description command, the description (trimmed; empty means none), then
/// the body.
pub open spec fn dec_rule(cs: Seq<Seq<char>>, pos: int) -> Option<(int, Seq<char>, RuleInfoV)>
    decreases cs.len() - pos, 6int,
{
    if pos < 0 || pos + 3 >= cs.len() {
        None
    } else if cs[pos] != "RULE"@ || cs[pos + 2] != "DESCR"@ {
        None
    } else {
        let descr: Option<Seq<char>> = if trim_view(cs[pos + 3]).len() == 0 {
            None
        } else {
            Some(trim_view(cs[pos + 3]))
        };
        match dec_expr(cs, pos + 4) {
            Some((p, e)) => Some((p, cs[pos + 1], RuleInfoV { expr: e, descr })),
            None => None,
        }
    }
}

/// The spec decoder for the whole stream: rules accumulate until the
/// end-of-program command, which is left unconsumed; a later rule of the
/// same name replaces the earlier one.
pub open spec fn dec_rules_rec(
    cs: Seq<Seq<char>>,
    pos: int,
    acc: Map<Seq<char>, RuleInfoV>,
) -> Option<(int, Map<Seq<char>, RuleInfoV>)>
    decreases cs.len() - pos, 7int,
{
    if pos < 0 || pos >= cs.len() {
        None
    } else if cs[pos] == "EOP"@ {
        Some((pos, acc))
    } else {
        match dec_rule(cs, pos) {
            None => None,
            Some((p, name, ri)) => dec_rules_rec(
                cs,
                next_pos(p, pos, cs.len() as int),
                acc.insert(name, ri),
            ),
        }
    }
}

/// Decodes rules until the end-of-program command, merging each into the
/// accumulated set.
pub fn get_rule_rec(ir: Ir, rules: SetOfRules) -> (r: Result<(Ir, SetOfRules), Error>)
    requires
        ir.pos <= ir.commands@.len(),
    ensures
        match r {
            Ok((ir2, out)) => {
                &&& ir2.commands == ir.commands
                &&& ir.pos <= ir2.pos <= ir2.commands@.len()
                &&& match dec_rules_rec(cmds_view(ir.commands@), ir.pos as int, rules@) {
                    Some((p, m)) => ir2.pos == p && out@ =~= m,
                    None => false,
                }
            },
            Err(_) => dec_rules_rec(cmds_view(ir.commands@), ir.pos as int, rules@) is None,
        },
    decreases ir.commands@.len() - ir.pos, 7int,
{
    let ghost cs = cmds_view(ir.commands@);
    let is_eop = match ir.peek() {
        Some(c) => crate::str_eq(c.0.as_str(), "EOP"),
        None => false,
    };
    if is_eop {
        Ok((ir, rules))
    } else {
        match get_rule(ir) {
            Err(e) => Err(e),
            Ok((ir2, name, info)) => {
                let ghost nm = name@;
                let ghost ri = info@;
                let single = SetOfRules::empty().add(name.as_str(), info);
                let merged = rules.merge(single);
                proof {
                    assert(merged@ =~= rules@.insert(nm, ri));
                }
                get_rule_rec(ir2, merged)
            },
        }
    }
}

/// Decodes one expression: the tag command picks the variant.
pub fn get_expr(ir: Ir) -> (r: Result<(Ir, Expression), Error>)
    requires
        ir.pos <= ir.commands@.len(),
    ensures
        match r {
            Ok((ir2, e)) => {
                &&& ir2.commands == ir.commands
                &&& ir.pos < ir2.pos <= ir2.commands@.len()
                &&& match dec_expr(cmds_view(ir.commands@), ir.pos as int) {
                    Some((p, ev)) => ir2.pos == p && e@ == ev,
                    None => false,
                }
            },
            Err(_) => dec_expr(cmds_view(ir.commands@), ir.pos as int) is None,
        },
    decreases ir.commands@.len() - ir.pos, 1int,
{
    let ghost cs = cmds_view(ir.commands@);
    match ir.get() {
        Err(e) => Err(e),
        Ok((ir, cmd)) => {
            let tag = cmd.0.as_str();
            if crate::str_eq(tag, "ATOM") {
                get_atom(ir)
            } else if crate::str_eq(tag, "AND") {
                match get_mexpr(ir) {
                    Err(e) => Err(e),
                    Ok((ir, mexpr)) => Ok((ir, Expression::And(mexpr))),
                }
            } else if crate::str_eq(tag, "OR") {
                match get_mexpr(ir) {
                    Err(e) => Err(e),
                    Ok((ir, mexpr)) => Ok((ir, Expression::Or(mexpr))),
                }
            } else if crate::str_eq(tag, "REPEAT") {
                get_repeat(ir)
            } else if crate::str_eq(tag, "MATCH") {
                get_match(ir)
            } else if crate::str_eq(tag, "NAMED") {
                get_named(ir)
            } else if crate::str_eq(tag, "NEGATE") {
                match get_expr(ir) {
                    Err(e) => Err(e),
                    Ok((ir, expr)) => Ok((ir, Expression::Not(Box::new(expr)))),
                }
            } else if crate::str_eq(tag, "EXPECTED") {
                get_expected(ir)
            } else if crate::str_eq(tag, "TRANSF2") {
                get_transf2(ir)
            } else if crate::str_eq(tag, "PEEK") {
                match get_expr(ir) {
                    Err(e) => Err(e),
                    Ok((ir, expr)) => Ok((ir, Expression::Peek(Box::new(expr)))),
                }
            } else {
                let msg = String::from_str("unknown cmd reading expression <").concat(tag).concat(
                    ">",
                );
                Err(Error(msg))
            }
        },
    }
}

/// Decodes a template-attached sequence: the template items, then the
/// wrapped expression.
pub fn get_transf2(ir: Ir) -> (r: Result<(Ir, Expression), Error>)
    requires
        ir.pos <= ir.commands@.len(),
    ensures
        match r {
            Ok((ir2, e)) => {
                &&& ir2.commands == ir.commands
                &&& ir.pos < ir2.pos <= ir2.commands@.len()
                &&& match dec_transf2(cmds_view(ir.commands@), ir.pos as int) {
                    Some((p, ev)) => ir2.pos == p && e@ == ev,
                    None => false,
                }
            },
            Err(_) => dec_transf2(cmds_view(ir.commands@), ir.pos as int) is None,
        },
    decreases ir.commands@.len() - ir.pos, 5int,
{
    let ghost cs = cmds_view(ir.commands@);
    let ghost pos0 = ir.pos as int;
    match get_transf2_items_rec(ir, ReplTemplate::empty()) {
        Err(e) => Err(e),
        Ok((ir, repl_templ)) => {
            proof {
                assert(dec_t2items_rec(cs, pos0, Seq::empty()) matches Some((p, _)) && p
                    == ir.pos as int);
            }
            match get_expr(ir) {
                Err(e) => Err(e),
                Ok((ir, expr)) => {
                    let ghost ev = expr@;
                    let exprs: Vec<Expression> = vec![expr];
                    proof {
                        crate::parser::expression::lemma_exprs_view(exprs@);
                        assert(crate::parser::expression::exprs_view(exprs@) =~= seq![ev]);
                    }
                    Ok(
                        (
                            ir,
                            Expression::MetaExpr(
                                MetaExpr::Transf2(
                                    Transf2Expr {
                                        mexpr: MultiExpr(exprs),
                                        transf2_rules: repl_templ,
                                    },
                                ),
                            ),
                        ),
                    )
                },
            }
        },
    }
}

/// Decodes one template item, picked by the tag under the cursor.
pub fn get_transf2_item(ir: Ir) -> (r: Result<(Ir, ReplItem), Error>)
    requires
        ir.pos <= ir.commands@.len(),
    ensures
        match r {
            Ok((ir2, it)) => {
                &&& ir2.commands == ir.commands
                &&& ir.pos < ir2.pos <= ir2.commands@.len()
                &&& match dec_t2item(cmds_view(ir.commands@), ir.pos as int) {
                    Some((p, itv)) => ir2.pos == p && it@ == itv,
                    None => false,
                }
            },
            Err(_) => dec_t2item(cmds_view(ir.commands@), ir.pos as int) is None,
        },
    decreases ir.commands@.len() - ir.pos, 3int,
{
    match ir.peek() {
        None => Err(Error(String::from_str("Missing transf2 item"))),
        Some(c) => {
            let tag = c.0.as_str();
            if crate::str_eq(tag, "TEXT") {
                match get_transf2_text(ir) {
                    Err(e) => Err(e),
                    Ok((ir, txt)) => Ok((ir, ReplItem::Text(txt))),
                }
            } else if crate::str_eq(tag, "NAMED") {
                match get_transf2_named(ir) {
                    Err(e) => Err(e),
                    Ok((ir, txt)) => Ok((ir, ReplItem::ByName(txt))),
                }
            } else if crate::str_eq(tag, "NAMED_OPT") {
                match get_transf2_named(ir) {
                    Err(e) => Err(e),
                    Ok((ir, txt)) => Ok((ir, ReplItem::ByNameOpt(txt))),
                }
            } else if crate::str_eq(tag, "POS") {
                match get_transf2_pos(ir) {
                    Err(e) => Err(e),
                    Ok((ir, pos)) => Ok((ir, ReplItem::ByPos(pos))),
                }
            } else if crate::str_eq(tag, "FUNCT") {
                match get_transf2_named(ir) {
                    Err(e) => Err(e),
                    Ok((ir, txt)) => Ok((ir, ReplItem::Function(txt))),
                }
            } else {
                let msg = String::from_str("unexpected command reading get_transf2 <").concat(
                    tag,
                ).concat(">");
                Err(Error(msg))
            }
        },
    }
}

/// Decodes template items until the end-of-template command.
pub fn get_transf2_items_rec(ir: Ir, repl_templ: ReplTemplate) -> (r: Result<
    (Ir, ReplTemplate),
    Error,
>)
    requires
        ir.pos <= ir.commands@.len(),
    ensures
        match r {
            Ok((ir2, t)) => {
                &&& ir2.commands == ir.commands
                &&& ir.pos < ir2.pos <= ir2.commands@.len()
                &&& match dec_t2items_rec(cmds_view(ir.commands@), ir.pos as int, repl_templ@) {
                    Some((p, items)) => ir2.pos == p && t@ == items,
                    None => false,
                }
            },
            Err(_) => dec_t2items_rec(cmds_view(ir.commands@), ir.pos as int, repl_templ@)
                is None,
        },
    decreases ir.commands@.len() - ir.pos, 4int,
{
    let ghost cs = cmds_view(ir.commands@);
    let ghost pos0 = ir.pos as int;
    let is_end = match ir.peek() {
        Some(c) => crate::str_eq(c.0.as_str(), "EOTRANSF2"),
        None => false,
    };
    if is_end {
        match ir.get() {
            Err(e) => Err(e),
            Ok((ir, _)) => Ok((ir, repl_templ)),
        }
    } else {
        match get_transf2_item(ir) {
            Err(e) => Err(e),
            Ok((ir, item)) => {
                let ghost itv = item@;
                get_transf2_items_rec(ir, repl_templ.ipush(item))
            },
        }
    }
}

/// Reads a tag and the name line that follows it.
pub fn get_transf2_named(ir: Ir) -> (r: Result<(Ir, String), Error>)
    requires
        ir.pos <= ir.commands@.len(),
    ensures
        match r {
            Ok((ir2, name)) => {
                &&& ir2.commands == ir.commands
                &&& ir2.pos == ir.pos + 2
                &&& ir2.pos <= ir2.commands@.len()
                &&& name@ == cmds_view(ir.commands@)[ir.pos + 1]
            },
            Err(_) => ir.pos + 2 > ir.commands@.len(),
        },
{
    match ir.get() {
        Err(e) => Err(e),
        Ok((ir, _)) => match ir.get() {
            Err(e) => Err(e),
            Ok((ir, named)) => Ok((ir, named.0)),
        },
    }
}

/// Reads a tag and the position line that follows it.
pub fn get_transf2_pos(ir: Ir) -> (r: Result<(Ir, usize), Error>)
    requires
        ir.pos <= ir.commands@.len(),
    ensures
        match r {
            Ok((ir2, v)) => {
                &&& ir2.commands == ir.commands
                &&& ir2.pos == ir.pos + 2
                &&& ir2.pos <= ir2.commands@.len()
                &&& is_numeral(cmds_view(ir.commands@)[ir.pos + 1])
                &&& v as int == dec_val(cmds_view(ir.commands@)[ir.pos + 1])
            },
            Err(_) => ir.pos + 2 > ir.commands@.len() || !is_numeral(
                cmds_view(ir.commands@)[ir.pos + 1],
            ),
        },
{
    match ir.get() {
        Err(e) => Err(e),
        Ok((ir, _)) => match ir.get() {
            Err(e) => Err(e),
            Ok((ir, str_pos)) => match parse_usize(str_pos.0.as_str()) {
                Some(pos) => Ok((ir, pos)),
                None => Err(Error(String::from_str("Failed reading pos transformation"))),
            },
        },
    }
}

/// Reads a tag and the text line that follows it.
pub fn get_transf2_text(ir: Ir) -> (r: Result<(Ir, String), Error>)
    requires
        ir.pos <= ir.commands@.len(),
    ensures
        match r {
            Ok((ir2, txt)) => {
                &&& ir2.commands == ir.commands
                &&& ir2.pos == ir.pos + 2
                &&& ir2.pos <= ir2.commands@.len()
                &&& txt@ == cmds_view(ir.commands@)[ir.pos + 1]
            },
            Err(_) => ir.pos + 2 > ir.commands@.len(),
        },
{
    match ir.get() {
        Err(e) => Err(e),
        Ok((ir, _)) => match ir.get() {
            Err(e) => Err(e),
            Ok((ir, txt)) => Ok((ir, txt.0)),
        },
    }
}

/// Decodes an explicit failure directive: the message line.
pub fn get_expected(ir: Ir) -> (r: Result<(Ir, Expression), Error>)
    requires
        ir.pos <= ir.commands@.len(),
    ensures
        match r {
            Ok((ir2, e)) => {
                &&& ir2.commands == ir.commands
                &&& ir.pos < ir2.pos <= ir2.commands@.len()
                &&& match dec_expected(cmds_view(ir.commands@), ir.pos as int) {
                    Some((p, ev)) => ir2.pos == p && e@ == ev,
                    None => false,
                }
            },
            Err(_) => dec_expected(cmds_view(ir.commands@), ir.pos as int) is None,
        },
{
    match ir.get() {
        Err(e) => Err(e),
        Ok((ir, msg)) => Ok((ir, Expression::Simple(Atom::Expected(msg.0)))),
    }
}

/// Decodes a named capture: the name line, then the wrapped expression.
pub fn get_named(ir: Ir) -> (r: Result<(Ir, Expression), Error>)
    requires
        ir.pos <= ir.commands@.len(),
    ensures
        match r {
            Ok((ir2, e)) => {
                &&& ir2.commands == ir.commands
                &&& ir.pos < ir2.pos <= ir2.commands@.len()
                &&& match dec_named(cmds_view(ir.commands@), ir.pos as int) {
                    Some((p, ev)) => ir2.pos == p && e@ == ev,
                    None => false,
                }
            },
            Err(_) => dec_named(cmds_view(ir.commands@), ir.pos as int) is None,
        },
    decreases ir.commands@.len() - ir.pos, 5int,
{
    match ir.get() {
        Err(e) => Err(e),
        Ok((ir, n)) => match get_expr(ir) {
            Err(e) => Err(e),
            Ok((ir, expr)) => Ok(
                (
                    ir,
                    Expression::MetaExpr(
                        MetaExpr::Named(NamedExpr { name: n.0, expr: Box::new(expr) }),
                    ),
                ),
            ),
        },
    }
}

/// Decodes a character matcher: an optional character set, then optional
/// bounds.
pub fn get_match(ir: Ir) -> (r: Result<(Ir, Expression), Error>)
    requires
        ir.pos <= ir.commands@.len(),
    ensures
        match r {
            Ok((ir2, e)) => {
                &&& ir2.commands == ir.commands
                &&& ir.pos <= ir2.pos <= ir2.commands@.len()
                &&& match dec_match(cmds_view(ir.commands@), ir.pos as int) {
                    Some((p, ev)) => ir2.pos == p && e@ == ev,
                    None => false,
                }
            },
            Err(_) => dec_match(cmds_view(ir.commands@), ir.pos as int) is None,
        },
    decreases ir.commands@.len() - ir.pos, 5int,
{
    let ghost cs = cmds_view(ir.commands@);
    let ghost pos0 = ir.pos as int;
    match get_match_chars(ir) {
        Err(e) => Err(e),
        Ok((ir, chars)) => match get_match_between(ir) {
            Err(e) => Err(e),
            Ok((ir, between)) => {
                let amatch = Atom::Match(MatchRules::init(chars.as_str(), between));
                Ok((ir, Expression::Simple(amatch)))
            },
        },
    }
}

/// Decodes the optional character-set part of a matcher.
pub fn get_match_chars(ir: Ir) -> (r: Result<(Ir, String), Error>)
    requires
        ir.pos <= ir.commands@.len(),
    ensures
        match r {
            Ok((ir2, chars)) => {
                &&& ir2.commands == ir.commands
                &&& ir.pos <= ir2.pos <= ir2.commands@.len()
                &&& match dec_match_chars(cmds_view(ir.commands@), ir.pos as int) {
                    Some((p, cv)) => ir2.pos == p && chars@ == cv,
                    None => false,
                }
            },
            Err(_) => dec_match_chars(cmds_view(ir.commands@), ir.pos as int) is None,
        },
    decreases ir.commands@.len() - ir.pos, 2int,
{
    let has_chars = match ir.peek() {
        Some(c) => crate::str_eq(c.0.as_str(), "CHARS"),
        None => false,
    };
    if has_chars {
        match ir.get() {
            Err(e) => Err(e),
            Ok((ir, _)) => match ir.get() {
                Err(e) => Err(e),
                Ok((ir, c)) => Ok((ir, c.0)),
            },
        }
    } else {
        let empty = String::from_str("");
        proof {
            reveal_strlit("");
            assert(empty@ =~= Seq::<char>::empty());
        }
        Ok((ir, empty))
    }
}

/// Decodes the optional bounds part of a matcher.
pub fn get_match_between(ir: Ir) -> (r: Result<(Ir, Vec<(char, char)>), Error>)
    requires
        ir.pos <= ir.commands@.len(),
    ensures
        match r {
            Ok((ir2, v)) => {
                &&& ir2.commands == ir.commands
                &&& ir.pos <= ir2.pos <= ir2.commands@.len()
                &&& match dec_match_between(cmds_view(ir.commands@), ir.pos as int) {
                    Some((p, bv)) => ir2.pos == p && v@ == bv,
                    None => false,
                }
            },
            Err(_) => dec_match_between(cmds_view(ir.commands@), ir.pos as int) is None,
        },
    decreases ir.commands@.len() - ir.pos, 2int,
{
    let has_betw = match ir.peek() {
        Some(c) => crate::str_eq(c.0.as_str(), "BETW"),
        None => false,
    };
    if has_betw {
        match ir.get() {
            Err(e) => Err(e),
            Ok((ir, _)) => {
                let acc: Vec<(char, char)> = Vec::new();
                proof {
                    assert(acc@ =~= Seq::<(char, char)>::empty());
                }
                get_between_rec(ir, acc)
            },
        }
    } else {
        let v: Vec<(char, char)> = Vec::new();
        proof {
            assert(v@ =~= Seq::<(char, char)>::empty());
        }
        Ok((ir, v))
    }
}

/// Decodes bound pairs, two character lines each, until the end-of-bounds
/// command.
pub fn get_between_rec(ir: Ir, v: Vec<(char, char)>) -> (r: Result<(Ir, Vec<(char, char)>), Error>)
    requires
        ir.pos <= ir.commands@.len(),
    ensures
        match r {
            Ok((ir2, v2)) => {
                &&& ir2.commands == ir.commands
                &&& ir.pos < ir2.pos <= ir2.commands@.len()
                &&& match dec_between_rec(cmds_view(ir.commands@), ir.pos as int, v@) {
                    Some((p, bv)) => ir2.pos == p && v2@ == bv,
                    None => false,
                }
            },
            Err(_) => dec_between_rec(cmds_view(ir.commands@), ir.pos as int, v@) is None,
        },
    decreases ir.commands@.len() - ir.pos, 1int,
{
    let is_end = match ir.peek() {
        Some(c) => crate::str_eq(c.0.as_str(), "EOBETW"),
        None => false,
    };
    if is_end {
        match ir.get() {
            Err(e) => Err(e),
            Ok((ir, _)) => Ok((ir, v)),
        }
    } else {
        match ir.get() {
            Err(e) => Err(e),
            Ok((ir, c1)) => match ir.get() {
                Err(e) => Err(e),
                Ok((ir, c2)) => {
                    if c1.0.as_str().unicode_len() == 0 || c2.0.as_str().unicode_len() == 0 {
                        return Err(Error(String::from_str("expected char")));
                    }
                    let ch1 = c1.0.as_str().get_char(0);
                    let ch2 = c2.0.as_str().get_char(0);
                    let v = ivec_push_bound(v, (ch1, ch2));
                    get_between_rec(ir, v)
                },
            },
        }
    }
}

/// Relies on idata's `IVec::ipush` for `Vec`: pushes the value and returns
/// the same vector.
#[verifier::external_body]
fn ivec_push_bound(v: Vec<(char, char)>, b: (char, char)) -> (r: Vec<(char, char)>)
    ensures
        r@ == v@.push(b),
{
    idata::cont::IVec::ipush(v, b)
}

/// Decodes a repetition: the minimum line, the maximum-or-`inf` line (a
/// bounded maximum below the minimum is rejected), then the repeated
/// expression.
pub fn get_repeat(ir: Ir) -> (r: Result<(Ir, Expression), Error>)
    requires
        ir.pos <= ir.commands@.len(),
    ensures
        match r {
            Ok((ir2, e)) => {
                &&& ir2.commands == ir.commands
                &&& ir.pos < ir2.pos <= ir2.commands@.len()
                &&& match dec_repeat(cmds_view(ir.commands@), ir.pos as int) {
                    Some((p, ev)) => ir2.pos == p && e@ == ev,
                    None => false,
                }
            },
            Err(_) => dec_repeat(cmds_view(ir.commands@), ir.pos as int) is None,
        },
    decreases ir.commands@.len() - ir.pos, 5int,
{
    match ir.get() {
        Err(e) => Err(e),
        Ok((ir, min_cmd)) => {
            let min = match parse_usize(min_cmd.0.as_str()) {
                Some(v) => v,
                None => {
                    return Err(Error(String::from_str("getting min size")));
                },
            };
            match ir.get() {
                Err(e) => Err(e),
                Ok((ir, max_cmd)) => {
                    let max: Option<NRep> = if crate::str_eq(max_cmd.0.as_str(), "inf") {
                        None
                    } else {
                        match parse_usize(max_cmd.0.as_str()) {
                            Some(v) => Some(NRep(v)),
                            None => {
                                return Err(Error(String::from_str("getting max size")));
                            },
                        }
                    };
                    let out_of_order = match &max {
                        Some(m) => min > m.0,
                        None => false,
                    };
                    if out_of_order {
                        return Err(Error(String::from_str("repetition minimum above maximum")));
                    }
                    match get_expr(ir) {
                        Err(e) => Err(e),
                        Ok((ir, expr)) => Ok(
                            (
                                ir,
                                Expression::Repeat(
                                    RepInfo {
                                        expression: Box::new(expr),
                                        min: NRep(min),
                                        max,
                                    },
                                ),
                            ),
                        ),
                    }
                },
            }
        },
    }
}

/// Decodes an alternative list until the closing command.
pub fn get_mexpr(ir: Ir) -> (r: Result<(Ir, MultiExpr), Error>)
    requires
        ir.pos <= ir.commands@.len(),
    ensures
        match r {
            Ok((ir2, me)) => {
                &&& ir2.commands == ir.commands
                &&& ir.pos < ir2.pos <= ir2.commands@.len()
                &&& match dec_mexpr_rec(cmds_view(ir.commands@), ir.pos as int, Seq::empty()) {
                    Some((p, es)) => ir2.pos == p && me@ == es,
                    None => false,
                }
            },
            Err(_) => dec_mexpr_rec(cmds_view(ir.commands@), ir.pos as int, Seq::empty())
                is None,
        },
    decreases ir.commands@.len() - ir.pos, 3int,
{
    let me = MultiExpr::new(Vec::new());
    proof {
        crate::parser::expression::lemma_exprs_view(Seq::empty());
        assert(me@ =~= Seq::<ExprV>::empty());
    }
    get_mexpr_rec(ir, me)
}

/// The spec decoder for an alternative list until the closing command.
pub open spec fn dec_mexpr_rec(cs: Seq<Seq<char>>, pos: int, acc: Seq<ExprV>) -> Option<
    (int, Seq<ExprV>),
>
    decreases cs.len() - pos, 2int,
{
    if pos < 0 || pos >= cs.len() {
        None
    } else if cs[pos] == "CLOSE_MEXPR"@ {
        Some((pos + 1, acc))
    } else {
        match dec_expr(cs, pos) {
            None => None,
            Some((p, e)) => dec_mexpr_rec(cs, next_pos(p, pos, cs.len() as int), acc.push(e)),
        }
    }
}

/// Decodes expressions into an alternative list until the closing command.
pub fn get_mexpr_rec(ir: Ir, me: MultiExpr) -> (r: Result<(Ir, MultiExpr), Error>)
    requires
        ir.pos <= ir.commands@.len(),
    ensures
        match r {
            Ok((ir2, me2)) => {
                &&& ir2.commands == ir.commands
                &&& ir.pos < ir2.pos <= ir2.commands@.len()
                &&& match dec_mexpr_rec(cmds_view(ir.commands@), ir.pos as int, me@) {
                    Some((p, es)) => ir2.pos == p && me2@ == es,
                    None => false,
                }
            },
            Err(_) => dec_mexpr_rec(cmds_view(ir.commands@), ir.pos as int, me@) is None,
        },
    decreases ir.commands@.len() - ir.pos, 2int,
{
    let is_close = match ir.peek() {
        Some(c) => crate::str_eq(c.0.as_str(), "CLOSE_MEXPR"),
        None => false,
    };
    if is_close {
        match ir.get() {
            Err(e) => Err(e),
            Ok((ir, _)) => Ok((ir, me)),
        }
    } else {
        match get_expr(ir) {
            Err(e) => Err(e),
            Ok((ir, e)) => get_mexpr_rec(ir, me.ipush(e)),
        }
    }
}

/// Decodes an atom: a literal, a rule reference, a dot or an end-of-input.
pub fn get_atom(ir: Ir) -> (r: Result<(Ir, Expression), Error>)
    requires
        ir.pos <= ir.commands@.len(),
    ensures
        match r {
            Ok((ir2, e)) => {
                &&& ir2.commands == ir.commands
                &&& ir.pos < ir2.pos <= ir2.commands@.len()
                &&& match dec_atom(cmds_view(ir.commands@), ir.pos as int) {
                    Some((p, ev)) => ir2.pos == p && e@ == ev,
                    None => false,
                }
            },
            Err(_) => dec_atom(cmds_view(ir.commands@), ir.pos as int) is None,
        },
    decreases ir.commands@.len() - ir.pos, 5int,
{
    match ir.get() {
        Err(e) => Err(e),
        Ok((ir, cmd)) => {
            let tag = cmd.0.as_str();
            if crate::str_eq(tag, "LIT") {
                get_lit(ir)
            } else if crate::str_eq(tag, "RULREF") {
                get_rulref(ir)
            } else if crate::str_eq(tag, "DOT") {
                Ok((ir, Expression::Simple(Atom::Dot)))
            } else if crate::str_eq(tag, "EOF") {
                Ok((ir, Expression::Simple(Atom::Eof)))
            } else {
                let msg = String::from_str("unknown cmd reading atom <").concat(tag).concat(">");
                Err(Error(msg))
            }
        },
    }
}

/// Decodes a rule reference: the rule-name line.
pub fn get_rulref(ir: Ir) -> (r: Result<(Ir, Expression), Error>)
    requires
        ir.pos <= ir.commands@.len(),
    ensures
        match r {
            Ok((ir2, e)) => {
                &&& ir2.commands == ir.commands
                &&& ir2.pos == ir.pos + 1
                &&& ir2.pos <= ir2.commands@.len()
                &&& e@ == ExprV::RuleName(cmds_view(ir.commands@)[ir.pos as int])
            },
            Err(_) => ir.pos >= ir.commands@.len(),
        },
    decreases ir.commands@.len() - ir.pos, 0int,
{
    match ir.get() {
        Err(e) => Err(e),
        Ok((ir, cmd)) => Ok((ir, Expression::RuleName(cmd.0))),
    }
}

/// Decodes a literal: the literal line.
pub fn get_lit(ir: Ir) -> (r: Result<(Ir, Expression), Error>)
    requires
        ir.pos <= ir.commands@.len(),
    ensures
        match r {
            Ok((ir2, e)) => {
                &&& ir2.commands == ir.commands
                &&& ir2.pos == ir.pos + 1
                &&& ir2.pos <= ir2.commands@.len()
                &&& e@ == ExprV::Simple(AtomV::Literal(cmds_view(ir.commands@)[ir.pos as int]))
            },
            Err(_) => ir.pos >= ir.commands@.len(),
        },
    decreases ir.commands@.len() - ir.pos, 0int,
{
    match ir.get() {
        Err(e) => Err(e),
        Ok((ir, cmd)) => Ok((ir, Expression::Simple(Atom::Literal(cmd.0)))),
    }
}

/// Decodes one rule: the rule command, the name, the description command,
/// the trimmed description line, then the body.
pub fn get_rule(ir: Ir) -> (r: Result<(Ir, String, RuleInfo), Error>)
    requires
        ir.pos <= ir.commands@.len(),
    ensures
        match r {
            Ok((ir2, name, info)) => {
                &&& ir2.commands == ir.commands
                &&& ir.pos < ir2.pos <= ir2.commands@.len()
                &&& match dec_rule(cmds_view(ir.commands@), ir.pos as int) {
                    Some((p, nm, ri)) => ir2.pos == p && name@ == nm && info@ == ri,
                    None => false,
                }
            },
            Err(_) => dec_rule(cmds_view(ir.commands@), ir.pos as int) is None,
        },
    decreases ir.commands@.len() - ir.pos, 6int,
{
    match ir.consume("RULE") {
        Err(e) => Err(e),
        Ok(ir) => match ir.get() {
            Err(e) => Err(e),
            Ok((ir, name)) => match ir.consume("DESCR") {
                Err(e) => Err(e),
                Ok(ir) => match ir.get() {
                    Err(e) => Err(e),
                    Ok((ir, descr_cmd)) => {
                        let trimmed = trim(descr_cmd.0.as_str());
                        let descr: Option<String> = if trimmed.as_str().unicode_len() == 0 {
                            None
                        } else {
                            Some(trimmed)
                        };
                        match get_expr(ir) {
                            Err(e) => Err(e),
                            Ok((ir, expr)) => Ok((ir, name.0, RuleInfo { expr, descr })),
                        }
                    },
                },
            },
        },
    }
}

} // verus!
