//! The minimum expression elements and their matchers.
//!
//! An [`Atom`] either matches at the cursor and consumes a fixed piece of
//! input, or fails atomically, consuming nothing.

use vstd::prelude::*;
use crate::ast::{Node, NodeV};
use crate::parser::{
    opt_error_view, pos_at, st_same_frame, st_wf, ErrPriority, Error, ErrorAlternatives, Status,
};

verus! {

broadcast use vstd::seq::group_seq_axioms, vstd::std_specs::vec::group_vec_axioms;

/// A minimum expression element.
#[derive(Debug, PartialEq)]
pub enum Atom {
    /// A literal string: matches the whole string or fails.
    Literal(String),
    /// One character, against an explicit set and inclusive ranges.
    Match(MatchRules),
    /// Always fails, carrying an author-chosen diagnostic.
    Expected(String),
    /// Any one character; fails only at end of input.
    Dot,
    /// Succeeds, consuming nothing, only at end of input.
    Eof,
}

/// The character set and the inclusive ranges a `Match` accepts.
#[derive(Debug, PartialEq)]
pub struct MatchRules(pub String, pub Vec<(char, char)>);

/// Mathematical model of an atom.
#[verifier::ext_equal]
pub ghost enum AtomV {
    Literal(Seq<char>),
    Match(Seq<char>, Seq<(char, char)>),
    Expected(Seq<char>),
    Dot,
    Eof,
}

impl View for Atom {
    type V = AtomV;

    open spec fn view(&self) -> AtomV {
        match self {
            Atom::Literal(s) => AtomV::Literal(s@),
            Atom::Match(mr) => AtomV::Match(mr.0@, mr.1@),
            Atom::Expected(s) => AtomV::Expected(s@),
            Atom::Dot => AtomV::Dot,
            Atom::Eof => AtomV::Eof,
        }
    }
}

impl MatchRules {
    /// A matcher from a character set and a list of inclusive bounds.
    pub fn init(s: &str, bounds: Vec<(char, char)>) -> (r: Self)
        ensures
            r.0@ == s@,
            r.1 == bounds,
    {
        MatchRules(String::from_str(s), bounds)
    }

    /// A matcher that accepts nothing.
    pub fn new() -> (r: Self)
        ensures
            r.0@ == Seq::<char>::empty(),
            r.1@ == Seq::<(char, char)>::empty(),
    {
        let r = MatchRules(String::from_str(""), Vec::new());
        proof {
            reveal_strlit("");
            assert(r.0@ =~= Seq::<char>::empty());
        }
        r
    }

    /// The same matcher with the character set replaced.
    pub fn with_chars(self, chrs: &str) -> (r: Self)
        ensures
            r.0@ == chrs@,
            r.1 == self.1,
    {
        MatchRules(String::from_str(chrs), self.1)
    }

    /// The same matcher with the bounds replaced.
    pub fn with_bound_chars(self, bounds: Vec<(char, char)>) -> (r: Self)
        ensures
            r.0 == self.0,
            r.1 == bounds,
    {
        MatchRules(self.0, bounds)
    }
}

/// An exact copy of a list of character bounds.
pub fn clone_bounds(v: &Vec<(char, char)>) -> (r: Vec<(char, char)>)
    ensures
        r@ == v@,
{
    let mut r: Vec<(char, char)> = Vec::new();
    let mut i: usize = 0;
    while i < v.len()
        invariant
            i <= v.len(),
            r@ == v@.take(i as int),
        decreases v.len() - i,
    {
        r.push(v[i]);
        assert(r@ =~= v@.take(i + 1));
        i += 1;
    }
    assert(v@.take(v.len() as int) =~= v@);
    r
}

/// An exact copy of an atom.
pub fn clone_atom(a: &Atom) -> (r: Atom)
    ensures
        r@ == a@,
{
    match a {
        Atom::Literal(s) => Atom::Literal(String::from_str(s.as_str())),
        Atom::Match(mr) => Atom::Match(
            MatchRules(String::from_str(mr.0.as_str()), clone_bounds(&mr.1)),
        ),
        Atom::Expected(s) => Atom::Expected(String::from_str(s.as_str())),
        Atom::Dot => Atom::Dot,
        Atom::Eof => Atom::Eof,
    }
}

/// Whether a character is in the explicit set or within any inclusive bound.
pub open spec fn char_matches(ch: char, chars: Seq<char>, bounds: Seq<(char, char)>) -> bool {
    chars.contains(ch) || exists|i: int|
        0 <= i < bounds.len() && ((#[trigger] bounds[i]).0 as u32) <= (ch as u32) <= (bounds[i].1
            as u32)
}

/// What matching one atom at position `pos` of `text` yields.
pub ghost enum AtomOut {
    /// The new position and the produced node.
    Matched(int, NodeV),
    /// The atom does not match there; nothing is consumed.
    Failed,
}

/// The first index at which the literal `s` stops matching `text` at
/// `pos`: the literal's length when it matches whole.
pub open spec fn lit_fail_idx(text: Seq<char>, s: Seq<char>, pos: int, i: int) -> int
    decreases s.len() - i,
{
    if i >= s.len() {
        i
    } else if pos + i >= text.len() || text[pos + i] != s[i] {
        i
    } else {
        lit_fail_idx(text, s, pos, i + 1)
    }
}

/// Whether `s` stands character for character at `pos` in `text` on the
/// index range `j` up to `i`.
pub open spec fn prefix_matches(text: Seq<char>, s: Seq<char>, pos: int, j: int, i: int) -> bool {
    &&& (j < i ==> pos + i <= text.len())
    &&& forall|k: int| j <= k < i ==> text[pos + k] == #[trigger] s[k]
}

/// The failing index is reached from any index below it that still matches.
proof fn lemma_lit_fail_idx(text: Seq<char>, s: Seq<char>, pos: int, j: int, i: int)
    requires
        0 <= j <= i <= s.len(),
        prefix_matches(text, s, pos, j, i),
        i == s.len() || pos + i >= text.len() || text[pos + i] != s[i],
    ensures
        lit_fail_idx(text, s, pos, j) == i,
    decreases i - j,
{
    if j < i {
        assert(text[pos + j] == s[j]);
        assert(prefix_matches(text, s, pos, j + 1, i)) by {
            assert forall|k: int| j + 1 <= k < i implies text[pos + k] == #[trigger] s[k] by {
                assert(text[pos + k] == s[k]);
            }
        }
        lemma_lit_fail_idx(text, s, pos, j + 1, i);
    } else {
        assert(j == i);
    }
}

/// The priority an atom's failure carries.
pub open spec fn atom_prior(a: AtomV) -> ErrPriority {
    match a {
        AtomV::Expected(_) => ErrPriority::Critical,
        _ => ErrPriority::Normal,
    }
}

/// Whether the literal `s` stands character for character at `pos` in
/// `text`.
pub open spec fn lit_matches(text: Seq<char>, s: Seq<char>, pos: int) -> bool {
    &&& pos + s.len() <= text.len()
    &&& forall|k: int| 0 <= k < s.len() ==> text[pos + k] == #[trigger] s[k]
}

/// The per-atom matching semantics.
pub open spec fn eval_atom(text: Seq<char>, a: AtomV, pos: int) -> AtomOut {
    match a {
        AtomV::Literal(s) => if lit_matches(text, s, pos) {
            AtomOut::Matched(pos + s.len(), NodeV::Val(s))
        } else {
            AtomOut::Failed
        },
        AtomV::Match(chars, bounds) => if pos < text.len() && char_matches(
            text[pos],
            chars,
            bounds,
        ) {
            AtomOut::Matched(pos + 1, NodeV::Val(seq![text[pos]]))
        } else {
            AtomOut::Failed
        },
        AtomV::Expected(_) => AtomOut::Failed,
        AtomV::Dot => if pos < text.len() {
            AtomOut::Matched(pos + 1, NodeV::Val(seq![text[pos]]))
        } else {
            AtomOut::Failed
        },
        AtomV::Eof => if pos == text.len() {
            AtomOut::Matched(pos, NodeV::Val("EOF"@))
        } else {
            AtomOut::Failed
        },
    }
}

/// A literal that matches consumes exactly its own length.
pub proof fn lemma_literal_consumes(text: Seq<char>, s: Seq<char>, pos: int)
    ensures
        eval_atom(text, AtomV::Literal(s), pos) matches AtomOut::Matched(p, _) ==> p == pos
            + s.len(),
{
}

/// Relies on `char::to_string`: the one-character string.
#[verifier::external_body]
pub(crate) fn string_from_char(c: char) -> (r: String)
    ensures
        r@ == seq![c],
{
    c.to_string()
}

/// Matches one atom: the status and node on success, the failure otherwise.
pub fn parse(status: Status, atom: &Atom) -> (r: Result<(Status, Node), Error>)
    requires
        st_wf(status),
    ensures
        match r {
            Ok((st, node)) => {
                &&& eval_atom(status.text2parse@, atom@, status.pos@.n) == AtomOut::Matched(
                    st.pos@.n as int,
                    node@,
                )
                &&& st_wf(st)
                &&& st_same_frame(st, status)
                &&& opt_error_view(st.potential_error) == opt_error_view(status.potential_error)
                &&& status.pos@.n <= st.pos@.n
            },
            Err(e) => eval_atom(status.text2parse@, atom@, status.pos@.n) is Failed && e@.priority
                == atom_prior(atom@),
        },
{
    match atom {
        Atom::Literal(literal) => parse_literal(status, literal.as_str()),
        Atom::Expected(error) => parse_expected(&status, error.as_str()),
        Atom::Match(match_rules) => parse_match(status, match_rules),
        Atom::Dot => parse_dot(status),
        Atom::Eof => parse_eof(status),
    }
}

/// Matches the full literal or fails atomically; the failure stands at the
/// first mismatching character.
pub fn parse_literal(status: Status, literal: &str) -> (r: Result<(Status, Node), Error>)
    requires
        st_wf(status),
    ensures
        match r {
            Ok((st, node)) => {
                &&& eval_atom(status.text2parse@, AtomV::Literal(literal@), status.pos@.n)
                    == AtomOut::Matched(st.pos@.n as int, node@)
                &&& st_wf(st)
                &&& st_same_frame(st, status)
                &&& opt_error_view(st.potential_error) == opt_error_view(status.potential_error)
                &&& status.pos@.n <= st.pos@.n
            },
            Err(e) => {
                &&& eval_atom(status.text2parse@, AtomV::Literal(literal@), status.pos@.n)
                    is Failed
                &&& e@.priority == ErrPriority::Normal
                &&& e@.alternatives.expected =~~= seq![literal@]
                &&& e@.pos == pos_at(
                    status.text2parse@,
                    status.pos@.n + lit_fail_idx(
                        status.text2parse@,
                        literal@,
                        status.pos@.n,
                        0,
                    ),
                )
            },
        },
{
    let ghost text = status.text2parse@;
    let ghost pos0 = status.pos@.n;
    let llen = literal.unicode_len();
    let mut st = status;
    let mut i: usize = 0;
    while i < llen
        invariant
            st_wf(st),
            i <= llen,
            llen == literal@.len(),
            text == status.text2parse@,
            pos0 == status.pos@.n,
            st_wf(status),
            st.text2parse@ == text,
            st.pos@.n == pos0 + i,
            st_same_frame(st, status),
            opt_error_view(st.potential_error) == opt_error_view(status.potential_error),
            prefix_matches(text, literal@, pos0, 0, i as int),
        decreases llen - i,
    {
        let ch = literal.get_char(i);
        match parse_char(st, ch) {
            Ok(st2) => {
                st = st2;
                proof {
                    assert(prefix_matches(text, literal@, pos0, 0, i + 1)) by {
                        assert forall|k: int| 0 <= k < i + 1 implies text[pos0 + k]
                            == #[trigger] literal@[k] by {
                            if k < i {
                                assert(text[pos0 + k] == literal@[k]);
                            } else {
                                assert(text[pos0 + i] == literal@[i as int]);
                            }
                        }
                    }
                }
                i += 1;
            },
            Err(stu) => {
                proof {
                    lemma_lit_fail_idx(text, literal@, pos0, 0, i as int);
                    if lit_matches(text, literal@, pos0) {
                        assert(text[pos0 + i] == literal@[i as int]);
                        assert(false);
                    }
                    assert(eval_atom(text, AtomV::Literal(literal@), pos0) is Failed);
                }
                return Err(Error::from_status_normal_simple(&stu, literal));
            },
        }
    }
    proof {
        assert forall|k: int| 0 <= k < literal@.len() implies text[pos0 + k]
            == #[trigger] literal@[k] by {
            assert(text[pos0 + k] == literal@[k]);
        }
        assert(lit_matches(text, literal@, pos0));
    }
    Ok((st, Node::Val(String::from_str(literal))))
}

/// Always fails, carrying the author-chosen diagnostic at critical priority.
pub fn parse_expected(status: &Status, error: &str) -> (r: Result<(Status, Node), Error>)
    requires
        st_wf(*status),
    ensures
        match r {
            Ok(_) => false,
            Err(e) => {
                &&& e@.priority == ErrPriority::Critical
                &&& e@.alternatives.expected =~~= seq![error@]
                &&& e@.pos == status.pos@
            },
        },
{
    Err(Error::from_status(status, &ErrorAlternatives::from_string(error), ErrPriority::Critical))
}

/// Consumes any one character; fails at end of input.
pub fn parse_dot(status: Status) -> (r: Result<(Status, Node), Error>)
    requires
        st_wf(status),
    ensures
        match r {
            Ok((st, node)) => {
                &&& eval_atom(status.text2parse@, AtomV::Dot, status.pos@.n) == AtomOut::Matched(
                    st.pos@.n as int,
                    node@,
                )
                &&& st_wf(st)
                &&& st_same_frame(st, status)
                &&& opt_error_view(st.potential_error) == opt_error_view(status.potential_error)
                &&& status.pos@.n <= st.pos@.n
            },
            Err(e) => {
                &&& eval_atom(status.text2parse@, AtomV::Dot, status.pos@.n) is Failed
                &&& e@.priority == ErrPriority::Normal
                &&& e@.alternatives.expected =~~= seq!["anything"@]
                &&& e@.pos == status.pos@
            },
        },
{
    match status.get_char() {
        Ok((st, ch)) => Ok((st, Node::Val(string_from_char(ch)))),
        Err(st) => Err(Error::from_status_normal_simple(&st, "anything")),
    }
}

/// Whether a character is accepted by a matcher's set or bounds.
pub fn char_in_rules(match_rules: &MatchRules, ch: char) -> (b: bool)
    ensures
        b == char_matches(ch, match_rules.0@, match_rules.1@),
{
    let chars = match_rules.0.as_str();
    let clen = chars.unicode_len();
    let mut i: usize = 0;
    while i < clen
        invariant
            i <= clen,
            clen == chars@.len(),
            chars@ == match_rules.0@,
            forall|k: int| 0 <= k < i ==> chars@[k] != ch,
        decreases clen - i,
    {
        if chars.get_char(i) == ch {
            proof {
                assert(match_rules.0@[i as int] == ch);
                assert(match_rules.0@.contains(ch));
            }
            return true;
        }
        i += 1;
    }
    let mut j: usize = 0;
    while j < match_rules.1.len()
        invariant
            j <= match_rules.1@.len(),
            forall|k: int| 0 <= k < i ==> chars@[k] != ch,
            i >= clen,
            clen == chars@.len(),
            chars@ == match_rules.0@,
            forall|k: int|
                0 <= k < j ==> !(((#[trigger] match_rules.1@[k]).0 as u32) <= (ch as u32) <= (
                match_rules.1@[k].1 as u32)),
        decreases match_rules.1@.len() - j,
    {
        let (b, t) = match_rules.1[j];
        if (b as u32) <= (ch as u32) && (ch as u32) <= (t as u32) {
            proof {
                assert(((#[trigger] match_rules.1@[j as int]).0 as u32) <= (ch as u32) <= (
                match_rules.1@[j as int].1 as u32));
            }
            return true;
        }
        j += 1;
    }
    proof {
        assert(!match_rules.0@.contains(ch));
    }
    false
}

/// The diagnostic a failed matcher reports: its character set and bounds.
pub open spec fn match_msg(chars: Seq<char>, bounds: Seq<(char, char)>) -> Seq<char> {
    "match "@ + chars + msg_bounds(bounds)
}

/// The bounds part of a failed matcher's diagnostic.
pub open spec fn msg_bounds(bounds: Seq<(char, char)>) -> Seq<char>
    decreases bounds.len(),
{
    if bounds.len() == 0 {
        Seq::empty()
    } else {
        " "@ + seq![bounds[0].0] + "-"@ + seq![bounds[0].1] + msg_bounds(
            bounds.subrange(1, bounds.len() as int),
        )
    }
}

/// Consumes one character if the matcher accepts it; else fails, consuming
/// nothing.
pub fn parse_match(status: Status, match_rules: &MatchRules) -> (r: Result<(Status, Node), Error>)
    requires
        st_wf(status),
    ensures
        match r {
            Ok((st, node)) => {
                &&& eval_atom(
                    status.text2parse@,
                    AtomV::Match(match_rules.0@, match_rules.1@),
                    status.pos@.n,
                ) == AtomOut::Matched(st.pos@.n as int, node@)
                &&& st_wf(st)
                &&& st_same_frame(st, status)
                &&& opt_error_view(st.potential_error) == opt_error_view(status.potential_error)
                &&& status.pos@.n <= st.pos@.n
            },
            Err(e) => {
                &&& eval_atom(
                    status.text2parse@,
                    AtomV::Match(match_rules.0@, match_rules.1@),
                    status.pos@.n,
                ) is Failed
                &&& e@.priority == ErrPriority::Normal
                &&& e@.alternatives.expected =~~= seq![match_msg(match_rules.0@, match_rules.1@)]
                &&& e@.pos == status.pos@
            },
        },
{
    let len = status.text2parse.as_str().unicode_len();
    if status.pos.n < len {
        let ch = status.text2parse.as_str().get_char(status.pos.n);
        if char_in_rules(match_rules, ch) {
            match status.get_char() {
                Ok((st, ch2)) => {
                    return Ok((st, Node::Val(string_from_char(ch2))));
                },
                Err(st) => {
                    return Err(Error::from_status_normal_simple(&st, "match"));
                },
            }
        }
    }
    let ghost all = match_rules.1@;
    let mut bounds_txt = String::from_str("");
    proof {
        reveal_strlit("");
        assert(all.subrange(0, all.len() as int) =~= all);
        assert(bounds_txt@ + msg_bounds(all) =~= msg_bounds(all));
    }
    let mut i: usize = 0;
    while i < match_rules.1.len()
        invariant
            i <= all.len(),
            all == match_rules.1@,
            msg_bounds(all) =~= bounds_txt@ + msg_bounds(all.subrange(i as int, all.len() as int)),
        decreases all.len() - i,
    {
        let (b, t) = match_rules.1[i];
        let piece = String::from_str(" ").concat(string_from_char(b).as_str()).concat(
            "-",
        ).concat(string_from_char(t).as_str());
        proof {
            let rest = all.subrange(i as int, all.len() as int);
            assert(rest[0] == all[i as int]);
            assert(rest.subrange(1, rest.len() as int) =~= all.subrange(
                i + 1 as int,
                all.len() as int,
            ));
            assert(msg_bounds(rest) =~= piece@ + msg_bounds(
                all.subrange(i + 1 as int, all.len() as int),
            ));
        }
        bounds_txt = bounds_txt.concat(piece.as_str());
        i += 1;
    }
    proof {
        assert(all.subrange(all.len() as int, all.len() as int) =~= Seq::<(char, char)>::empty());
        assert(msg_bounds(all) =~= bounds_txt@);
    }
    let msg = String::from_str("match ").concat(match_rules.0.as_str()).concat(
        bounds_txt.as_str(),
    );
    proof {
        assert(msg@ =~= match_msg(match_rules.0@, match_rules.1@));
    }
    Err(Error::from_status_normal_simple(&status, msg.as_str()))
}

/// Succeeds, consuming nothing, only at end of input.
pub fn parse_eof(status: Status) -> (r: Result<(Status, Node), Error>)
    requires
        st_wf(status),
    ensures
        match r {
            Ok((st, node)) => {
                &&& eval_atom(status.text2parse@, AtomV::Eof, status.pos@.n) == AtomOut::Matched(
                    st.pos@.n as int,
                    node@,
                )
                &&& st_wf(st)
                &&& st_same_frame(st, status)
                &&& opt_error_view(st.potential_error) == opt_error_view(status.potential_error)
                &&& status.pos@.n <= st.pos@.n
            },
            Err(e) => {
                &&& eval_atom(status.text2parse@, AtomV::Eof, status.pos@.n) is Failed
                &&& e@.priority == ErrPriority::Normal
                &&& e@.alternatives.expected =~~= seq!["expected EOF"@]
                &&& e@.pos == status.pos@
            },
        },
{
    let len = status.text2parse.as_str().unicode_len();
    if status.pos.n == len {
        Ok((status, Node::Val(String::from_str("EOF"))))
    } else {
        Err(Error::from_status_normal_simple(&status, "expected EOF"))
    }
}

/// Consumes one character when it is the expected one; on a mismatch or at
/// end of input the status comes back unchanged.
pub fn parse_char(status: Status, ch: char) -> (r: Result<Status, Status>)
    requires
        st_wf(status),
    ensures
        match r {
            Ok(st) => {
                &&& status.pos@.n < status.text2parse@.len()
                &&& status.text2parse@[status.pos@.n] == ch
                &&& st.pos@.n == status.pos@.n + 1
                &&& st_wf(st)
                &&& st.text2parse == status.text2parse
                &&& st.rules == status.rules
                &&& st.potential_error == status.potential_error
                &&& st.trace_rules == status.trace_rules
                &&& st.walking_rules == status.walking_rules
            },
            Err(st) => {
                &&& (status.pos@.n >= status.text2parse@.len() || status.text2parse@[status.pos@.n]
                    != ch)
                &&& st == status
            },
        },
{
    let len = status.text2parse.as_str().unicode_len();
    if status.pos.n < len {
        let got = status.text2parse.as_str().get_char(status.pos.n);
        if got == ch {
            match status.get_char() {
                Ok((st, _got2)) => Ok(st),
                Err(st) => Err(st),
            }
        } else {
            Err(status)
        }
    } else {
        Err(status)
    }
}

} // verus!
