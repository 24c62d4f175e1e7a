//! Position tracking and error reporting for the matching engine.
//!
//! A [`Possition`] records where the cursor stands in the input: character
//! offset, row, column and the offset at which the current line started.
//! A [`Error`] carries the furthest point a failed match reached together
//! with the alternatives that were expected there; competing failures are
//! merged by "largest offset wins".

use vstd::prelude::*;
use crate::parser::expression::SetOfRules;

pub mod atom;
pub mod expression;

verus! {

broadcast use vstd::seq::group_seq_axioms, vstd::std_specs::vec::group_vec_axioms;

/// Where the cursor stands in the input.
#[derive(Debug, Clone, Copy, PartialEq, Eq, Structural)]
pub struct Possition {
    /// Character offset from the start of the input.
    pub n: usize,
    /// Row (zero-based); a `'\n'` starts a new row.
    pub row: usize,
    /// Column (zero-based); `'\n'` and `'\r'` both reset it.
    pub col: usize,
    /// Offset at which the row of the current position started.
    pub start_line: usize,
}

/// Mathematical model of a [`Possition`].
pub ghost struct PosV {
    pub n: int,
    pub row: int,
    pub col: int,
    pub start_line: int,
}

impl View for Possition {
    type V = PosV;

    open spec fn view(&self) -> PosV {
        PosV {
            n: self.n as int,
            row: self.row as int,
            col: self.col as int,
            start_line: self.start_line as int,
        }
    }
}

/// The position at the very start of any input.
pub open spec fn pos_zero() -> PosV {
    PosV { n: 0, row: 0, col: 0, start_line: 0 }
}

/// How consuming one character moves the position: `'\n'` opens a new row,
/// `'\r'` only resets the column, anything else advances the column.
pub open spec fn pos_step(p: PosV, ch: char) -> PosV {
    if ch == '\n' {
        PosV { n: p.n + 1, row: p.row + 1, col: 0, start_line: p.n + 1 }
    } else if ch == '\r' {
        PosV { n: p.n + 1, row: p.row, col: 0, start_line: p.start_line }
    } else {
        PosV { n: p.n + 1, row: p.row, col: p.col + 1, start_line: p.start_line }
    }
}

/// The position reached after consuming the first `n` characters of `text`.
pub open spec fn pos_at(text: Seq<char>, n: int) -> PosV
    decreases n,
{
    if n <= 0 {
        pos_zero()
    } else {
        pos_step(pos_at(text, n - 1), text[n - 1])
    }
}

/// A position is valid for `text` when it is exactly the one reached by
/// consuming its first `n` characters.
pub open spec fn pos_wf(pos: Possition, text: Seq<char>) -> bool {
    &&& pos@.n <= text.len()
    &&& pos@ == pos_at(text, pos@.n)
}

impl Possition {
    /// The position at the start of the input.
    pub fn init() -> (r: Self)
        ensures
            r@ == pos_zero(),
    {
        Self { n: 0, row: 0, col: 0, start_line: 0 }
    }
}

/// Error priority: `Critical` marks a failure raised by an explicit
/// failure directive, meant to carry an author-chosen diagnostic.
#[derive(Clone, Copy, Debug, PartialEq, PartialOrd, Eq, Ord, Structural)]
pub enum ErrPriority {
    /// Ordinary backtracking failure.
    Normal,
    /// Failure raised by an explicit directive.
    Critical,
}

/// The competing expectations a failure carries: an optional context label
/// and the expected-description strings, duplicates kept, in order.
#[derive(Debug)]
pub struct ErrorAlternatives {
    /// Context label, set at most once.
    pub context: Option<String>,
    /// Descriptions of what was expected at the failure point.
    pub expected: Vec<String>,
}

/// Mathematical model of [`ErrorAlternatives`].
pub ghost struct AlternativesV {
    pub context: Option<Seq<char>>,
    pub expected: Seq<Seq<char>>,
}

impl View for ErrorAlternatives {
    type V = AlternativesV;

    open spec fn view(&self) -> AlternativesV {
        AlternativesV { context: self.context.deep_view(), expected: self.expected.deep_view() }
    }
}

impl ErrorAlternatives {
    /// A single expectation, with no context label.
    pub fn from_string(s: &str) -> (r: Self)
        ensures
            r@.context is None,
            r@.expected =~~= seq![s@],
    {
        let expected: Vec<String> = vec![String::from_str(s)];
        ErrorAlternatives { context: None, expected }
    }

    /// An exact copy.
    pub fn duplicate(&self) -> (r: Self)
        ensures
            r@ == self@,
    {
        let context: Option<String> = match &self.context {
            Some(c) => Some(String::from_str(c.as_str())),
            None => None,
        };
        let r = ErrorAlternatives { context, expected: clone_strings(&self.expected) };
        assert(r@.context =~~= self@.context);
        assert(r@.expected =~~= self@.expected);
        r
    }
}

/// An exact copy of a vector of strings.
pub fn clone_strings(v: &Vec<String>) -> (r: Vec<String>)
    ensures
        r.deep_view() =~~= v.deep_view(),
{
    let mut r: Vec<String> = Vec::new();
    let mut i: usize = 0;
    while i < v.len()
        invariant
            i <= v.len(),
            r@.len() == i,
            forall|k: int| 0 <= k < i ==> r.deep_view()[k] == v.deep_view()[k],
        decreases v.len() - i,
    {
        r.push(String::from_str(v[i].as_str()));
        assert(r.deep_view()[i as int] == v.deep_view()[i as int]);
        i += 1;
    }
    assert(r.deep_view() =~~= v.deep_view());
    r
}

/// What a failed match reports: the furthest position reached, the
/// alternatives expected there, the text of the offending line before and
/// after that position, the rule path when tracing was enabled, and the
/// failure's priority.
#[derive(Debug)]
pub struct Error {
    /// Position the failure was produced at.
    pub pos: Possition,
    /// Alternatives expected at that position.
    pub alternatives: ErrorAlternatives,
    /// Content of the offending line before the failure position.
    pub line_before: String,
    /// Content of the offending line after the failure position.
    pub line_after: String,
    /// Rule path followed to the failure; filled only when tracing is on.
    pub parsing_rules: Vec<String>,
    /// Priority of this failure.
    pub priority: ErrPriority,
}

/// Mathematical model of a parse [`Error`].
pub ghost struct ErrorV {
    pub pos: PosV,
    pub alternatives: AlternativesV,
    pub line_before: Seq<char>,
    pub line_after: Seq<char>,
    pub parsing_rules: Seq<Seq<char>>,
    pub priority: ErrPriority,
}

impl View for Error {
    type V = ErrorV;

    open spec fn view(&self) -> ErrorV {
        ErrorV {
            pos: self.pos@,
            alternatives: self.alternatives@,
            line_before: self.line_before@,
            line_after: self.line_after@,
            parsing_rules: self.parsing_rules.deep_view(),
            priority: self.priority,
        }
    }
}

/// The model of two merged errors: the one with the larger offset wins;
/// at equal offsets the first keeps its fields and the expectation lists
/// are concatenated. Priority never overrides the offset comparison.
pub open spec fn merged_error(a: ErrorV, b: ErrorV) -> ErrorV {
    if a.pos.n > b.pos.n {
        a
    } else if a.pos.n < b.pos.n {
        b
    } else {
        ErrorV {
            alternatives: AlternativesV {
                context: a.alternatives.context,
                expected: a.alternatives.expected + b.alternatives.expected,
            },
            ..a
        }
    }
}

impl Error {
    /// An exact copy.
    pub fn duplicate(&self) -> (r: Self)
        ensures
            r@ == self@,
    {
        let r = Error {
            pos: self.pos,
            alternatives: self.alternatives.duplicate(),
            line_before: String::from_str(self.line_before.as_str()),
            line_after: String::from_str(self.line_after.as_str()),
            parsing_rules: clone_strings(&self.parsing_rules),
            priority: self.priority,
        };
        assert(r@ == self@);
        r
    }

    /// Sets the context label, unless one is already present or the new
    /// one is empty.
    pub fn with_context(self, context: &str) -> (r: Self)
        ensures
            self@.alternatives.context is None && context@.len() != 0 ==> r@ == (ErrorV {
                alternatives: AlternativesV { context: Some(context@), ..self@.alternatives },
                ..self@
            }),
            !(self@.alternatives.context is None && context@.len() != 0) ==> r@ == self@,
    {
        let mut s = self;
        if s.alternatives.context.is_none() && context.unicode_len() != 0 {
            s.alternatives.context = Some(String::from_str(context));
        }
        s
    }

    /// Merges two failures: the furthest offset wins; equal offsets union
    /// their alternatives.
    pub fn merge(&self, err: &Error) -> (r: Self)
        ensures
            r@ == merged_error(self@, err@),
    {
        if self.pos.n > err.pos.n {
            self.duplicate()
        } else if self.pos.n < err.pos.n {
            err.duplicate()
        } else {
            let r = self.duplicate().merge_alternatives(&err.alternatives);
            assert(r@ == merged_error(self@, err@));
            r
        }
    }

    /// Appends another set of alternatives to this error's own.
    pub fn merge_alternatives(self, alternatives: &ErrorAlternatives) -> (r: Self)
        ensures
            r@ == (ErrorV {
                alternatives: AlternativesV {
                    context: self@.alternatives.context,
                    expected: self@.alternatives.expected + alternatives@.expected,
                },
                ..self@
            }),
    {
        let mut s = self;
        let mut extra = clone_strings(&alternatives.expected);
        let ghost expected0 = s.alternatives.expected.deep_view();
        let ghost more = alternatives.expected.deep_view();
        let mut i: usize = 0;
        while i < extra.len()
            invariant
                i <= extra.len(),
                extra.deep_view() == more,
                extra@.len() == more.len(),
                s.alternatives.expected@.len() == expected0.len() + i,
                forall|k: int| 0 <= k < expected0.len() + i
                    ==> s.alternatives.expected.deep_view()[k] == (expected0 + more)[k],
                s.alternatives.context == self.alternatives.context,
                s.pos == self.pos,
                s.line_before == self.line_before,
                s.line_after == self.line_after,
                s.parsing_rules == self.parsing_rules,
                s.priority == self.priority,
            decreases extra.len() - i,
        {
            assert(extra.deep_view()[i as int] == more[i as int]);
            s.alternatives.expected.push(String::from_str(extra[i].as_str()));
            assert(s.alternatives.expected.deep_view()[expected0.len() + i] == more[i as int]);
            i += 1;
        }
        assert(s.alternatives.expected.deep_view() =~~= expected0 + more);
        s
    }
}

/// The error the merge of several failures settles on lies at the furthest
/// of their offsets; merging failures at offsets 3 and 5 reports offset 5.
pub proof fn lemma_merge_takes_furthest(a: ErrorV, b: ErrorV)
    ensures
        merged_error(a, b).pos.n == if a.pos.n >= b.pos.n { a.pos.n } else { b.pos.n },
        a.pos.n == b.pos.n ==> merged_error(a, b).alternatives.expected
            == a.alternatives.expected + b.alternatives.expected,
{
}

/// The components of a position stay within the offset.
pub proof fn lemma_pos_at_bounds(text: Seq<char>, n: int)
    requires
        0 <= n,
    ensures
        pos_at(text, n).n == n,
        0 <= pos_at(text, n).row <= n,
        0 <= pos_at(text, n).col <= n,
        0 <= pos_at(text, n).start_line <= n,
    decreases n,
{
    if n > 0 {
        lemma_pos_at_bounds(text, n - 1);
    }
}

/// The model of an optional error.
pub open spec fn opt_error_view(o: Option<Error>) -> Option<ErrorV> {
    match o {
        Some(e) => Some(e@),
        None => None,
    }
}

/// The offset at which the line holding offset `n` ends: the next newline
/// or carriage return at or after `n`, or the end of the input.
pub open spec fn line_end(text: Seq<char>, n: int) -> int
    decreases text.len() - n,
{
    if n >= text.len() {
        text.len() as int
    } else if text[n] == '\n' || text[n] == '\r' {
        n
    } else {
        line_end(text, n + 1)
    }
}

/// Everything one matching attempt carries: the input, the cursor, the
/// active rule set, the running furthest-failure, and the optional rule
/// trace. Branches duplicate a status and discard the copy on failure, so
/// no mutation is observable across alternatives.
#[derive(Debug)]
pub struct Status {
    /// The input text.
    pub text2parse: String,
    /// Where the cursor stands.
    pub pos: Possition,
    /// The rule set `RuleName` references resolve against.
    pub rules: SetOfRules,
    /// The furthest failure recovered from so far, kept for diagnostics.
    pub potential_error: Option<Error>,
    /// Whether the rule path is recorded; costly, meant for debugging.
    pub trace_rules: bool,
    /// The rule path walked so far, filled only when tracing is on.
    pub walking_rules: Vec<String>,
}

/// A status is well formed when its position is exactly the one reached by
/// consuming the input up to its offset.
pub open spec fn st_wf(st: Status) -> bool {
    pos_wf(st.pos, st.text2parse@)
}

/// Two statuses that agree on everything a match can observe.
pub open spec fn st_like(a: Status, b: Status) -> bool {
    &&& a.text2parse@ == b.text2parse@
    &&& a.pos == b.pos
    &&& a.rules@ == b.rules@
    &&& opt_error_view(a.potential_error) == opt_error_view(b.potential_error)
    &&& a.trace_rules == b.trace_rules
    &&& a.walking_rules.deep_view() == b.walking_rules.deep_view()
}

/// Two statuses that agree on everything but the cursor and the recovered
/// failure: the input, rules and trace configuration are carried through a
/// match unchanged.
pub open spec fn st_same_frame(a: Status, b: Status) -> bool {
    &&& a.text2parse@ == b.text2parse@
    &&& a.rules@ == b.rules@
    &&& a.trace_rules == b.trace_rules
    &&& a.walking_rules.deep_view() == b.walking_rules.deep_view()
}

impl Status {
    /// A fresh status over an input and a rule set, without tracing.
    pub fn init(t2p: &str, rules: &SetOfRules) -> (r: Status)
        ensures
            r.text2parse@ == t2p@,
            r.pos@ == pos_zero(),
            r.rules@ == rules@,
            r.potential_error is None,
            r.trace_rules == false,
            r.walking_rules.deep_view() == Seq::<Seq<char>>::empty(),
            st_wf(r),
    {
        let walking: Vec<String> = Vec::new();
        assert(walking.deep_view() =~~= Seq::<Seq<char>>::empty());
        Status {
            text2parse: String::from_str(t2p),
            pos: Possition::init(),
            rules: rules.duplicate(),
            potential_error: None,
            trace_rules: false,
            walking_rules: walking,
        }
    }

    /// A fresh status with the rule trace switched as asked.
    pub fn init_debug(t2p: &str, rules: &SetOfRules, trace_rules: bool) -> (r: Status)
        ensures
            r.text2parse@ == t2p@,
            r.pos@ == pos_zero(),
            r.rules@ == rules@,
            r.potential_error is None,
            r.trace_rules == trace_rules,
            r.walking_rules.deep_view() == Seq::<Seq<char>>::empty(),
            st_wf(r),
    {
        let walking: Vec<String> = Vec::new();
        assert(walking.deep_view() =~~= Seq::<Seq<char>>::empty());
        Status {
            text2parse: String::from_str(t2p),
            pos: Possition::init(),
            rules: rules.duplicate(),
            potential_error: None,
            trace_rules,
            walking_rules: walking,
        }
    }

    /// Records one rule name on the walked path.
    pub fn push_rule(self, on_node: &str) -> (r: Status)
        ensures
            r.walking_rules.deep_view() == self.walking_rules.deep_view().push(on_node@),
            r.text2parse == self.text2parse,
            r.pos == self.pos,
            r.rules == self.rules,
            r.potential_error == self.potential_error,
            r.trace_rules == self.trace_rules,
    {
        let mut s = self;
        s.walking_rules.push(String::from_str(on_node));
        assert(s.walking_rules.deep_view() =~~= self.walking_rules.deep_view().push(on_node@));
        s
    }

    /// Replaces the recovered failure.
    pub fn set_potential_error(self, err: Error) -> (r: Status)
        ensures
            opt_error_view(r.potential_error) == Some(err@),
            r.text2parse == self.text2parse,
            r.pos == self.pos,
            r.rules == self.rules,
            r.trace_rules == self.trace_rules,
            r.walking_rules == self.walking_rules,
    {
        let mut s = self;
        s.potential_error = Some(err);
        s
    }

    /// An exact copy, for trying an alternative that may be discarded.
    pub fn duplicate(&self) -> (r: Status)
        ensures
            st_like(r, *self),
            st_wf(*self) ==> st_wf(r),
    {
        let potential_error: Option<Error> = match &self.potential_error {
            Some(e) => Some(e.duplicate()),
            None => None,
        };
        Status {
            text2parse: String::from_str(self.text2parse.as_str()),
            pos: self.pos,
            rules: self.rules.duplicate(),
            potential_error,
            trace_rules: self.trace_rules,
            walking_rules: clone_strings(&self.walking_rules),
        }
    }

    /// Consumes one character, advancing the position; at end of input it
    /// fails, returning the status unchanged.
    pub fn get_char(self) -> (r: Result<(Status, char), Status>)
        requires
            st_wf(self),
        ensures
            match r {
                Ok((st, ch)) => {
                    &&& self.pos@.n < self.text2parse@.len()
                    &&& ch == self.text2parse@[self.pos@.n]
                    &&& st.pos@ == pos_step(self.pos@, ch)
                    &&& st_wf(st)
                    &&& st.text2parse == self.text2parse
                    &&& st.rules == self.rules
                    &&& st.potential_error == self.potential_error
                    &&& st.trace_rules == self.trace_rules
                    &&& st.walking_rules == self.walking_rules
                },
                Err(st) => self.pos@.n == self.text2parse@.len() && st == self,
            },
    {
        let len = self.text2parse.as_str().unicode_len();
        if self.pos.n < len {
            let ch = self.text2parse.as_str().get_char(self.pos.n);
            proof {
                lemma_pos_at_bounds(self.text2parse@, self.pos@.n);
            }
            let mut st = self;
            if ch == '\n' {
                st.pos.col = 0;
                st.pos.row = st.pos.row + 1;
                st.pos.start_line = st.pos.n + 1;
            } else if ch == '\r' {
                st.pos.col = 0;
            } else {
                st.pos.col = st.pos.col + 1;
            }
            st.pos.n = st.pos.n + 1;
            Ok((st, ch))
        } else {
            Err(self)
        }
    }
}

impl Error {
    /// A failure at the status's position, with the line around it.
    pub fn from_status(status: &Status, alternatives: &ErrorAlternatives, prior: ErrPriority) -> (e:
        Error)
        requires
            st_wf(*status),
        ensures
            e@.pos == status.pos@,
            e@.alternatives == alternatives@,
            e@.line_before == status.text2parse@.subrange(
                status.pos@.start_line,
                status.pos@.n,
            ),
            e@.line_after == status.text2parse@.subrange(
                status.pos@.n,
                line_end(status.text2parse@, status.pos@.n),
            ),
            e@.parsing_rules == status.walking_rules.deep_view(),
            e@.priority == prior,
    {
        proof {
            lemma_pos_at_bounds(status.text2parse@, status.pos@.n);
        }
        let len = status.text2parse.as_str().unicode_len();
        let mut j = status.pos.n;
        while j < len && status.text2parse.as_str().get_char(j) != '\n'
            && status.text2parse.as_str().get_char(j) != '\r'
            invariant
                st_wf(*status),
                status.pos@.n <= j <= len,
                len == status.text2parse@.len(),
                line_end(status.text2parse@, status.pos@.n) == line_end(status.text2parse@, j as int),
            decreases len - j,
        {
            j = j + 1;
        }
        assert(line_end(status.text2parse@, status.pos@.n) == j);
        Error {
            pos: status.pos,
            alternatives: alternatives.duplicate(),
            line_before: String::from_str(
                status.text2parse.as_str().substring_char(status.pos.start_line, status.pos.n),
            ),
            line_after: String::from_str(
                status.text2parse.as_str().substring_char(status.pos.n, j),
            ),
            parsing_rules: clone_strings(&status.walking_rules),
            priority: prior,
        }
    }

    /// A failure with a single expected description.
    pub fn from_status_simple(status: &Status, descr: &str, prior: ErrPriority) -> (e: Error)
        requires
            st_wf(*status),
        ensures
            e@.pos == status.pos@,
            e@.alternatives.context is None,
            e@.alternatives.expected =~~= seq![descr@],
            e@.line_before == status.text2parse@.subrange(
                status.pos@.start_line,
                status.pos@.n,
            ),
            e@.line_after == status.text2parse@.subrange(
                status.pos@.n,
                line_end(status.text2parse@, status.pos@.n),
            ),
            e@.parsing_rules == status.walking_rules.deep_view(),
            e@.priority == prior,
    {
        Error::from_status(status, &ErrorAlternatives::from_string(descr), prior)
    }

    /// A failure with a single expected description, at normal priority.
    pub fn from_status_normal_simple(status: &Status, descr: &str) -> (e: Error)
        requires
            st_wf(*status),
        ensures
            e@.pos == status.pos@,
            e@.alternatives.context is None,
            e@.alternatives.expected =~~= seq![descr@],
            e@.parsing_rules == status.walking_rules.deep_view(),
            e@.priority == ErrPriority::Normal,
    {
        Error::from_status_simple(status, descr, ErrPriority::Normal)
    }
}

} // verus!
