//! The bootstrap intermediate protocol.
//!
//! A flat command stream — one command per line, uppercase tags followed by
//! fixed-arity argument lines — describes a rule set. [`Ir`] reads such a
//! stream with a cursor and decodes it back into native rules; the encoder
//! renders a rule set as the same stream. Decode failure marks a malformed
//! intermediate artifact, not malformed user input.

use vstd::prelude::*;
use crate::parser::expression::SetOfRules;

pub mod to_rules;
pub mod encode;

verus! {

broadcast use vstd::seq::group_seq_axioms, vstd::std_specs::vec::group_vec_axioms;

/// A fatal bootstrap failure: the command stream was malformed.
#[derive(Debug)]
pub struct Error(pub String);

impl View for Error {
    type V = Seq<char>;

    open spec fn view(&self) -> Seq<char> {
        self.0@
    }
}

/// One command line of the stream.
#[derive(Debug, PartialEq)]
pub struct Command(pub String);

impl View for Command {
    type V = Seq<char>;

    open spec fn view(&self) -> Seq<char> {
        self.0@
    }
}

/// The models of a list of commands, in order.
pub open spec fn cmds_view(cs: Seq<Command>) -> Seq<Seq<char>> {
    cs.map(|i: int, c: Command| c.0@)
}

/// A command stream and the cursor the reader stands at.
#[derive(Debug)]
pub struct Ir {
    /// The cursor: how many commands were consumed.
    pub pos: usize,
    /// The commands, one per line of the stream.
    pub commands: Vec<Command>,
}

/// The first index at or after `i` holding a newline, or the text's length.
pub open spec fn nl_idx(s: Seq<char>, i: int) -> int
    decreases s.len() - i,
{
    if i < 0 || i >= s.len() {
        s.len() as int
    } else if s[i] == '\n' {
        i
    } else {
        nl_idx(s, i + 1)
    }
}

/// The lines of a text from `start` on: split at newlines, a carriage
/// return before a newline stripped, no empty line after a final newline.
pub open spec fn lines_from(s: Seq<char>, start: int) -> Seq<Seq<char>>
    decreases s.len() - start,
{
    if start < 0 || start >= s.len() {
        Seq::empty()
    } else {
        let j0 = nl_idx(s, start);
        let j = if j0 < start {
            start
        } else if j0 > s.len() {
            s.len() as int
        } else {
            j0
        };
        let stripped = if j < s.len() && j > start && s[j - 1] == '\r' {
            j - 1
        } else {
            j
        };
        seq![s.subrange(start, stripped)] + (if j < s.len() {
            lines_from(s, j + 1)
        } else {
            Seq::empty()
        })
    }
}

impl Ir {
    /// A reader over the stream's lines, at its start.
    pub fn new(txt: &str) -> (r: Ir)
        ensures
            r.pos == 0,
            cmds_view(r.commands@) == lines_from(txt@, 0),
    {
        let len = txt.unicode_len();
        let mut commands: Vec<Command> = Vec::new();
        let mut start: usize = 0;
        while start < len
            invariant
                start <= len,
                len == txt@.len(),
                lines_from(txt@, 0) =~= cmds_view(commands@) + lines_from(txt@, start as int),
            decreases len - start,
        {
            let mut j = start;
            while j < len && txt.get_char(j) != '\n'
                invariant
                    start <= j <= len,
                    len == txt@.len(),
                    nl_idx(txt@, start as int) == nl_idx(txt@, j as int),
                decreases len - j,
            {
                j += 1;
            }
            assert(nl_idx(txt@, start as int) == j);
            let stripped = if j < len && j > start && txt.get_char(j - 1) == '\r' {
                j - 1
            } else {
                j
            };
            let line = String::from_str(txt.substring_char(start, stripped));
            let ghost before = cmds_view(commands@);
            commands.push(Command(line));
            proof {
                assert(cmds_view(commands@) =~~= before.push(txt@.subrange(
                    start as int,
                    stripped as int,
                )));
            }
            let next = if j < len {
                j + 1
            } else {
                len
            };
            proof {
                if j < len {
                    assert(lines_from(txt@, start as int) =~~= seq![txt@.subrange(start as int, stripped as int)]
                        + lines_from(txt@, j + 1));
                } else {
                    assert(lines_from(txt@, start as int) =~~= seq![txt@.subrange(start as int, stripped as int)]
                        + Seq::<Seq<char>>::empty());
                }
                assert(lines_from(txt@, 0) =~~= cmds_view(commands@) + lines_from(
                    txt@,
                    next as int,
                ));
            }
            start = next;
        }
        proof {
            assert(lines_from(txt@, 0) =~~= cmds_view(commands@));
        }
        Ir { pos: 0, commands }
    }

    /// Reads the command at the cursor and advances past it; at the end of
    /// the stream it fails.
    pub fn get(self) -> (r: Result<(Ir, Command), Error>)
        ensures
            match r {
                Ok((ir, cmd)) => {
                    &&& self.pos < self.commands@.len()
                    &&& ir.commands == self.commands
                    &&& ir.pos == self.pos + 1
                    &&& cmd@ == cmds_view(self.commands@)[self.pos as int]
                },
                Err(_) => self.pos >= self.commands@.len(),
            },
    {
        if self.pos >= self.commands.len() {
            Err(Error(String::from_str("next over finished program")))
        } else {
            let cmd = Command(String::from_str(self.commands[self.pos].0.as_str()));
            let mut ir = self;
            ir.pos = ir.pos + 1;
            Ok((ir, cmd))
        }
    }

    /// The command at the cursor, without advancing; `None` at the end.
    pub fn peek(&self) -> (r: Option<Command>)
        ensures
            match r {
                Some(cmd) => self.pos < self.commands@.len() && cmd@ == cmds_view(self.commands@)[
                    self.pos as int
                ],
                None => self.pos >= self.commands@.len(),
            },
    {
        if self.pos >= self.commands.len() {
            None
        } else {
            Some(Command(String::from_str(self.commands[self.pos].0.as_str())))
        }
    }

    /// Reads one command and checks it is exactly `val`.
    pub fn consume(self, val: &str) -> (r: Result<Ir, Error>)
        ensures
            match r {
                Ok(ir) => {
                    &&& self.pos < self.commands@.len()
                    &&& cmds_view(self.commands@)[self.pos as int] == val@
                    &&& ir.commands == self.commands
                    &&& ir.pos == self.pos + 1
                },
                Err(_) => self.pos >= self.commands@.len() || cmds_view(self.commands@)[
                    self.pos as int
                ] != val@,
            },
    {
        match self.get() {
            Err(e) => Err(e),
            Ok((ir, cmd)) => {
                if crate::str_eq(cmd.0.as_str(), val) {
                    Ok(ir)
                } else {
                    let msg = String::from_str("expected ").concat(val).concat(
                        ", received ",
                    ).concat(cmd.0.as_str());
                    Err(Error(msg))
                }
            },
        }
    }

    /// Decodes the whole stream into a rule set: `Ok` exactly when the spec
    /// decoder accepts the stream from the cursor, and then the decoded
    /// mapping; any malformed stream is the error.
    pub fn get_rules(self) -> (r: Result<SetOfRules, Error>)
        requires
            self.pos <= self.commands@.len(),
        ensures
            match r {
                Ok(rules) => match crate::ir::to_rules::dec_rules_rec(
                    cmds_view(self.commands@),
                    self.pos as int,
                    Map::empty(),
                ) {
                    Some((_, m)) => rules@ =~= m,
                    None => false,
                },
                Err(_) => crate::ir::to_rules::dec_rules_rec(
                    cmds_view(self.commands@),
                    self.pos as int,
                    Map::empty(),
                ) is None,
            },
    {
        let empty = SetOfRules::empty();
        proof {
            assert(empty@ =~= Map::<Seq<char>, crate::parser::expression::RuleInfoV>::empty());
        }
        match crate::ir::to_rules::get_rule_rec(self, empty) {
            Ok((_ir, rules)) => Ok(rules),
            Err(e) => Err(e),
        }
    }
}

} // verus!
