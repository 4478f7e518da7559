//! The read-evaluate-print loop's part of the decisions: the prompt, and
//! which lines end the session.

use crate::text::{decimal, digits, trim, trimmed};
use vstd::prelude::*;
use vstd::string::*;

verus! {

/// The state of a session: the number of lines that were accepted.
#[derive(Debug)]
pub struct Repl {
    pub lines: usize,
}

/// Whether a line ends the session: it is the word `exit`, with or
/// without white space around it.
pub open spec fn ends_session(line: Seq<char>) -> bool {
    trimmed(line) == seq!['e', 'x', 'i', 't']
}

/// The prompt after a number of accepted lines.
pub open spec fn prompt_text(lines: nat) -> Seq<char> {
    "LV8("@ + digits(lines) + ")> "@
}

/// Whether a line ends the session.
pub fn asks_to_exit(line: &str) -> (r: bool)
    ensures
        r == ends_session(line@),
{
    proof {
        reveal_strlit("exit");
        assert("exit"@ =~= seq!['e', 'x', 'i', 't']);
    }
    trim(line) == "exit".to_owned()
}

impl Repl {
    /// A session in which no line was accepted yet.
    pub fn new() -> (r: Self)
        ensures
            r.lines == 0,
    {
        Repl { lines: 0 }
    }

    /// The prompt for the next line: `LV8(n)> `, where `n` is the number of
    /// lines that were accepted.
    pub fn prompt(&self) -> (r: String)
        ensures
            r@ == prompt_text(self.lines as nat),
    {
        let mut text = "LV8(".to_owned();
        text.append(decimal(self.lines).as_str());
        text.append(")> ");
        text
    }

    /// Takes a line that was read. A line that ends the session is not
    /// accepted, and the result is false. Any other line is accepted and
    /// counted, whether or not it can be parsed, and the result is true:
    /// the line is to be parsed and run.
    pub fn accept(&mut self, line: &str) -> (r: bool)
        ensures
            r == !ends_session(line@),
            !r ==> final(self).lines == old(self).lines,
            r && old(self).lines < usize::MAX ==> final(self).lines == old(self).lines + 1,
            r && old(self).lines == usize::MAX ==> final(self).lines == usize::MAX,
    {
        if asks_to_exit(line) {
            return false;
        }
        if self.lines < usize::MAX {
            self.lines += 1;
        }
        true
    }
}

} // verus!
