//! The simulator state machine: a board and a generation counter. Each
//! command either leaves the simulator (`"q"`, `"e"`) or advances the board
//! some number of generations, counting each one.

use vstd::prelude::*;
use vstd::string::StrSliceExecFns;

use crate::grid::Grid;
use crate::rules::{next_generation, spec_iterate};

verus! {

/// One simulator command, as parsed from a trimmed input line.
#[derive(PartialEq, Eq, Structural, Clone, Copy, Debug)]
pub enum SimCmd {
    /// `"q"`: quit the whole program.
    Quit,
    /// `"e"`: hand the board back to the editor.
    ToEditor,
    /// Advance this many generations: the skip count of an `"s…"` token, or
    /// 1 for every other line.
    Advance(u8),
}

/// Signal the simulator leaves with, handed to the mode controller.
#[derive(PartialEq, Eq, Structural, Clone, Copy, Debug)]
pub enum SimOutcome {
    /// Keep simulating: read the next command.
    Continue,
    /// Quit the whole program.
    Quit,
    /// Hand the board back to the editor.
    ReturnToEditor,
}

/// The character is a decimal digit.
pub open spec fn is_digit(c: char) -> bool {
    '0' <= c && c <= '9'
}

/// Every character of the sequence is a decimal digit.
pub open spec fn all_digits(s: Seq<char>) -> bool {
    forall|i: int| 0 <= i < s.len() ==> is_digit(s[i])
}

/// The number a digit string denotes, most significant digit first.
pub open spec fn digits_val(s: Seq<char>) -> int
    decreases s.len(),
{
    if s.len() == 0 {
        0
    } else {
        digits_val(s.drop_last()) * 10 + (s.last() as int - '0' as int)
    }
}

/// How a skip token's suffix parses as an unsigned 8-bit number: an optional
/// leading plus sign, then at least one digit, and a value small enough —
/// anything else fails.
pub open spec fn spec_parse_u8(s: Seq<char>) -> Option<u8> {
    let body = if s.len() >= 1 && s[0] == '+' {
        s.subrange(1, s.len() as int)
    } else {
        s
    };
    if body.len() >= 1 && all_digits(body) && digits_val(body) <= 255 {
        Some(digits_val(body) as u8)
    } else {
        None
    }
}

/// The skip count a token's suffix yields: its number if it parses, else 1.
pub open spec fn spec_parse_skip(s: Seq<char>) -> u8 {
    match spec_parse_u8(s) {
        Some(v) => v,
        None => 1u8,
    }
}

/// How a trimmed input line is read in the simulator: `"q"` quits, `"e"`
/// returns to the editor, a token of two or more characters starting with
/// `'s'` advances by its parsed skip count, and every other line advances by
/// exactly one generation.
pub open spec fn spec_parse_sim_cmd(s: Seq<char>) -> SimCmd {
    if s.len() == 1 && s[0] == 'q' {
        SimCmd::Quit
    } else if s.len() == 1 && s[0] == 'e' {
        SimCmd::ToEditor
    } else if s.len() >= 2 && s[0] == 's' {
        SimCmd::Advance(spec_parse_skip(s.subrange(1, s.len() as int)))
    } else {
        SimCmd::Advance(1u8)
    }
}

/// A digit string's value never shrinks when digits are appended: the value
/// of a prefix bounds the value of the whole from below.
proof fn lemma_digits_val_prefix(s: Seq<char>, i: int)
    requires
        all_digits(s),
        0 <= i <= s.len(),
    ensures
        0 <= digits_val(s.take(i)) <= digits_val(s),
    decreases s.len() - i,
{
    if i == s.len() {
        assert(s.take(i) =~= s);
        lemma_digits_val_nonneg(s);
    } else {
        lemma_digits_val_prefix(s, i + 1);
        let t = s.take(i + 1);
        assert(t.drop_last() =~= s.take(i));
        assert(digits_val(t) == digits_val(s.take(i)) * 10 + (s[i] as int - '0' as int));
        lemma_digits_val_nonneg(s.take(i));
    }
}

/// A digit string denotes a non-negative number.
proof fn lemma_digits_val_nonneg(s: Seq<char>)
    requires
        all_digits(s),
    ensures
        digits_val(s) >= 0,
    decreases s.len(),
{
    if s.len() > 0 {
        assert(all_digits(s.drop_last()));
        lemma_digits_val_nonneg(s.drop_last());
    }
}

/// Parse the suffix of a skip token; on any failure the skip defaults to 1.
pub fn parse_skip(s: &str) -> (k: u8)
    ensures
        k == spec_parse_skip(s@),
{
    let len = s.unicode_len();
    let start: usize = if len >= 1 && s.get_char(0) == '+' {
        1
    } else {
        0
    };
    let ghost body = if s@.len() >= 1 && s@[0] == '+' {
        s@.subrange(1, s@.len() as int)
    } else {
        s@
    };
    proof {
        assert(body =~= s@.subrange(start as int, len as int));
    }
    if start >= len {
        // no digits at all
        return 1;
    }
    let mut acc: u32 = 0;
    let mut i: usize = start;
    while i < len
        invariant
            start <= i <= len,
            len == s@.len(),
            start <= 1,
            body == s@.subrange(start as int, len as int),
            body == (if s@.len() >= 1 && s@[0] == '+' {
                s@.subrange(1, s@.len() as int)
            } else {
                s@
            }),
            all_digits(body.take(i - start)),
            acc == digits_val(body.take(i - start)),
            acc <= 255,
        decreases len - i,
    {
        let c = s.get_char(i);
        proof {
            assert(body.take(i + 1 - start).drop_last() =~= body.take(i - start));
            assert(body[i - start] == s@[i as int]);
        }
        if !(c >= '0' && c <= '9') {
            proof {
                assert(!is_digit(body[i - start]));
                assert(!all_digits(body));
            }
            return 1;
        }
        let d: u32 = (c as u32) - ('0' as u32);
        acc = acc * 10 + d;
        proof {
            assert(acc == digits_val(body.take(i + 1 - start)));
        }
        if acc > 255 {
            proof {
                if all_digits(body) {
                    lemma_digits_val_prefix(body, i + 1 - start);
                    assert(digits_val(body) >= acc > 255);
                }
            }
            return 1;
        }
        i = i + 1;
    }
    proof {
        assert(body.take(len - start) =~= body);
        assert(spec_parse_u8(s@) == Some(acc as u8));
    }
    acc as u8
}

/// The simulator's state: the current board and how many generations have
/// been computed since it was entered.
pub struct SimState {
    /// The evolving board.
    pub grid: Grid,
    /// Generations computed since the simulator was entered.
    pub generation: u64,
}

impl SimState {
    /// A well-formed simulator holds a full board.
    pub open spec fn wf(&self) -> bool {
        self.grid.wf()
    }

    /// Enter the simulator on a board handed over by the editor: the
    /// generation counter starts at zero.
    pub fn new(grid: Grid) -> (st: SimState)
        requires
            grid.wf(),
        ensures
            st.wf(),
            st.grid@ == grid@,
            st.generation == 0,
    {
        SimState { grid, generation: 0 }
    }

    /// Parse one trimmed input line into a simulator command.
    pub fn parse_command(cmd: &str) -> (c: SimCmd)
        ensures
            c == spec_parse_sim_cmd(cmd@),
    {
        let len = cmd.unicode_len();
        if len == 1 {
            let c0 = cmd.get_char(0);
            if c0 == 'q' {
                return SimCmd::Quit;
            }
            if c0 == 'e' {
                return SimCmd::ToEditor;
            }
            return SimCmd::Advance(1);
        }
        if len >= 2 {
            let c0 = cmd.get_char(0);
            if c0 == 's' {
                let rest = cmd.substring_char(1, len);
                let k = parse_skip(rest);
                return SimCmd::Advance(k);
            }
        }
        SimCmd::Advance(1)
    }

    /// Apply one trimmed input line to the simulator: leave with a signal on
    /// `"q"` or `"e"`, else advance the board by the command's skip count,
    /// counting every generation computed.
    pub fn sim_step(&mut self, cmd: &str) -> (out: SimOutcome)
        requires
            old(self).wf(),
            old(self).generation <= u64::MAX - 255,
        ensures
            final(self).wf(),
            match spec_parse_sim_cmd(cmd@) {
                SimCmd::Quit => out == SimOutcome::Quit && final(self).grid@ == old(self).grid@
                    && final(self).generation == old(self).generation,
                SimCmd::ToEditor => out == SimOutcome::ReturnToEditor && final(self).grid@ == old(
                    self,
                ).grid@ && final(self).generation == old(self).generation,
                SimCmd::Advance(k) => out == SimOutcome::Continue && final(self).grid@
                    == spec_iterate(old(self).grid@, k as nat) && final(self).generation == old(
                    self,
                ).generation + k,
            },
    {
        let c = Self::parse_command(cmd);
        match c {
            SimCmd::Quit => SimOutcome::Quit,
            SimCmd::ToEditor => SimOutcome::ReturnToEditor,
            SimCmd::Advance(k) => {
                let mut run: u8 = 0;
                while run < k
                    invariant
                        run <= k,
                        self.grid.wf(),
                        self.grid@ == spec_iterate(old(self).grid@, run as nat),
                        self.generation == old(self).generation + run,
                        old(self).generation <= u64::MAX - 255,
                    decreases k - run,
                {
                    self.generation = self.generation + 1;
                    self.grid = next_generation(&self.grid);
                    run = run + 1;
                }
                SimOutcome::Continue
            },
        }
    }
}

} // verus!
