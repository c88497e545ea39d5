//! The stepper: executes exactly one instruction against a program state.
//!
//! The step semantics are given by the spec function [`spec_step`], which the
//! executable [`Program::step`] is proved to follow exactly. Loops are
//! implemented by the forward and backward bracket-matching scans
//! [`scan_forward`] and [`scan_backward`], which track nesting depth and
//! never use a call stack or a precomputed table.

use vstd::prelude::*;

use crate::instr::Instruction;
use crate::state::wf_state;
use crate::state::BFError;
use crate::state::BFResult;
use crate::state::ProgState;
use crate::state::Program;

verus! {

/// The current cell after an increment, wrapping modulo 256.
pub open spec fn wrap_inc(b: u8) -> u8 {
    if b == 255 {
        0
    } else {
        (b + 1) as u8
    }
}

/// The current cell after a decrement, wrapping modulo 256.
pub open spec fn wrap_dec(b: u8) -> u8 {
    if b == 0 {
        255
    } else {
        (b - 1) as u8
    }
}

/// The byte to store next from the input channel: its first byte, or `None`
/// when the channel has ended.
pub open spec fn first_input(inp: Seq<u8>) -> Option<u8> {
    if inp.len() > 0 {
        Some(inp[0])
    } else {
        None
    }
}

/// What remains of the input channel after a step that consumed a byte or
/// did not.
pub open spec fn rest_input(inp: Seq<u8>, consumed: bool) -> Seq<u8> {
    if consumed {
        inp.drop_first()
    } else {
        inp
    }
}

/// What one step does: fails with a terminal error, leaving the state as it
/// was, or steps to a successor state, possibly consuming one input byte and
/// possibly emitting one character.
pub enum StepOutcome {
    /// The step failed; the state is unchanged.
    Failed { err: BFError },
    /// The step succeeded with successor state `post`.
    Stepped { post: ProgState, consumed: bool, emitted: Option<char> },
}

/// Scans forward for the close bracket matching an open one: `depth` is the
/// number of opens still unmatched before position `i`. Returns the position
/// where the depth first returns to zero, or `None` when the stream ends
/// first.
pub open spec fn scan_forward(code: Seq<Instruction>, i: int, depth: int) -> Option<int>
    decreases code.len() - i when 0 <= i <= code.len()
{
    if i >= code.len() {
        None
    } else {
        let nd = match code[i] {
            Instruction::LoopOpen => depth + 1,
            Instruction::LoopClose => depth - 1,
            _ => depth,
        };
        if nd == 0 {
            Some(i)
        } else {
            scan_forward(code, i + 1, nd)
        }
    }
}

/// Scans backward for the open bracket matching a close one: `depth` is the
/// number of closes still unmatched after position `i`. Returns the position
/// where the depth first returns to zero, or `None` when the scan runs off
/// the start.
pub open spec fn scan_backward(code: Seq<Instruction>, i: int, depth: int) -> Option<int>
    decreases i + 1 when i < code.len()
{
    if i < 0 {
        None
    } else {
        let nd = match code[i] {
            Instruction::LoopClose => depth + 1,
            Instruction::LoopOpen => depth - 1,
            _ => depth,
        };
        if nd == 0 {
            Some(i)
        } else {
            scan_backward(code, i - 1, nd)
        }
    }
}

/// A successful forward scan stops inside the stream, at or after where it
/// started.
pub proof fn lemma_scan_forward_bounds(code: Seq<Instruction>, i: int, depth: int)
    requires
        0 <= i <= code.len(),
    ensures
        match scan_forward(code, i, depth) {
            Some(j) => i <= j < code.len(),
            None => true,
        },
    decreases code.len() - i,
{
    if i < code.len() {
        let nd = match code[i] {
            Instruction::LoopOpen => depth + 1,
            Instruction::LoopClose => depth - 1,
            _ => depth,
        };
        if nd != 0 {
            lemma_scan_forward_bounds(code, i + 1, nd);
        }
    }
}

/// A successful backward scan stops inside the stream, at or before where it
/// started.
pub proof fn lemma_scan_backward_bounds(code: Seq<Instruction>, i: int, depth: int)
    requires
        i < code.len(),
    ensures
        match scan_backward(code, i, depth) {
            Some(j) => 0 <= j <= i,
            None => true,
        },
    decreases i + 1,
{
    if i >= 0 {
        let nd = match code[i] {
            Instruction::LoopClose => depth + 1,
            Instruction::LoopOpen => depth - 1,
            _ => depth,
        };
        if nd != 0 {
            lemma_scan_backward_bounds(code, i - 1, nd);
        }
    }
}

/// The step semantics: what executing the instruction at `s.pc` does to a
/// well-formed state `s` whose program counter has not reached the end,
/// given the next available input byte.
pub open spec fn spec_step(s: ProgState, next_in: Option<u8>) -> StepOutcome
    recommends
        wf_state(s),
        s.pc < s.code.len(),
{
    let cell = s.mem[s.ptr];
    match s.code[s.pc] {
        Instruction::MoveLeft => if s.ptr == 0 {
            StepOutcome::Failed { err: BFError::OutOfBounds }
        } else {
            StepOutcome::Stepped {
                post: ProgState { ptr: s.ptr - 1, pc: s.pc + 1, ..s },
                consumed: false,
                emitted: None,
            }
        },
        Instruction::MoveRight => if s.ptr + 1 >= s.mem.len() {
            StepOutcome::Failed { err: BFError::OutOfBounds }
        } else {
            StepOutcome::Stepped {
                post: ProgState { ptr: s.ptr + 1, pc: s.pc + 1, ..s },
                consumed: false,
                emitted: None,
            }
        },
        Instruction::Increment => StepOutcome::Stepped {
            post: ProgState { mem: s.mem.update(s.ptr, wrap_inc(cell)), pc: s.pc + 1, ..s },
            consumed: false,
            emitted: None,
        },
        Instruction::Decrement => StepOutcome::Stepped {
            post: ProgState { mem: s.mem.update(s.ptr, wrap_dec(cell)), pc: s.pc + 1, ..s },
            consumed: false,
            emitted: None,
        },
        Instruction::Output => StepOutcome::Stepped {
            post: ProgState { log: s.log.push(cell as char), pc: s.pc + 1, ..s },
            consumed: false,
            emitted: Some(cell as char),
        },
        Instruction::Input => match next_in {
            None => StepOutcome::Failed { err: BFError::IoFailure },
            Some(b) => StepOutcome::Stepped {
                post: ProgState { mem: s.mem.update(s.ptr, b), pc: s.pc + 1, ..s },
                consumed: true,
                emitted: None,
            },
        },
        Instruction::LoopOpen => if cell == 0 {
            match scan_forward(s.code, s.pc + 1, 1) {
                Some(j) => StepOutcome::Stepped {
                    post: ProgState { pc: j + 1, ..s },
                    consumed: false,
                    emitted: None,
                },
                None => StepOutcome::Failed { err: BFError::UnmatchedBracket },
            }
        } else {
            StepOutcome::Stepped {
                post: ProgState { pc: s.pc + 1, ..s },
                consumed: false,
                emitted: None,
            }
        },
        Instruction::LoopClose => if cell != 0 {
            match scan_backward(s.code, s.pc - 1, 1) {
                Some(j) => StepOutcome::Stepped {
                    post: ProgState { pc: j, ..s },
                    consumed: false,
                    emitted: None,
                },
                None => StepOutcome::Failed { err: BFError::UnmatchedBracket },
            }
        } else {
            StepOutcome::Stepped {
                post: ProgState { pc: s.pc + 1, ..s },
                consumed: false,
                emitted: None,
            }
        },
    }
}

/// A step taken from a well-formed state leaves a well-formed state with the
/// same instruction stream and the same tape length.
pub proof fn lemma_step_preserves_wf(s: ProgState, next_in: Option<u8>)
    requires
        wf_state(s),
        s.pc < s.code.len(),
    ensures
        match spec_step(s, next_in) {
            StepOutcome::Stepped { post, .. } => {
                &&& wf_state(post)
                &&& post.code == s.code
                &&& post.mem.len() == s.mem.len()
            },
            StepOutcome::Failed { .. } => true,
        },
{
    match s.code[s.pc] {
        Instruction::LoopOpen => {
            lemma_scan_forward_bounds(s.code, s.pc + 1, 1);
        },
        Instruction::LoopClose => {
            lemma_scan_backward_bounds(s.code, s.pc - 1, 1);
        },
        _ => {},
    }
}

/// Finds the matching close bracket for the open one at `pc`: the position
/// where the forward nesting scan returns to depth zero.
fn find_forward_match(code: &Vec<Instruction>, pc: usize) -> (r: Option<usize>)
    requires
        pc < code@.len(),
    ensures
        match r {
            Some(j) => Some(j as int) == scan_forward(code@, pc + 1, 1) && pc < j < code@.len(),
            None => scan_forward(code@, pc + 1, 1) is None,
        },
{
    let n: usize = code.len();
    let ghost start: int = pc + 1;
    let mut j: usize = pc + 1;
    let mut depth: usize = 1;
    while depth != 0
        invariant
            pc + 1 <= j <= n,
            n == code@.len(),
            start == pc + 1,
            depth <= 1 + j - start,
            depth != 0 ==> scan_forward(code@, start, 1) == scan_forward(code@, j as int, depth as int),
            depth == 0 ==> scan_forward(code@, start, 1) == Some(j as int),
        decreases n - j, depth,
    {
        if j == n {
            return None;
        }
        let nd: usize = match code[j] {
            Instruction::LoopOpen => depth + 1,
            Instruction::LoopClose => depth - 1,
            _ => depth,
        };
        if nd == 0 {
            depth = 0;
        } else {
            depth = nd;
            j += 1;
        }
    }
    proof {
        lemma_scan_forward_bounds(code@, start, 1);
    }
    Some(j)
}

/// Finds the matching open bracket for the close one at `pc`: the position
/// where the backward nesting scan returns to depth zero.
fn find_backward_match(code: &Vec<Instruction>, pc: usize) -> (r: Option<usize>)
    requires
        pc < code@.len(),
    ensures
        match r {
            Some(j) => Some(j as int) == scan_backward(code@, pc - 1, 1) && j < pc,
            None => scan_backward(code@, pc - 1, 1) is None,
        },
{
    if pc == 0 {
        return None;
    }
    let n: usize = code.len();
    let ghost start: int = pc - 1;
    let mut j: usize = pc - 1;
    let mut depth: usize = 1;
    while depth != 0
        invariant
            0 <= j <= start,
            start == pc - 1,
            start <= n - 2,
            n == code@.len(),
            depth <= 1 + start - j,
            depth != 0 ==> scan_backward(code@, start, 1) == scan_backward(code@, j as int, depth as int),
            depth == 0 ==> scan_backward(code@, start, 1) == Some(j as int),
        decreases j, depth,
    {
        let nd: usize = match code[j] {
            Instruction::LoopClose => depth + 1,
            Instruction::LoopOpen => depth - 1,
            _ => depth,
        };
        if nd == 0 {
            depth = 0;
        } else if j == 0 {
            proof {
                reveal_with_fuel(scan_backward, 2);
                assert(scan_backward(code@, 0, depth as int) is None);
            }
            return None;
        } else {
            depth = nd;
            j -= 1;
        }
    }
    Some(j)
}

impl Program {
    /// Executes exactly one instruction: the one at the current program
    /// counter, which advances by one unless a loop bracket redirects it.
    /// Consumes the front of `input` on an input instruction; returns the
    /// emitted character, if any, so a caller can forward it to a sink. On
    /// an error the program and the input are left unchanged.
    pub fn step(&mut self, input: &mut Vec<u8>) -> (r: BFResult<Option<char>>)
        requires
            old(self).wf(),
            old(self)@.pc < old(self)@.code.len(),
        ensures
            final(self).wf(),
            final(self)@.code == old(self)@.code,
            final(self)@.mem.len() == old(self)@.mem.len(),
            match spec_step(old(self)@, first_input(old(input)@)) {
                StepOutcome::Stepped { post, consumed, emitted } => {
                    &&& r == Result::<Option<char>, BFError>::Ok(emitted)
                    &&& final(self)@ == post
                    &&& final(input)@ == rest_input(old(input)@, consumed)
                },
                StepOutcome::Failed { err } => {
                    &&& r == Result::<Option<char>, BFError>::Err(err)
                    &&& final(self)@ == old(self)@
                    &&& final(input)@ == old(input)@
                },
            },
    {
        proof {
            lemma_step_preserves_wf(old(self)@, first_input(old(input)@));
        }
        let pc: usize = self.counter();
        let ptr: usize = self.pointer();
        let cell: u8 = self.cell();
        // Reading the lengths as machine words bounds the program counter
        // and the pointer, so the increments below cannot overflow.
        let n: usize = self.code_ref().len();
        let m: usize = self.memory_ref().len();
        match self.next_codelet() {
            Instruction::MoveLeft => {
                if ptr == 0 {
                    return Err(BFError::OutOfBounds);
                }
                self.set_pointer(ptr - 1);
                self.set_counter(pc + 1);
                Ok(None)
            },
            Instruction::MoveRight => {
                if ptr + 1 >= m {
                    return Err(BFError::OutOfBounds);
                }
                self.set_pointer(ptr + 1);
                self.set_counter(pc + 1);
                Ok(None)
            },
            Instruction::Increment => {
                self.set_cell(if cell == 255 { 0 } else { cell + 1 });
                self.set_counter(pc + 1);
                Ok(None)
            },
            Instruction::Decrement => {
                self.set_cell(if cell == 0 { 255 } else { cell - 1 });
                self.set_counter(pc + 1);
                Ok(None)
            },
            Instruction::Output => {
                let c: char = cell as char;
                self.log_push(c);
                self.set_counter(pc + 1);
                Ok(Some(c))
            },
            Instruction::Input => {
                if input.len() == 0 {
                    return Err(BFError::IoFailure);
                }
                let b: u8 = input.remove(0);
                proof {
                    assert(input@ =~= rest_input(old(input)@, true));
                }
                self.set_cell(b);
                self.set_counter(pc + 1);
                Ok(None)
            },
            Instruction::LoopOpen => {
                if cell == 0 {
                    match find_forward_match(self.code_ref(), pc) {
                        Some(j) => {
                            self.set_counter(j + 1);
                            Ok(None)
                        },
                        None => Err(BFError::UnmatchedBracket),
                    }
                } else {
                    self.set_counter(pc + 1);
                    Ok(None)
                }
            },
            Instruction::LoopClose => {
                if cell != 0 {
                    match find_backward_match(self.code_ref(), pc) {
                        Some(j) => {
                            self.set_counter(j);
                            Ok(None)
                        },
                        None => Err(BFError::UnmatchedBracket),
                    }
                } else {
                    self.set_counter(pc + 1);
                    Ok(None)
                }
            },
        }
    }
}

/// Decrementing the pointer while it equals zero always fails with an
/// out-of-bounds error, whatever the rest of the state and the input hold.
pub proof fn lemma_move_left_at_zero_fails(s: ProgState, next_in: Option<u8>)
    requires
        0 <= s.pc < s.code.len(),
        s.code[s.pc] == Instruction::MoveLeft,
        s.ptr == 0,
    ensures
        spec_step(s, next_in) == (StepOutcome::Failed { err: BFError::OutOfBounds }),
{
}

/// Cell arithmetic wraps modulo 256: incrementing 255 gives 0 and
/// decrementing 0 gives 255, and otherwise the cell moves by one.
pub proof fn lemma_cell_arithmetic_wraps(b: u8)
    ensures
        wrap_inc(b) == (b + 1) % 256,
        wrap_dec(b) == (b + 255) % 256,
        wrap_inc(255) == 0,
        wrap_dec(0) == 255,
{
}

} // verus!
