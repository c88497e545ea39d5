//! Program state: the byte tape, the pointer, the instruction stream, the
//! program counter and the accumulated output log.
//!
//! A `Program` is built once from source text and a fixed tape length, is
//! mutated only by the stepper, and is discarded when the program counter
//! reaches the instruction count or an error surfaces.

use vstd::prelude::*;

use crate::instr::spec_compile;
use crate::instr::Instruction;

verus! {

/// The tape length every program is built with.
pub const TAPE_LEN: usize = 65535;

/// Everything the stepper can fail with. Every error is terminal: the first
/// one ends the execution.
#[derive(Clone, Copy, Debug, PartialEq, Eq, Structural)]
pub enum BFError {
    /// The pointer would leave the tape, on either side.
    OutOfBounds,
    /// A bracket scan exhausted the instruction stream without closing.
    UnmatchedBracket,
    /// A symbol outside the alphabet reached the dispatcher. Unreachable for
    /// programs built by [`Program::build`], whose stream is a closed enum.
    InvalidInstruction,
    /// The input channel failed or ended before a byte could be read.
    IoFailure,
}

/// The result type of every fallible operation of the interpreter.
pub type BFResult<T> = Result<T, BFError>;

/// The mathematical model of a program state.
#[verifier::ext_equal]
pub struct ProgState {
    /// The tape, one byte per cell.
    pub mem: Seq<u8>,
    /// The index of the current cell.
    pub ptr: int,
    /// The sanitized instruction stream.
    pub code: Seq<Instruction>,
    /// The index of the next instruction; equal to `code.len()` at termination.
    pub pc: int,
    /// Every character emitted so far, in order.
    pub log: Seq<char>,
}

/// Well-formedness: the pointer addresses a tape cell and the program
/// counter stays within the stream, the position one past its end included.
pub open spec fn wf_state(s: ProgState) -> bool {
    &&& 0 <= s.ptr < s.mem.len()
    &&& 0 <= s.pc <= s.code.len()
}

/// An executable program: tape, pointer, instruction stream, program
/// counter and output log.
pub struct Program {
    memory: Vec<u8>,
    pointer: usize,
    code: Vec<Instruction>,
    counter: usize,
    output_log: Vec<char>,
}

impl View for Program {
    type V = ProgState;

    closed spec fn view(&self) -> ProgState {
        ProgState {
            mem: self.memory@,
            ptr: self.pointer as int,
            code: self.code@,
            pc: self.counter as int,
            log: self.output_log@,
        }
    }
}

impl Program {
    /// Well-formedness of the underlying state; established by the
    /// constructor and preserved by every method.
    pub open spec fn wf(&self) -> bool {
        wf_state(self@)
    }

    /// Builds a program from raw source text: sanitizes the text into the
    /// instruction stream and starts with a zeroed tape, the pointer and the
    /// program counter at zero, and an empty output log.
    pub fn build(code: String) -> (r: Program)
        ensures
            r.wf(),
            r@.code == spec_compile(code@),
            r@.mem.len() == TAPE_LEN,
            forall|i: int| 0 <= i < r@.mem.len() ==> r@.mem[i] == 0u8,
            r@.ptr == 0,
            r@.pc == 0,
            r@.log == Seq::<char>::empty(),
    {
        let s: &str = code.as_str();
        let n: usize = s.unicode_len();
        let mut stream: Vec<Instruction> = Vec::new();
        let mut i: usize = 0;
        while i < n
            invariant
                i <= n,
                n == s@.len(),
                stream@ == spec_compile(s@.take(i as int)),
            decreases n - i,
        {
            let c: char = s.get_char(i);
            proof {
                assert(s@.take(i + 1).drop_last() =~= s@.take(i as int));
                assert(s@.take(i + 1).last() == s@[i as int]);
            }
            match crate::instr::parse_char(c) {
                Some(ins) => stream.push(ins),
                None => {},
            }
            i += 1;
        }
        proof {
            assert(s@.take(n as int) =~= s@);
        }

        let mut memory: Vec<u8> = Vec::new();
        let mut j: usize = 0;
        while j < TAPE_LEN
            invariant
                j <= TAPE_LEN,
                memory@.len() == j,
                forall|k: int| 0 <= k < j ==> memory@[k] == 0u8,
            decreases TAPE_LEN - j,
        {
            memory.push(0u8);
            j += 1;
        }

        Program {
            memory,
            pointer: 0,
            code: stream,
            counter: 0,
            output_log: Vec::new(),
        }
    }

    /// The instruction at the current program counter.
    pub fn next_codelet(&self) -> (r: Instruction)
        requires
            0 <= self@.pc < self@.code.len(),
        ensures
            r == self@.code[self@.pc],
    {
        self.code[self.counter]
    }

    /// The current program counter.
    pub fn counter(&self) -> (r: usize)
        ensures
            r as int == self@.pc,
    {
        self.counter
    }

    /// The current pointer.
    pub fn pointer(&self) -> (r: usize)
        ensures
            r as int == self@.ptr,
    {
        self.pointer
    }

    /// The number of instructions in the stream.
    pub fn code_len(&self) -> (r: usize)
        ensures
            r as int == self@.code.len(),
    {
        self.code.len()
    }

    /// Whether the program counter has reached the instruction count.
    pub fn finished(&self) -> (r: bool)
        ensures
            r == (self@.pc == self@.code.len()),
    {
        self.counter == self.code.len()
    }

    /// The value of the current cell.
    pub fn cell(&self) -> (r: u8)
        requires
            self.wf(),
        ensures
            r == self@.mem[self@.ptr],
    {
        self.memory[self.pointer]
    }

    /// The characters emitted so far, in order.
    pub fn output_log(&self) -> (r: &Vec<char>)
        ensures
            r@ == self@.log,
    {
        &self.output_log
    }

    pub(crate) fn memory_ref(&self) -> (r: &Vec<u8>)
        ensures
            r@ == self@.mem,
    {
        &self.memory
    }

    pub(crate) fn code_ref(&self) -> (r: &Vec<Instruction>)
        ensures
            r@ == self@.code,
    {
        &self.code
    }

    pub(crate) fn set_pointer(&mut self, p: usize)
        ensures
            final(self)@ == (ProgState { ptr: p as int, ..old(self)@ }),
    {
        self.pointer = p;
    }

    pub(crate) fn set_counter(&mut self, pc: usize)
        ensures
            final(self)@ == (ProgState { pc: pc as int, ..old(self)@ }),
    {
        self.counter = pc;
    }

    pub(crate) fn set_cell(&mut self, v: u8)
        requires
            old(self).wf(),
        ensures
            final(self)@ == (ProgState { mem: old(self)@.mem.update(old(self)@.ptr, v), ..old(self)@ }),
    {
        self.memory.set(self.pointer, v);
    }

    pub(crate) fn log_push(&mut self, c: char)
        ensures
            final(self)@ == (ProgState { log: old(self)@.log.push(c), ..old(self)@ }),
    {
        self.output_log.push(c);
    }
}

} // verus!
