//! The instruction alphabet and the sanitizer.
//!
//! The sanitizer keeps exactly the characters of the eight-symbol alphabet,
//! in order, and drops everything else silently. The instruction stream a
//! program runs on is the sanitized text parsed into a closed enum, so a
//! non-alphabet symbol can never reach the stepper.

use vstd::prelude::*;

verus! {

/// The eight instructions of the language, one per alphabet symbol.
#[derive(Clone, Copy, Debug, PartialEq, Eq, Structural)]
pub enum Instruction {
    /// `<`: move the pointer one cell to the left.
    MoveLeft,
    /// `>`: move the pointer one cell to the right.
    MoveRight,
    /// `+`: increment the current cell, wrapping modulo 256.
    Increment,
    /// `-`: decrement the current cell, wrapping modulo 256.
    Decrement,
    /// `.`: emit the current cell as a character.
    Output,
    /// `,`: read one byte into the current cell.
    Input,
    /// `[`: jump past the matching close when the current cell is zero.
    LoopOpen,
    /// `]`: jump back to the matching open when the current cell is nonzero.
    LoopClose,
}

/// Whether `c` is one of the eight instruction symbols.
pub open spec fn is_instruction_char(c: char) -> bool {
    c == '<' || c == '>' || c == '+' || c == '-' || c == '.' || c == ',' || c == '[' || c == ']'
}

/// The instruction a symbol stands for, or `None` for any other character.
pub open spec fn spec_parse_char(c: char) -> Option<Instruction> {
    if c == '<' {
        Some(Instruction::MoveLeft)
    } else if c == '>' {
        Some(Instruction::MoveRight)
    } else if c == '+' {
        Some(Instruction::Increment)
    } else if c == '-' {
        Some(Instruction::Decrement)
    } else if c == '.' {
        Some(Instruction::Output)
    } else if c == ',' {
        Some(Instruction::Input)
    } else if c == '[' {
        Some(Instruction::LoopOpen)
    } else if c == ']' {
        Some(Instruction::LoopClose)
    } else {
        None
    }
}

/// The symbol an instruction is written as.
pub open spec fn instruction_char(i: Instruction) -> char {
    match i {
        Instruction::MoveLeft => '<',
        Instruction::MoveRight => '>',
        Instruction::Increment => '+',
        Instruction::Decrement => '-',
        Instruction::Output => '.',
        Instruction::Input => ',',
        Instruction::LoopOpen => '[',
        Instruction::LoopClose => ']',
    }
}

/// The ordered subsequence of `s` made of instruction symbols.
pub open spec fn spec_sanitize(s: Seq<char>) -> Seq<char> {
    s.filter(|c: char| is_instruction_char(c))
}

/// The instruction stream compiled from `s`: the instruction of each
/// alphabet symbol of `s`, in order, with every other character dropped.
pub open spec fn spec_compile(s: Seq<char>) -> Seq<Instruction>
    decreases s.len(),
{
    if s.len() == 0 {
        Seq::empty()
    } else {
        let rest = spec_compile(s.drop_last());
        match spec_parse_char(s.last()) {
            Some(i) => rest.push(i),
            None => rest,
        }
    }
}

/// Whether `c` belongs to the instruction alphabet.
pub fn check_char(c: &char) -> (r: bool)
    ensures
        r == is_instruction_char(*c),
{
    matches!(*c, '>' | '<' | '+' | '-' | '.' | ',' | '[' | ']')
}

/// Parses one symbol into its instruction; `None` outside the alphabet.
pub fn parse_char(c: char) -> (r: Option<Instruction>)
    ensures
        r == spec_parse_char(c),
        r is Some <==> is_instruction_char(c),
{
    match c {
        '<' => Some(Instruction::MoveLeft),
        '>' => Some(Instruction::MoveRight),
        '+' => Some(Instruction::Increment),
        '-' => Some(Instruction::Decrement),
        '.' => Some(Instruction::Output),
        ',' => Some(Instruction::Input),
        '[' => Some(Instruction::LoopOpen),
        ']' => Some(Instruction::LoopClose),
        _ => None,
    }
}

/// Keeps exactly the instruction symbols of `code`, in order.
pub fn sanitize(code: &str) -> (r: Vec<char>)
    ensures
        r@ == spec_sanitize(code@),
{
    let n: usize = code.unicode_len();
    let mut out: Vec<char> = Vec::new();
    let mut i: usize = 0;
    while i < n
        invariant
            i <= n,
            n == code@.len(),
            out@ == spec_sanitize(code@.take(i as int)),
        decreases n - i,
    {
        let c: char = code.get_char(i);
        proof {
            reveal(Seq::filter);
            assert(code@.take(i + 1).drop_last() =~= code@.take(i as int));
            assert(code@.take(i + 1).last() == code@[i as int]);
        }
        if check_char(&c) {
            out.push(c);
        }
        i += 1;
    }
    proof {
        assert(code@.take(n as int) =~= code@);
    }
    out
}

/// Sanitizing is idempotent: a sanitized stream passes through unchanged.
pub proof fn lemma_sanitize_idempotent(s: Seq<char>)
    ensures
        spec_sanitize(spec_sanitize(s)) == spec_sanitize(s),
    decreases s.len(),
{
    reveal(Seq::filter);
    if s.len() == 0 {
        assert(spec_sanitize(s) =~= s);
    } else {
        lemma_sanitize_idempotent(s.drop_last());
        let t = spec_sanitize(s.drop_last());
        if is_instruction_char(s.last()) {
            assert(spec_sanitize(s) == t.push(s.last()));
            assert(t.push(s.last()).drop_last() =~= t);
            assert(t.push(s.last()).last() == s.last());
            assert(spec_sanitize(t.push(s.last())) == spec_sanitize(t).push(s.last()));
        } else {
            assert(spec_sanitize(s) == t);
        }
    }
}

/// Compiling ignores non-alphabet characters: the stream compiled from the
/// sanitized text is the stream compiled from the raw text.
pub proof fn lemma_compile_of_sanitized(s: Seq<char>)
    ensures
        spec_compile(spec_sanitize(s)) == spec_compile(s),
    decreases s.len(),
{
    reveal(Seq::filter);
    if s.len() == 0 {
        assert(spec_sanitize(s) =~= s);
    } else {
        lemma_compile_of_sanitized(s.drop_last());
        let t = spec_sanitize(s.drop_last());
        if is_instruction_char(s.last()) {
            assert(spec_sanitize(s) == t.push(s.last()));
            assert(t.push(s.last()).drop_last() =~= t);
            assert(t.push(s.last()).last() == s.last());
        } else {
            assert(spec_sanitize(s) == t);
        }
    }
}

} // verus!
