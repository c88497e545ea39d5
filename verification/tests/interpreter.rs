use brainfuck_interpeter::BFError;
use brainfuck_interpeter::Instruction;
use brainfuck_interpeter::Program;

fn run_to_end(source: &str, input: Vec<u8>) -> (Program, Vec<u8>, Result<bool, BFError>) {
    let mut program = Program::build(source.to_string());
    let mut input = input;
    let r = program.run(&mut input, 1_000_000);
    (program, input, r)
}

#[test]
fn build_filters_source_text() {
    let program = Program::build("hello+world.".to_string());
    assert_eq!(program.code_len(), 2);
    assert_eq!(program.counter(), 0);
    assert_eq!(program.pointer(), 0);
    assert_eq!(program.cell(), 0);
    assert!(program.output_log().is_empty());
}

#[test]
fn empty_program_is_finished_at_once() {
    let mut program = Program::build("just a comment".to_string());
    assert!(program.finished());
    let mut input: Vec<u8> = Vec::new();
    assert_eq!(program.run(&mut input, 10), Ok(true));
    assert_eq!(program.counter(), 0);
}

#[test]
fn next_codelet_follows_the_counter() {
    let mut program = Program::build("+-".to_string());
    let mut input: Vec<u8> = Vec::new();
    assert_eq!(program.next_codelet(), Instruction::Increment);
    assert_eq!(program.step(&mut input), Ok(None));
    assert_eq!(program.next_codelet(), Instruction::Decrement);
}

#[test]
fn cell_arithmetic_wraps_both_ways() {
    let mut program = Program::build("-+".to_string());
    let mut input: Vec<u8> = Vec::new();
    assert_eq!(program.step(&mut input), Ok(None));
    assert_eq!(program.cell(), 255);
    assert_eq!(program.step(&mut input), Ok(None));
    assert_eq!(program.cell(), 0);
}

#[test]
fn pointer_underflow_fails_out_of_bounds() {
    let mut program = Program::build("<".to_string());
    let mut input: Vec<u8> = Vec::new();
    assert_eq!(program.step(&mut input), Err(BFError::OutOfBounds));
    assert_eq!(program.pointer(), 0);
    assert_eq!(program.counter(), 0);
}

#[test]
fn pointer_underflow_fails_independent_of_other_state() {
    let (program, _, r) = run_to_end("+++>-><<<", vec![7]);
    assert_eq!(r, Err(BFError::OutOfBounds));
    assert_eq!(program.pointer(), 0);
}

#[test]
fn pointer_overflow_fails_out_of_bounds() {
    let source = ">".repeat(65535);
    let (program, _, r) = run_to_end(&source, Vec::new());
    assert_eq!(r, Err(BFError::OutOfBounds));
    assert_eq!(program.pointer(), 65534);
    assert_eq!(program.counter(), 65534);
}

#[test]
fn empty_loop_on_zero_cell_terminates_immediately() {
    let mut program = Program::build("[]".to_string());
    let mut input: Vec<u8> = Vec::new();
    assert_eq!(program.run(&mut input, 1), Ok(true));
    assert_eq!(program.counter(), 2);
}

#[test]
fn loop_body_is_skipped_when_cell_is_zero() {
    let mut program = Program::build("[+++]".to_string());
    let mut input: Vec<u8> = Vec::new();
    assert_eq!(program.run(&mut input, 1), Ok(true));
    assert_eq!(program.counter(), 5);
    assert_eq!(program.cell(), 0);
}

#[test]
fn lone_open_bracket_fails_unmatched() {
    let (_, _, r) = run_to_end("[", Vec::new());
    assert_eq!(r, Err(BFError::UnmatchedBracket));
}

#[test]
fn close_bracket_with_nonzero_cell_fails_unmatched() {
    let (program, _, r) = run_to_end("+]", Vec::new());
    assert_eq!(r, Err(BFError::UnmatchedBracket));
    assert_eq!(program.counter(), 1);
}

#[test]
fn close_bracket_with_zero_cell_falls_through() {
    let (program, _, r) = run_to_end("]", Vec::new());
    assert_eq!(r, Ok(true));
    assert_eq!(program.counter(), 1);
}

#[test]
fn output_records_the_cell_value() {
    let (program, _, r) = run_to_end("+++.", Vec::new());
    assert_eq!(r, Ok(true));
    assert_eq!(program.output_log(), &vec!['\u{3}']);
}

#[test]
fn step_returns_the_emitted_character() {
    let mut program = Program::build("+.".to_string());
    let mut input: Vec<u8> = Vec::new();
    assert_eq!(program.step(&mut input), Ok(None));
    assert_eq!(program.step(&mut input), Ok(Some('\u{1}')));
}

#[test]
fn input_byte_is_incremented_then_emitted() {
    let (program, rest, r) = run_to_end(",+.", vec![64]);
    assert_eq!(r, Ok(true));
    assert_eq!(program.output_log(), &vec!['A']);
    assert!(rest.is_empty());
}

#[test]
fn input_on_exhausted_channel_fails_io() {
    let mut program = Program::build(",".to_string());
    let mut input: Vec<u8> = Vec::new();
    assert_eq!(program.step(&mut input), Err(BFError::IoFailure));
    assert_eq!(program.counter(), 0);
}

#[test]
fn input_bytes_are_consumed_in_order() {
    let (program, rest, r) = run_to_end(",>,>,.", vec![10, 20, 30, 40]);
    assert_eq!(r, Ok(true));
    assert_eq!(program.cell(), 30);
    assert_eq!(rest, vec![40]);
}

#[test]
fn nested_loops_multiply() {
    let (program, _, r) = run_to_end("++[>++[>+<-]<-]>>", Vec::new());
    assert_eq!(r, Ok(true));
    assert_eq!(program.cell(), 4);
    assert_eq!(program.pointer(), 2);
}

#[test]
fn counter_loop_drains_the_cell() {
    let (program, _, r) = run_to_end("+++++[-]", Vec::new());
    assert_eq!(r, Ok(true));
    assert_eq!(program.cell(), 0);
    assert_eq!(program.counter(), 8);
}

#[test]
fn run_is_reproducible_across_runs() {
    let (p1, rest1, r1) = run_to_end("+++[->++<]>.", vec![5]);
    let (p2, rest2, r2) = run_to_end("+++[->++<]>.", vec![5]);
    assert_eq!(r1, r2);
    assert_eq!(p1.counter(), p2.counter());
    assert_eq!(p1.pointer(), p2.pointer());
    assert_eq!(p1.cell(), p2.cell());
    assert_eq!(p1.output_log(), p2.output_log());
    assert_eq!(rest1, rest2);
}

#[test]
fn finished_run_does_not_depend_on_the_budget() {
    let mut p1 = Program::build("+++[-]".to_string());
    let mut p2 = Program::build("+++[-]".to_string());
    let mut i1: Vec<u8> = Vec::new();
    let mut i2: Vec<u8> = Vec::new();
    assert_eq!(p1.run(&mut i1, 100), Ok(true));
    assert_eq!(p2.run(&mut i2, 1_000_000), Ok(true));
    assert_eq!(p1.counter(), p2.counter());
    assert_eq!(p1.pointer(), p2.pointer());
    assert_eq!(p1.cell(), p2.cell());
}

#[test]
fn run_reports_an_exhausted_budget() {
    let mut program = Program::build("+[]".to_string());
    let mut input: Vec<u8> = Vec::new();
    assert_eq!(program.run(&mut input, 100), Ok(false));
    assert!(!program.finished());
}

#[test]
fn run_can_be_resumed_after_the_budget() {
    let mut program = Program::build("++++[-]".to_string());
    let mut input: Vec<u8> = Vec::new();
    assert_eq!(program.run(&mut input, 3), Ok(false));
    assert_eq!(program.run(&mut input, 1_000_000), Ok(true));
    assert_eq!(program.cell(), 0);
}
