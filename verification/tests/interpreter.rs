use cmeow::interpreter::interpret_transpiletokens;
use cmeow::interpreter::RunResult;
use cmeow::tokens::RunError;
use cmeow::tokens::TranspileToken;
use cmeow::transpiler::string_to_transpiletokens;

fn run_glyphs(src: &str, input: &[u8], fuel: u64) -> RunResult {
    let program = string_to_transpiletokens(src);
    interpret_transpiletokens(&program, &input.to_vec(), fuel)
}

#[test]
fn empty_program_halts_with_no_output() {
    assert_eq!(run_glyphs("", &[], 10), RunResult::Halted(vec![]));
}

#[test]
fn loop_on_zero_cell_is_skipped_entirely() {
    assert_eq!(run_glyphs("[+]", &[], 10), RunResult::Halted(vec![]));
}

#[test]
fn skipped_loop_performs_no_output() {
    assert_eq!(run_glyphs("[.].", &[], 10), RunResult::Halted(vec![0]));
}

#[test]
fn nested_loops_are_skipped_as_one() {
    assert_eq!(run_glyphs("[[+].].", &[], 20), RunResult::Halted(vec![0]));
}

#[test]
fn loop_repeats_until_cell_is_zero() {
    assert_eq!(run_glyphs("+++[-]", &[], 100), RunResult::Halted(vec![]));
    assert_eq!(run_glyphs("+++[-].", &[], 100), RunResult::Halted(vec![0]));
}

#[test]
fn loop_body_runs_once_per_count() {
    // Move three units from cell 0 to cell 1, then emit cell 1.
    assert_eq!(run_glyphs("+++[->+<]>.", &[], 100), RunResult::Halted(vec![3]));
}

#[test]
fn orphan_loop_end_on_zero_cell_is_a_noop() {
    assert_eq!(run_glyphs("]", &[], 10), RunResult::Halted(vec![]));
}

#[test]
fn orphan_loop_end_on_nonzero_cell_is_fatal() {
    assert_eq!(
        run_glyphs("+]", &[], 10),
        RunResult::Failed(RunError::UnmatchedLoopEnd)
    );
}

#[test]
fn unmatched_loop_start_terminates_normally() {
    assert_eq!(run_glyphs("[.", &[], 10), RunResult::Halted(vec![]));
    assert_eq!(run_glyphs("+[+++", &[], 10), RunResult::Halted(vec![]));
}

#[test]
fn input_byte_is_echoed_unchanged() {
    assert_eq!(run_glyphs(",.", &[65], 10), RunResult::Halted(vec![65]));
}

#[test]
fn input_without_a_byte_available_is_fatal() {
    assert_eq!(run_glyphs(",", &[], 10), RunResult::Failed(RunError::InputExhausted));
    assert_eq!(
        run_glyphs(",.,", &[7], 10),
        RunResult::Failed(RunError::InputExhausted)
    );
}

#[test]
fn cell_decrement_wraps_to_255() {
    assert_eq!(run_glyphs("-.", &[], 10), RunResult::Halted(vec![255]));
}

#[test]
fn cell_increment_wraps_255_to_zero() {
    assert_eq!(run_glyphs(",+.", &[255], 10), RunResult::Halted(vec![0]));
}

#[test]
fn pointer_wraps_left_to_the_last_cell() {
    assert_eq!(run_glyphs("<+.", &[], 10), RunResult::Halted(vec![1]));
}

#[test]
fn pointer_wraps_right_from_the_last_cell_to_zero() {
    // Mark cell 0, step right across the whole tape, and emit the cell the
    // pointer lands on: the wraparound brings it back to the mark.
    let mut program = vec![TranspileToken::Increment];
    for _ in 0..65536 {
        program.push(TranspileToken::Next);
    }
    program.push(TranspileToken::Output);
    assert_eq!(
        interpret_transpiletokens(&program, &vec![], 70000),
        RunResult::Halted(vec![1])
    );
}

#[test]
fn comment_characters_do_nothing() {
    assert_eq!(run_glyphs("hello ,. world", &[9], 30), RunResult::Halted(vec![9]));
}

#[test]
fn running_out_of_fuel_is_reported() {
    assert_eq!(run_glyphs("+[]", &[], 100), RunResult::OutOfFuel);
    assert_eq!(run_glyphs("+++[-]", &[], 3), RunResult::OutOfFuel);
}

#[test]
fn a_larger_budget_extends_the_same_run() {
    assert_eq!(run_glyphs("+++[-].", &[], 5), RunResult::OutOfFuel);
    let done = RunResult::Halted(vec![0]);
    assert_eq!(run_glyphs("+++[-].", &[], 11), done);
    assert_eq!(run_glyphs("+++[-].", &[], 1000), done);
}
