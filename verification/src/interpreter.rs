//! Execution of instruction sequences against a wraparound byte tape.
//!
//! The machine is modeled by a small-step function over ghost states and a
//! fuel-bounded big-step function iterating it.  A program may loop
//! forever, so the executable interpreter takes a step budget and reports
//! separately that the budget ran out; the run itself is deterministic, so
//! a larger budget only ever extends the same execution.

use vstd::prelude::*;

use crate::tokens::RunError;
use crate::tokens::TranspileToken;

verus! {

/// The number of tape cells; the data pointer wraps modulo this.
pub const TAPE_LEN: usize = 65536;

/// The full state of one machine execution.
pub ghost struct MachineState {
    /// The program counter: an index into the program.
    pub pc: nat,
    /// The byte tape.
    pub tape: Seq<u8>,
    /// The data pointer: an index into the tape.
    pub ptr: nat,
    /// The positions of the currently open loops, innermost last.
    pub loops: Seq<nat>,
    /// The bytes not yet consumed by `Input` instructions.
    pub input: Seq<u8>,
    /// The bytes emitted by `Output` instructions so far.
    pub output: Seq<u8>,
}

/// Well-formedness of a machine state: the tape has its fixed size and the
/// pointer is on it.
pub open spec fn wf_state(st: MachineState) -> bool {
    st.tape.len() == TAPE_LEN && st.ptr < TAPE_LEN
}

/// The initial state for a run: counter and pointer at zero, all-zero
/// tape, no open loops, nothing yet read or emitted.
pub open spec fn init_state(input: Seq<u8>) -> MachineState {
    MachineState {
        pc: 0,
        tape: Seq::new(TAPE_LEN as nat, |i: int| 0u8),
        ptr: 0,
        loops: Seq::empty(),
        input,
        output: Seq::empty(),
    }
}

/// A cell value after one increment, wrapping modulo 256.
pub open spec fn inc_cell(c: u8) -> u8 {
    (((c as nat) + 1) % 256) as u8
}

/// A cell value after one decrement, wrapping modulo 256.
pub open spec fn dec_cell(c: u8) -> u8 {
    (((c as nat) + 255) % 256) as u8
}

/// The pointer after one move right, wrapping modulo the tape size.
pub open spec fn next_ptr(p: nat) -> nat {
    (p + 1) % (TAPE_LEN as nat)
}

/// The pointer after one move left, wrapping modulo the tape size.
pub open spec fn prev_ptr(p: nat) -> nat {
    (p + (TAPE_LEN - 1) as nat) % (TAPE_LEN as nat)
}

/// The position of the loop end that closes the loop being scanned: the
/// scan starts at `j` with `depth` loops open, opens one more at each
/// further `LoopStart`, closes one at each `LoopEnd`, and stops at the
/// `LoopEnd` that closes the last one — or at the program's end if the
/// loop is unmatched.
pub open spec fn find_loop_end(prog: Seq<TranspileToken>, j: nat, depth: nat) -> nat
    recommends
        depth >= 1,
    decreases prog.len() - j,
{
    if j >= prog.len() {
        prog.len()
    } else if prog[j as int] == TranspileToken::LoopEnd {
        if depth == 1 {
            j
        } else {
            find_loop_end(prog, j + 1, (depth - 1) as nat)
        }
    } else if prog[j as int] == TranspileToken::LoopStart {
        find_loop_end(prog, j + 1, depth + 1)
    } else {
        find_loop_end(prog, j + 1, depth)
    }
}

/// What one machine step produces: the next state, or a fatal error.
pub ghost enum StepResult {
    Cont(MachineState),
    Fail(RunError),
}

/// One step of the machine at the current instruction, counter advance
/// included.  A `LoopStart` on a zero cell leaves the counter just past
/// the matching `LoopEnd` (or past the program if unmatched); on a nonzero
/// cell it opens a loop.  A `LoopEnd` on a zero cell closes the innermost
/// open loop silently, even when none is open; on a nonzero cell it jumps
/// back to just after the innermost open loop's start without closing it,
/// and fails when none is open.
pub open spec fn step(prog: Seq<TranspileToken>, st: MachineState) -> StepResult
    recommends
        st.pc < prog.len(),
        wf_state(st),
{
    match prog[st.pc as int] {
        TranspileToken::Next => StepResult::Cont(
            MachineState { pc: st.pc + 1, ptr: next_ptr(st.ptr), ..st },
        ),
        TranspileToken::Previous => StepResult::Cont(
            MachineState { pc: st.pc + 1, ptr: prev_ptr(st.ptr), ..st },
        ),
        TranspileToken::Increment => StepResult::Cont(
            MachineState {
                pc: st.pc + 1,
                tape: st.tape.update(st.ptr as int, inc_cell(st.tape[st.ptr as int])),
                ..st
            },
        ),
        TranspileToken::Decrement => StepResult::Cont(
            MachineState {
                pc: st.pc + 1,
                tape: st.tape.update(st.ptr as int, dec_cell(st.tape[st.ptr as int])),
                ..st
            },
        ),
        TranspileToken::Output => StepResult::Cont(
            MachineState {
                pc: st.pc + 1,
                output: st.output.push(st.tape[st.ptr as int]),
                ..st
            },
        ),
        TranspileToken::Input => if st.input.len() == 0 {
            StepResult::Fail(RunError::InputExhausted)
        } else {
            StepResult::Cont(
                MachineState {
                    pc: st.pc + 1,
                    tape: st.tape.update(st.ptr as int, st.input[0]),
                    input: st.input.drop_first(),
                    ..st
                },
            )
        },
        TranspileToken::LoopStart => if st.tape[st.ptr as int] == 0 {
            StepResult::Cont(
                MachineState { pc: find_loop_end(prog, st.pc + 1, 1) + 1, ..st },
            )
        } else {
            StepResult::Cont(
                MachineState { pc: st.pc + 1, loops: st.loops.push(st.pc), ..st },
            )
        },
        TranspileToken::LoopEnd => if st.tape[st.ptr as int] == 0 {
            StepResult::Cont(
                MachineState {
                    pc: st.pc + 1,
                    loops: if st.loops.len() == 0 {
                        st.loops
                    } else {
                        st.loops.drop_last()
                    },
                    ..st
                },
            )
        } else {
            if st.loops.len() == 0 {
                StepResult::Fail(RunError::UnmatchedLoopEnd)
            } else {
                StepResult::Cont(MachineState { pc: st.loops.last() + 1, ..st })
            }
        },
        TranspileToken::Other => StepResult::Cont(MachineState { pc: st.pc + 1, ..st }),
    }
}

/// The outcome of running a program from a state with a step budget.
pub ghost enum Outcome {
    /// The budget ran out before the program ended.
    Pending,
    /// The counter moved past the program's end; the final state.
    Halted(MachineState),
    /// A step failed.
    Failed(RunError),
}

/// Runs the machine until the counter passes the program's end, a step
/// fails, or `fuel` steps have been taken.
pub open spec fn run_to(prog: Seq<TranspileToken>, st: MachineState, fuel: nat) -> Outcome
    decreases fuel,
{
    if st.pc >= prog.len() {
        Outcome::Halted(st)
    } else if fuel == 0 {
        Outcome::Pending
    } else {
        match step(prog, st) {
            StepResult::Cont(s2) => run_to(prog, s2, (fuel - 1) as nat),
            StepResult::Fail(e) => Outcome::Failed(e),
        }
    }
}

/// Execution is insensitive to spare fuel: once a run halts or fails
/// within some budget, every larger budget gives the same outcome.  A
/// caller that sees the budget run out can therefore retry with a larger
/// one without changing what the program does.
pub proof fn lemma_run_to_fuel_monotonic(
    prog: Seq<TranspileToken>,
    st: MachineState,
    f1: nat,
    f2: nat,
)
    requires
        f1 <= f2,
        run_to(prog, st, f1) != Outcome::Pending,
    ensures
        run_to(prog, st, f2) == run_to(prog, st, f1),
    decreases f1,
{
    if st.pc < prog.len() {
        match step(prog, st) {
            StepResult::Cont(s2) => {
                lemma_run_to_fuel_monotonic(prog, s2, (f1 - 1) as nat, (f2 - 1) as nat);
            },
            StepResult::Fail(e) => {},
        }
    }
}

/// Moving right off the last cell wraps the pointer to cell zero.
pub proof fn lemma_pointer_wraparound(prog: Seq<TranspileToken>, st: MachineState)
    requires
        wf_state(st),
        st.pc < prog.len(),
        prog[st.pc as int] == TranspileToken::Next,
        st.ptr == TAPE_LEN - 1,
    ensures
        step(prog, st) matches StepResult::Cont(s2) && s2.ptr == 0,
{
}

/// Incrementing a cell holding 255 wraps it to 0.
pub proof fn lemma_cell_wraparound_increment(prog: Seq<TranspileToken>, st: MachineState)
    requires
        wf_state(st),
        st.pc < prog.len(),
        prog[st.pc as int] == TranspileToken::Increment,
        st.tape[st.ptr as int] == 255,
    ensures
        step(prog, st) matches StepResult::Cont(s2) && s2.tape[st.ptr as int] == 0,
{
}

/// Decrementing a cell holding 0 wraps it to 255.
pub proof fn lemma_cell_wraparound_decrement(prog: Seq<TranspileToken>, st: MachineState)
    requires
        wf_state(st),
        st.pc < prog.len(),
        prog[st.pc as int] == TranspileToken::Decrement,
        st.tape[st.ptr as int] == 0,
    ensures
        step(prog, st) matches StepResult::Cont(s2) && s2.tape[st.ptr as int] == 255,
{
}

/// The one-instruction program of a lone `LoopEnd`, run from any state
/// with no open loop: on a nonzero current cell it fails as an unmatched
/// loop end; on a zero cell it completes as a no-op, leaving tape, pointer
/// and output untouched.
pub proof fn lemma_orphan_loop_end(st: MachineState, fuel: nat)
    requires
        wf_state(st),
        st.pc == 0,
        st.loops.len() == 0,
        fuel >= 1,
    ensures
        st.tape[st.ptr as int] != 0 ==> run_to(seq![TranspileToken::LoopEnd], st, fuel)
            == Outcome::Failed(RunError::UnmatchedLoopEnd),
        st.tape[st.ptr as int] == 0 ==> (run_to(seq![TranspileToken::LoopEnd], st, fuel)
            matches Outcome::Halted(h) && h.tape == st.tape && h.ptr == st.ptr
            && h.output == st.output),
{
    let prog = seq![TranspileToken::LoopEnd];
    assert(prog[0] == TranspileToken::LoopEnd);
    if st.tape[st.ptr as int] == 0 {
        match step(prog, st) {
            StepResult::Cont(s2) => {
                assert(s2.pc == 1);
                assert(run_to(prog, s2, (fuel - 1) as nat) == Outcome::Halted(s2));
                assert(run_to(prog, st, fuel) == Outcome::Halted(s2));
            },
            StepResult::Fail(e) => {
                assert(false);
            },
        }
    }
}

/// The outcome of one executable run.
#[derive(Debug, PartialEq, Eq)]
pub enum RunResult {
    /// The program ran to completion; the bytes it emitted, in order.
    Halted(Vec<u8>),
    /// The program failed.
    Failed(RunError),
    /// The step budget was exhausted before the program ended.
    OutOfFuel,
}

/// The abstract state that a set of concrete interpreter variables stands
/// for: `inp` bytes of the input are already consumed.
spec fn abs_state(
    pc: usize,
    tape: Seq<u8>,
    ptr: u16,
    loops: Seq<usize>,
    input: Seq<u8>,
    inp: usize,
    out: Seq<u8>,
) -> MachineState {
    MachineState {
        pc: pc as nat,
        tape,
        ptr: ptr as nat,
        loops: loops.map_values(|u: usize| u as nat),
        input: input.skip(inp as int),
        output: out,
    }
}

/// Executes a program on a fresh all-zero tape, consuming bytes of
/// `input` in order and collecting emitted bytes, for at most `fuel`
/// machine steps.  The result is exactly what the big-step model gives
/// for that budget.
#[verifier::loop_isolation(false)]
pub fn interpret_transpiletokens(
    tokens: &Vec<TranspileToken>,
    input: &Vec<u8>,
    fuel: u64,
) -> (r: RunResult)
    ensures
        match run_to(tokens@, init_state(input@), fuel as nat) {
            Outcome::Halted(st) => r matches RunResult::Halted(out) && out@ == st.output,
            Outcome::Failed(e) => r matches RunResult::Failed(e2) && e2 == e,
            Outcome::Pending => r is OutOfFuel,
        },
{
    let ghost prog = tokens@;
    let ghost init = init_state(input@);
    let n = tokens.len();
    let mut tape: Vec<u8> = Vec::new();
    let mut z: usize = 0;
    while z < TAPE_LEN
        invariant
            z <= TAPE_LEN,
            tape@.len() == z,
            forall|k: int| 0 <= k < z ==> tape@[k] == 0,
        decreases TAPE_LEN - z,
    {
        tape.push(0);
        z = z + 1;
    }
    let mut pointer: u16 = 0;
    let mut pc: usize = 0;
    let mut loops: Vec<usize> = Vec::new();
    let mut out: Vec<u8> = Vec::new();
    let mut inp: usize = 0;
    let mut used: u64 = 0;
    proof {
        assert(tape@ =~= init.tape);
        assert(loops@.map_values(|u: usize| u as nat) =~= init.loops);
        assert(input@.skip(0) =~= init.input);
        assert(abs_state(pc, tape@, pointer, loops@, input@, inp, out@) == init);
    }
    while pc < n && used < fuel
        invariant
            tape@.len() == TAPE_LEN,
            inp <= input@.len(),
            used <= fuel,
            forall|k: int| 0 <= k < loops@.len() ==> loops@[k] < n,
            pc <= n,
            run_to(prog, init, fuel as nat) == run_to(
                prog,
                abs_state(pc, tape@, pointer, loops@, input@, inp, out@),
                (fuel - used) as nat,
            ),
        decreases fuel - used,
    {
        let ghost s1 = abs_state(pc, tape@, pointer, loops@, input@, inp, out@);
        let instr = tokens[pc];
        match instr {
            TranspileToken::Next => {
                pointer = if pointer == 65535 {
                    0
                } else {
                    pointer + 1
                };
            },
            TranspileToken::Previous => {
                pointer = if pointer == 0 {
                    65535
                } else {
                    pointer - 1
                };
            },
            TranspileToken::Increment => {
                let c = tape[pointer as usize];
                tape[pointer as usize] = if c == 255 {
                    0
                } else {
                    c + 1
                };
            },
            TranspileToken::Decrement => {
                let c = tape[pointer as usize];
                tape[pointer as usize] = if c == 0 {
                    255
                } else {
                    c - 1
                };
            },
            TranspileToken::Output => {
                out.push(tape[pointer as usize]);
            },
            TranspileToken::Input => {
                if inp >= input.len() {
                    proof {
                        assert(s1.input.len() == 0);
                        assert(run_to(prog, s1, (fuel - used) as nat) == Outcome::Failed(
                            RunError::InputExhausted,
                        ));
                    }
                    return RunResult::Failed(RunError::InputExhausted);
                }
                tape[pointer as usize] = input[inp];
                proof {
                    assert(s1.input[0] == input@[inp as int]);
                    assert(s1.input.drop_first() =~= input@.skip(inp as int + 1));
                }
                inp = inp + 1;
            },
            TranspileToken::LoopStart => {
                if tape[pointer as usize] == 0 {
                    let mut depth: usize = 1;
                    let mut j = pc + 1;
                    while j < n && !(depth == 1 && tokens[j] == TranspileToken::LoopEnd)
                        invariant
                            pc + 1 <= j <= n,
                            1 <= depth,
                            depth <= j - pc,
                            find_loop_end(prog, j as nat, depth as nat) == find_loop_end(
                                prog,
                                (pc + 1) as nat,
                                1,
                            ),
                        decreases n - j,
                    {
                        if tokens[j] == TranspileToken::LoopStart {
                            depth = depth + 1;
                        } else if tokens[j] == TranspileToken::LoopEnd {
                            depth = depth - 1;
                        }
                        j = j + 1;
                    }
                    if j == n {
                        // The loop is unmatched: the counter moves past the
                        // program's end and the run completes normally.
                        proof {
                            assert(find_loop_end(prog, (pc + 1) as nat, 1) == n as nat);
                            match step(prog, s1) {
                                StepResult::Cont(s2) => {
                                    assert(s2.pc == n + 1);
                                    assert(run_to(prog, s2, (fuel - used - 1) as nat)
                                        == Outcome::Halted(s2));
                                    assert(run_to(prog, s1, (fuel - used) as nat)
                                        == Outcome::Halted(s2));
                                },
                                StepResult::Fail(e) => {
                                    assert(false);
                                },
                            }
                        }
                        return RunResult::Halted(out);
                    }
                    proof {
                        assert(find_loop_end(prog, j as nat, depth as nat) == j as nat);
                    }
                    pc = j;
                } else {
                    proof {
                        assert(loops@.push(pc).map_values(|u: usize| u as nat)
                            =~= loops@.map_values(|u: usize| u as nat).push(pc as nat));
                    }
                    loops.push(pc);
                }
            },
            TranspileToken::LoopEnd => {
                if tape[pointer as usize] == 0 {
                    if loops.len() > 0 {
                        proof {
                            assert(loops@.drop_last().map_values(|u: usize| u as nat)
                                =~= loops@.map_values(|u: usize| u as nat).drop_last());
                        }
                        loops.pop();
                    }
                } else {
                    if loops.len() == 0 {
                        proof {
                            assert(s1.loops.len() == 0);
                            assert(run_to(prog, s1, (fuel - used) as nat)
                                == Outcome::Failed(RunError::UnmatchedLoopEnd));
                        }
                        return RunResult::Failed(RunError::UnmatchedLoopEnd);
                    }
                    let top = loops[loops.len() - 1];
                    proof {
                        assert(s1.loops.last() == top as nat);
                    }
                    pc = top;
                }
            },
            TranspileToken::Other => {},
        }
        pc = pc + 1;
        used = used + 1;
        proof {
            let s2 = abs_state(pc, tape@, pointer, loops@, input@, inp, out@);
            assert(step(prog, s1) == StepResult::Cont(s2));
            assert(run_to(prog, s1, (fuel - used + 1) as nat) == run_to(
                prog,
                s2,
                (fuel - used) as nat,
            ));
        }
    }
    if pc < n {
        proof {
            let cur = abs_state(pc, tape@, pointer, loops@, input@, inp, out@);
            assert(run_to(prog, cur, (fuel - used) as nat) == Outcome::Pending);
        }
        return RunResult::OutOfFuel;
    }
    proof {
        let cur = abs_state(pc, tape@, pointer, loops@, input@, inp, out@);
        assert(run_to(prog, cur, (fuel - used) as nat) == Outcome::Halted(cur));
    }
    RunResult::Halted(out)
}

} // verus!
