//! The runner: drives the stepper from the current program counter until it
//! equals the instruction count, an error surfaces, or a step budget runs
//! out.
//!
//! The spec function [`spec_run`] is the big-step semantics with fuel: the
//! state an execution reaches after at most a given number of steps. The
//! executable [`Program::run`] is proved to land exactly where `spec_run`
//! says, and [`lemma_run_deterministic`] shows that a finished execution
//! does not depend on the fuel: the outcome is a function of the starting
//! state and the input alone.

use vstd::prelude::*;

use crate::state::wf_state;
use crate::state::BFError;
use crate::state::BFResult;
use crate::state::ProgState;
use crate::state::Program;
use crate::step::first_input;
use crate::step::rest_input;
use crate::step::spec_step;
use crate::step::lemma_step_preserves_wf;
use crate::step::StepOutcome;

verus! {

/// Where an execution stands after at most a given number of steps.
pub enum RunOutcome {
    /// The program counter reached the instruction count; execution is over.
    Done { state: ProgState, input: Seq<u8> },
    /// A step failed; `state` and `input` are as they stood when it did.
    Failed { err: BFError, state: ProgState, input: Seq<u8> },
    /// The fuel ran out with instructions still to execute.
    Running { state: ProgState, input: Seq<u8> },
}

/// Runs `s` on `inp` for at most `fuel` steps: the first error or the
/// terminal program counter ends the run early, whatever fuel is left.
pub open spec fn spec_run(s: ProgState, inp: Seq<u8>, fuel: nat) -> RunOutcome
    recommends
        wf_state(s),
    decreases fuel,
{
    if s.pc >= s.code.len() {
        RunOutcome::Done { state: s, input: inp }
    } else if fuel == 0 {
        RunOutcome::Running { state: s, input: inp }
    } else {
        match spec_step(s, first_input(inp)) {
            StepOutcome::Failed { err } => RunOutcome::Failed { err, state: s, input: inp },
            StepOutcome::Stepped { post, consumed, .. } => spec_run(
                post,
                rest_input(inp, consumed),
                (fuel - 1) as nat,
            ),
        }
    }
}

/// A run that has ended, in success or failure, stays where it ended when
/// it is given more fuel.
pub proof fn lemma_run_fuel_monotonic(s: ProgState, inp: Seq<u8>, f1: nat, f2: nat)
    requires
        f1 <= f2,
        !(spec_run(s, inp, f1) is Running),
    ensures
        spec_run(s, inp, f2) == spec_run(s, inp, f1),
    decreases f1,
{
    if s.pc >= s.code.len() {
    } else {
        match spec_step(s, first_input(inp)) {
            StepOutcome::Failed { .. } => {},
            StepOutcome::Stepped { post, consumed, .. } => {
                lemma_run_fuel_monotonic(
                    post,
                    rest_input(inp, consumed),
                    (f1 - 1) as nat,
                    (f2 - 1) as nat,
                );
            },
        }
    }
}

/// Execution is deterministic: two runs from the same state on the same
/// input that both end — with whatever step budgets — end identically, in
/// the same final state, remaining input, output log and error, if any.
pub proof fn lemma_run_deterministic(s: ProgState, inp: Seq<u8>, f1: nat, f2: nat)
    requires
        !(spec_run(s, inp, f1) is Running),
        !(spec_run(s, inp, f2) is Running),
    ensures
        spec_run(s, inp, f1) == spec_run(s, inp, f2),
{
    if f1 <= f2 {
        lemma_run_fuel_monotonic(s, inp, f1, f2);
    } else {
        lemma_run_fuel_monotonic(s, inp, f2, f1);
    }
}

impl Program {
    /// Drives the stepper until the program counter equals the instruction
    /// count, the first error surfaces, or `max_steps` steps have run.
    /// Returns `Ok(true)` when the program terminated, `Ok(false)` when the
    /// budget ran out first, and the stepper's first error otherwise,
    /// exactly as the big-step semantics [`spec_run`] prescribes.
    pub fn run(&mut self, input: &mut Vec<u8>, max_steps: u64) -> (r: BFResult<bool>)
        requires
            old(self).wf(),
        ensures
            final(self).wf(),
            final(self)@.code == old(self)@.code,
            match r {
                Ok(done) => {
                    &&& done == (final(self)@.pc == final(self)@.code.len())
                    &&& spec_run(old(self)@, old(input)@, max_steps as nat) == (if done {
                        RunOutcome::Done { state: final(self)@, input: final(input)@ }
                    } else {
                        RunOutcome::Running { state: final(self)@, input: final(input)@ }
                    })
                },
                Err(e) => spec_run(old(self)@, old(input)@, max_steps as nat)
                    == (RunOutcome::Failed { err: e, state: final(self)@, input: final(input)@ }),
            },
    {
        let n: usize = self.code_len();
        let mut steps: u64 = 0;
        while steps < max_steps && !self.finished()
            invariant
                self.wf(),
                self@.code == old(self)@.code,
                n == self@.code.len(),
                steps <= max_steps,
                spec_run(old(self)@, old(input)@, max_steps as nat) == spec_run(
                    self@,
                    input@,
                    (max_steps - steps) as nat,
                ),
            decreases max_steps - steps,
        {
            proof {
                lemma_step_preserves_wf(self@, first_input(input@));
            }
            match self.step(input) {
                Ok(_) => {
                    steps += 1;
                },
                Err(e) => {
                    return Err(e);
                },
            }
        }
        Ok(self.finished())
    }
}

} // verus!
