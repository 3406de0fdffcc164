//! The order of a speed test run.
//!
//! A run announces each phase, waits the lead-in before a transfer
//! phase, measures it and publishes its results before the next phase
//! begins; ping, download and upload run in that order and the report is
//! assembled last. Any step that fails (a measurement error,
//! cancellation, a closed event channel) ends the run.
//!
//! The program performs each step and reports how it went; this module
//! decides what comes next.

use vstd::prelude::*;

use crate::models::{phase_after, TestPhase};

verus! {

/// A step of a test run.
#[derive(Debug, Clone, Copy, PartialEq, Eq, Structural)]
pub enum RunStep {
    /// Tell the front end that a phase begins.
    Announce { phase: TestPhase },
    /// Wait the configured lead-in before a transfer phase's first byte.
    LeadIn { phase: TestPhase },
    /// Measure a phase (for a transfer phase, with latency sampled under
    /// load alongside).
    Measure { phase: TestPhase },
    /// Publish a phase's results.
    Publish { phase: TestPhase },
    /// Assemble the report from the three phases.
    Assemble,
    /// The report is complete.
    Finished,
    /// The run ended early.
    Aborted,
}

/// How a step went.
#[derive(Debug, Clone, Copy, PartialEq, Eq, Structural)]
pub enum StepOutcome {
    Done,
    Failed,
}

/// Whether a run has ended.
pub open spec fn is_terminal(step: RunStep) -> bool {
    step == RunStep::Finished || step == RunStep::Aborted
}

/// The step after `step` went as `outcome`; `lead_in` says whether a
/// lead-in is configured (a zero lead-in is skipped).
pub open spec fn step_after(step: RunStep, outcome: StepOutcome, lead_in: bool) -> RunStep {
    if is_terminal(step) {
        step
    } else if outcome == StepOutcome::Failed {
        RunStep::Aborted
    } else {
        match step {
            RunStep::Announce { phase } => if phase != TestPhase::Ping && lead_in {
                RunStep::LeadIn { phase }
            } else {
                RunStep::Measure { phase }
            },
            RunStep::LeadIn { phase } => RunStep::Measure { phase },
            RunStep::Measure { phase } => RunStep::Publish { phase },
            RunStep::Publish { phase } => match phase_after(phase) {
                Some(next) => RunStep::Announce { phase: next },
                None => RunStep::Assemble,
            },
            RunStep::Assemble => RunStep::Finished,
            _ => step,
        }
    }
}

/// The first step of every run.
pub fn first_step() -> (r: RunStep)
    ensures
        r == (RunStep::Announce { phase: TestPhase::Ping }),
{
    RunStep::Announce { phase: TestPhase::Ping }
}

/// The step that follows `step` given how it went and the configured
/// lead-in (in milliseconds).
pub fn next_step(step: RunStep, outcome: StepOutcome, lead_in_ms: u64) -> (r: RunStep)
    ensures
        r == step_after(step, outcome, lead_in_ms > 0),
{
    match step {
        RunStep::Finished | RunStep::Aborted => step,
        _ => match outcome {
            StepOutcome::Failed => RunStep::Aborted,
            StepOutcome::Done => match step {
                RunStep::Announce { phase } => {
                    if phase != TestPhase::Ping && lead_in_ms > 0 {
                        RunStep::LeadIn { phase }
                    } else {
                        RunStep::Measure { phase }
                    }
                },
                RunStep::LeadIn { phase } => RunStep::Measure { phase },
                RunStep::Measure { phase } => RunStep::Publish { phase },
                RunStep::Publish { phase } => match phase.next() {
                    Some(next) => RunStep::Announce { phase: next },
                    None => RunStep::Assemble,
                },
                _ => RunStep::Finished,
            },
        },
    }
}

/// The steps of a run in which every step succeeds, first to last.
#[verifier::opaque]
pub open spec fn successful_run(lead_in: bool) -> Seq<RunStep> {
    if lead_in {
        seq![
            RunStep::Announce { phase: TestPhase::Ping },
            RunStep::Measure { phase: TestPhase::Ping },
            RunStep::Publish { phase: TestPhase::Ping },
            RunStep::Announce { phase: TestPhase::Download },
            RunStep::LeadIn { phase: TestPhase::Download },
            RunStep::Measure { phase: TestPhase::Download },
            RunStep::Publish { phase: TestPhase::Download },
            RunStep::Announce { phase: TestPhase::Upload },
            RunStep::LeadIn { phase: TestPhase::Upload },
            RunStep::Measure { phase: TestPhase::Upload },
            RunStep::Publish { phase: TestPhase::Upload },
            RunStep::Assemble,
            RunStep::Finished,
        ]
    } else {
        seq![
            RunStep::Announce { phase: TestPhase::Ping },
            RunStep::Measure { phase: TestPhase::Ping },
            RunStep::Publish { phase: TestPhase::Ping },
            RunStep::Announce { phase: TestPhase::Download },
            RunStep::Measure { phase: TestPhase::Download },
            RunStep::Publish { phase: TestPhase::Download },
            RunStep::Announce { phase: TestPhase::Upload },
            RunStep::Measure { phase: TestPhase::Upload },
            RunStep::Publish { phase: TestPhase::Upload },
            RunStep::Assemble,
            RunStep::Finished,
        ]
    }
}

/// Each step of a successful run leads to the next one.
proof fn lemma_successful_step(lead_in: bool, i: int)
    requires
        0 <= i < successful_run(lead_in).len() - 1,
    ensures
        step_after(successful_run(lead_in)[i], StepOutcome::Done, lead_in) == successful_run(
            lead_in,
        )[i + 1],
        !is_terminal(successful_run(lead_in)[i]),
{
    reveal(successful_run);
    if lead_in {
        if i == 0 {} else if i == 1 {} else if i == 2 {} else if i == 3 {} else if i == 4 {
        } else if i == 5 {} else if i == 6 {} else if i == 7 {} else if i == 8 {} else if i
            == 9 {} else if i == 10 {} else {}
    } else {
        if i == 0 {} else if i == 1 {} else if i == 2 {} else if i == 3 {} else if i == 4 {
        } else if i == 5 {} else if i == 6 {} else if i == 7 {} else if i == 8 {} else {}
    }
}

/// When every step succeeds, a run goes through ping, download and
/// upload in that order, each announced, (for transfers) led in when a
/// lead-in is configured, measured and published, then assembles its
/// report and finishes.
pub proof fn law_successful_run_order(lead_in: bool)
    ensures
        successful_run(lead_in)[0] == (RunStep::Announce { phase: TestPhase::Ping }),
        successful_run(lead_in).last() == RunStep::Finished,
        forall|i: int|
            0 <= i < successful_run(lead_in).len() - 1 ==> step_after(
                #[trigger] successful_run(lead_in)[i],
                StepOutcome::Done,
                lead_in,
            ) == successful_run(lead_in)[i + 1] && !is_terminal(successful_run(lead_in)[i]),
{
    assert(successful_run(lead_in)[0] == (RunStep::Announce { phase: TestPhase::Ping })
        && successful_run(lead_in).last() == RunStep::Finished) by {
        reveal(successful_run);
    }
    assert forall|i: int| 0 <= i < successful_run(lead_in).len() - 1 implies step_after(
        #[trigger] successful_run(lead_in)[i],
        StepOutcome::Done,
        lead_in,
    ) == successful_run(lead_in)[i + 1] && !is_terminal(successful_run(lead_in)[i]) by {
        lemma_successful_step(lead_in, i);
    }
}

/// A failed step ends the run, and an ended run stays ended.
pub proof fn law_failure_aborts(step: RunStep, outcome: StepOutcome, lead_in: bool)
    ensures
        !is_terminal(step) ==> step_after(step, StepOutcome::Failed, lead_in) == RunStep::Aborted,
        is_terminal(step) ==> step_after(step, outcome, lead_in) == step,
{
}

} // verus!
