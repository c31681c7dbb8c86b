//! The scenario world: one or more runners that every step is fanned out to,
//! in order.
use vstd::prelude::*;
use crate::model::{check_tx_output, expect_met, ScenarioError, TxResponse};
use crate::runner::{perform_sc_query, query_issues_calls, query_runs, query_status};
use crate::steps::{run_step, step_effect, step_kind, ScQueryStep, Step, StepKind};
use crate::world::WorldState;

verus! {

/// Executes steps against its own ledger.
pub struct ScenarioVMRunner {
    pub world: WorldState,
}

impl ScenarioVMRunner {
    /// Runs the query of `step` on this runner's ledger.
    pub fn perform_sc_query(&self, step: &ScQueryStep) -> (r: Result<TxResponse, ScenarioError>)
        requires
            self.world.wf(),
        ensures
            r matches Err(e) ==> (e == ScenarioError::PendingCallsOnQuery <==> query_issues_calls(
                self.world,
                step.tx,
            )),
            query_issues_calls(self.world, step.tx) ==> r is Err,
    {
        perform_sc_query(&self.world, &step.tx)
    }

    /// Runs the query of `step` and checks the response against the step's
    /// expectation, if it declares one.
    pub fn perform_sc_query_lambda_and_check(&self, step: &ScQueryStep) -> (r: Result<
        TxResponse,
        ScenarioError,
    >)
        requires
            self.world.wf(),
        ensures
            r matches Ok(resp) ==> (step.expect matches Some(e) ==> expect_met(e, resp))
                && resp.status == query_status(self.world, step.tx),
            query_issues_calls(self.world, step.tx) ==> r == Err::<TxResponse, ScenarioError>(
                ScenarioError::PendingCallsOnQuery,
            ),
            query_runs(self.world, step.tx) && step.expect is None ==> r is Ok,
            query_runs(self.world, step.tx) ==> (r is Ok || (r matches Err(
                ScenarioError::ExpectationFailed { step_id, diffs },
            ) && step_id@ == step.id@ && step.expect is Some && diffs@.len() > 0)),
    {
        let resp = perform_sc_query(&self.world, &step.tx)?;
        match &step.expect {
            Some(e) => {
                let diffs = check_tx_output(e, &resp);
                if diffs.len() > 0 {
                    return Err(ScenarioError::ExpectationFailed { step_id: step.id.clone(), diffs });
                }
            },
            None => {},
        }
        Ok(resp)
    }

    /// Runs and checks the query of `step`, keeping the response in the step.
    pub fn perform_sc_query_update_results(&self, step: &mut ScQueryStep) -> (r: Result<
        (),
        ScenarioError,
    >)
        requires
            self.world.wf(),
        ensures
            r is Ok ==> (final(step).response matches Some(resp) && (old(step).expect matches Some(
                e,
            ) ==> expect_met(e, resp)) && resp.status == query_status(self.world, old(step).tx)),
            r is Err ==> final(step).response == old(step).response,
            final(step).tx == old(step).tx,
            final(step).id == old(step).id,
            final(step).expect == old(step).expect,
            query_issues_calls(self.world, old(step).tx) ==> r == Err::<(), ScenarioError>(
                ScenarioError::PendingCallsOnQuery,
            ),
            query_runs(self.world, old(step).tx) && old(step).expect is None ==> r is Ok,
            query_runs(self.world, old(step).tx) ==> (r is Ok || (r matches Err(
                ScenarioError::ExpectationFailed { step_id, diffs },
            ) && step_id@ == old(step).id@ && old(step).expect is Some && diffs@.len() > 0)),
    {
        let resp = self.perform_sc_query_lambda_and_check(step)?;
        step.response = Some(resp);
        Ok(())
    }
}

/// Records the steps that were run, in order.
pub struct TraceRunner {
    pub steps: Vec<StepKind>,
}

/// The in-process backend: a live runner and, optionally, a trace recorder.
pub struct DebuggerBackend {
    pub vm_runner: ScenarioVMRunner,
    pub trace: Option<TraceRunner>,
}

pub enum Backend {
    Debugger(DebuggerBackend),
    /// An external backend that runs whole scenarios only.
    VmGoBackend,
}

pub struct ScenarioWorld {
    pub backend: Backend,
}

impl ScenarioWorld {
    pub open spec fn wf(&self) -> bool {
        self.backend matches Backend::Debugger(d) ==> d.vm_runner.world.wf()
    }

    /// A world on the in-process backend with an empty ledger and no trace.
    pub fn new() -> (r: ScenarioWorld)
        ensures
            r.wf(),
            r.backend matches Backend::Debugger(d) && d.trace is None,
    {
        ScenarioWorld {
            backend: Backend::Debugger(
                DebuggerBackend { vm_runner: ScenarioVMRunner { world: WorldState::new() }, trace: None },
            ),
        }
    }

    /// Starts recording a trace of the steps that follow.
    pub fn start_trace(&mut self)
        requires
            old(self).wf(),
        ensures
            final(self).wf(),
            old(self).backend is Debugger ==> (final(self).backend matches Backend::Debugger(d)
                && d.trace matches Some(t) && t.steps@.len() == 0),
    {
        match &mut self.backend {
            Backend::Debugger(d) => {
                d.trace = Some(TraceRunner { steps: Vec::new() });
            },
            Backend::VmGoBackend => {},
        }
    }

    /// Runs `step` on each runner in turn: the live runner first, then the
    /// trace recorder, which records it only if the live run succeeded. The
    /// whole-scenario backend refuses step-by-step execution.
    pub fn for_each_runner_mut(&mut self, step: &mut Step) -> (r: Result<(), ScenarioError>)
        requires
            old(self).wf(),
        ensures
            final(self).wf(),
            step_kind(*final(step)) == step_kind(*old(step)),
            old(self).backend is VmGoBackend ==> r == Err::<(), ScenarioError>(
                ScenarioError::StepByStepUnsupported,
            ) && *final(self) == *old(self) && *final(step) == *old(step),
            old(self).backend matches Backend::Debugger(d0) ==> (final(self).backend matches Backend::Debugger(d1)
                && step_effect(d0.vm_runner.world, d1.vm_runner.world, *old(step), *final(step), r)),
            old(self).backend matches Backend::Debugger(d0) ==> (final(self).backend matches Backend::Debugger(d1)
                && (d0.trace matches Some(t0) ==> (d1.trace matches Some(t1) && t1.steps@ == if r is Ok {
                t0.steps@.push(step_kind(*old(step)))
            } else {
                t0.steps@
            })) && (d0.trace is None ==> d1.trace is None)),
    {
        match &mut self.backend {
            Backend::Debugger(d) => {
                let r = run_step(&mut d.vm_runner.world, step);
                if r.is_ok() {
                    match &mut d.trace {
                        Some(t) => {
                            t.steps.push(step.kind());
                        },
                        None => {},
                    }
                }
                r
            },
            Backend::VmGoBackend => Err(ScenarioError::StepByStepUnsupported),
        }
    }
}

} // verus!
