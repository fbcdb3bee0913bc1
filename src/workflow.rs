use std::sync::Arc;
use vstd::prelude::*;

use crate::context::ExecutionContext;
use crate::json::JsonValue;
use crate::keyed::Keyed;
use crate::module::{ModuleResult, SecVError, SecVModule};
use crate::registry::{LoadedModule, ModuleLoader};
use crate::resolve::{inputs_resolve, resolve_inputs, resolved_value};
use crate::text::{decimal, decimal_text};

verus! {

/// What the engine does when a step fails.
#[derive(Clone, Copy, Debug, PartialEq, Eq, Structural)]
pub enum ErrorAction {
    /// Abort the run.
    Stop,
    /// Record the failed result and go on with the next step.
    Continue,
    /// Run the step again, up to the given number of attempts in all, then
    /// go on as for `Continue`.
    Retry(u32),
}

/// One step of a workflow.
#[derive(Debug)]
pub struct WorkflowStep {
    pub name: String,
    /// Name of the module to run.
    pub module: String,
    /// Declared inputs: literals or `${...}` back-references.
    pub inputs: Keyed<JsonValue>,
    /// Kept with the step; not evaluated.
    pub condition: Option<String>,
    pub on_error: ErrorAction,
    pub timeout_seconds: Option<u64>,
}

/// An ordered sequence of steps sharing one execution context.
#[derive(Debug)]
pub struct WorkflowDefinition {
    pub name: String,
    pub description: String,
    pub version: String,
    pub author: String,
    pub steps: Vec<WorkflowStep>,
    /// Parameters seeded into the context before the first step.
    pub global_settings: Keyed<JsonValue>,
}

/// How one execution of a step's module ended.
#[derive(Debug)]
pub enum StepOutcome {
    /// The module returned a result, successful or not.
    Finished(ModuleResult),
    /// The module reported a failure instead of a result.
    Failed(SecVError),
    /// The step's time limit passed before the module finished.
    TimedOut,
}

/// Where a run stands.
#[derive(Debug)]
pub enum RunState {
    Running,
    Completed,
    Aborted(SecVError),
}

/// Everything needed to execute one step's module.
#[derive(Debug)]
pub struct StepRequest {
    pub step_index: usize,
    pub module: Arc<LoadedModule>,
    pub context: ExecutionContext,
    pub timeout_seconds: Option<u64>,
}

/// What the caller has to do next for a run.
#[derive(Debug)]
pub enum NextAction {
    /// Execute the module and hand the outcome to `record_outcome`.
    Execute(StepRequest),
    /// The step failed before execution; its failure has been applied.
    Recorded,
    /// Every step has been processed.
    Completed,
    /// The run was aborted.
    Aborted(SecVError),
}

/// Text of the failure recorded when a step runs past its time limit.
pub open spec fn timeout_text() -> Seq<char> {
    "Module execution timed out"@
}

/// Text of the failure that aborts a run at step number `n`, counted from 1,
/// for the reason `reason`.
pub open spec fn stop_text(n: nat, reason: Seq<char>) -> Seq<char> {
    "Workflow stopped at step "@ + decimal_text(n) + " due to error: "@ + reason
}

/// Why a result counts as a failure: its first error, if it has one.
pub open spec fn failure_reason(r: ModuleResult) -> Seq<char> {
    if r.errors@.len() > 0 {
        r.errors@[0]@
    } else {
        "module reported failure"@
    }
}

/// `r` is the result recorded for a failure with text `msg`.
pub open spec fn failure_record(r: ModuleResult, msg: Seq<char>) -> bool {
    &&& !r.success
    &&& r.errors@.len() == 1
    &&& r.errors@[0]@ == msg
    &&& r.warnings@.len() == 0
    &&& r.artifacts@.len() == 0
    &&& r.execution_time_ms == 0
}

impl StepOutcome {
    /// The outcome counts as a success.
    pub open spec fn succeeded(self) -> bool {
        self matches StepOutcome::Finished(res) && res.success
    }

    /// Why this outcome counts as a failure.
    pub open spec fn reason(self) -> Seq<char> {
        match self {
            StepOutcome::Finished(res) => failure_reason(res),
            StepOutcome::Failed(e) => e.message_spec(),
            StepOutcome::TimedOut => "Execution failed: "@ + timeout_text(),
        }
    }

    /// `r` is the result that is stored for this outcome.
    pub open spec fn records(self, r: ModuleResult) -> bool {
        match self {
            StepOutcome::Finished(res) => r == res,
            StepOutcome::Failed(e) => failure_record(r, e.message_spec()),
            StepOutcome::TimedOut => failure_record(r, "Execution failed: "@ + timeout_text()),
        }
    }
}

/// The result stored for a failure with text `msg`.
fn failure_result(msg: String) -> (r: ModuleResult)
    ensures
        failure_record(r, msg@),
{
    ModuleResult {
        success: false,
        data: JsonValue::object(Vec::new()),
        errors: vec![msg],
        warnings: Vec::new(),
        execution_time_ms: 0,
        artifacts: Vec::new(),
    }
}

/// The result to store for an outcome.
fn outcome_result(outcome: StepOutcome) -> (r: ModuleResult)
    ensures
        outcome.records(r),
        r.success == outcome.succeeded(),
{
    match outcome {
        StepOutcome::Finished(res) => res,
        StepOutcome::Failed(e) => failure_result(e.message()),
        StepOutcome::TimedOut => failure_result(
            SecVError::ExecutionFailed(String::from_str("Module execution timed out")).message(),
        ),
    }
}

/// The state of one workflow run: the steps, the shared context, the step
/// being worked on and how many times it has failed so far.
#[derive(Debug)]
pub struct WorkflowRun {
    steps: Vec<WorkflowStep>,
    context: ExecutionContext,
    step: usize,
    attempts: u32,
    state: RunState,
}

/// `new` is `old` after the outcome of its current step was applied;
/// the parameters are left out.
pub open spec fn step_recorded(old: WorkflowRun, new: WorkflowRun, outcome: StepOutcome) -> bool {
    let st = old.steps()[old.step_index() as int];
    let stored = new.context().results.at(st.module@) matches Some(r) && outcome.records(r) && (
    forall|k: Seq<char>|
        k != st.module@ ==> #[trigger] new.context().results.at(k) == old.context().results.at(k))
        && new.context().results.bindings().len() == old.context().results.bindings().len() + if old.context().results.has(st.module@) {
        0int
    } else {
        1int
    };
    let advanced = stored && new.step_index() == old.step_index() + 1 && new.attempts() == 0
        && new.state() is Running;
    &&& new.steps() == old.steps()
    &&& new.context().target == old.context().target
    &&& new.context().metadata == old.context().metadata
    &&& if outcome.succeeded() {
        advanced
    } else {
        match st.on_error {
            ErrorAction::Stop => {
                &&& new.state() matches RunState::Aborted(SecVError::WorkflowError(m)) && m@
                    == stop_text(old.step_index() + 1, outcome.reason())
                &&& new.step_index() == old.step_index()
                &&& new.context().results == old.context().results
            },
            ErrorAction::Continue => advanced,
            ErrorAction::Retry(n) => if old.attempts() + 1 < n {
                &&& new.state() is Running
                &&& new.step_index() == old.step_index()
                &&& new.attempts() == old.attempts() + 1
                &&& new.context().results == old.context().results
            } else {
                advanced
            },
        }
    }
}

impl WorkflowRun {
    pub closed spec fn steps(self) -> Seq<WorkflowStep> {
        self.steps@
    }

    pub closed spec fn context(self) -> ExecutionContext {
        self.context
    }

    /// Index of the step being worked on.
    pub closed spec fn step_index(self) -> nat {
        self.step as nat
    }

    /// Failed attempts of the current step so far.
    pub closed spec fn attempts(self) -> nat {
        self.attempts as nat
    }

    pub closed spec fn state(self) -> RunState {
        self.state
    }

    pub fn state_ref(&self) -> (r: &RunState)
        ensures
            *r == self.state(),
    {
        &self.state
    }

    pub fn is_running(&self) -> (r: bool)
        ensures
            r == self.state() is Running,
    {
        matches!(self.state, RunState::Running)
    }

    pub fn step_index_value(&self) -> (r: usize)
        ensures
            r == self.step_index(),
    {
        self.step
    }

    pub fn step_count(&self) -> (r: usize)
        ensures
            r == self.steps().len(),
    {
        self.steps.len()
    }

    /// The results stored so far, by module name.
    pub fn results(&self) -> (r: &Keyed<ModuleResult>)
        ensures
            *r == self.context().results,
    {
        &self.context.results
    }

    pub fn context_ref(&self) -> (r: &ExecutionContext)
        ensures
            *r == self.context(),
    {
        &self.context
    }

    /// The final mapping from module name to its last stored result.
    pub fn into_results(self) -> (r: Keyed<ModuleResult>)
        ensures
            r == self.context().results,
    {
        self.context.results
    }

    /// Applies the outcome of the current step: a success is stored and the
    /// run moves on; a failure is handled by the step's error action.
    pub fn record_outcome(&mut self, outcome: StepOutcome)
        requires
            old(self).state() is Running,
            old(self).step_index() < old(self).steps().len(),
        ensures
            step_recorded(*old(self), *final(self), outcome),
            final(self).context().parameters == old(self).context().parameters,
    {
        let ghost before = *self;
        let succeeded = match &outcome {
            StepOutcome::Finished(res) => res.success,
            _ => false,
        };
        let action = self.steps[self.step].on_error;
        let count = self.steps.len();
        assert(self.step < count);
        let result = outcome_result(outcome);
        if !succeeded {
            match action {
                ErrorAction::Stop => {
                    let number: usize = self.step + 1;
                    let n = decimal(number as u64);
                    let reason = if result.errors.len() > 0 {
                        result.errors[0].clone()
                    } else {
                        String::from_str("module reported failure")
                    };
                    let msg = String::from_str("Workflow stopped at step ").concat(n.as_str()).concat(
                        " due to error: ",
                    ).concat(reason.as_str());
                    self.state = RunState::Aborted(SecVError::WorkflowError(msg));
                    return ;
                },
                ErrorAction::Retry(max_attempts) => {
                    if self.attempts < max_attempts && self.attempts + 1 < max_attempts {
                        self.attempts = self.attempts + 1;
                        return ;
                    }
                },
                ErrorAction::Continue => {},
            }
        }
        let module = self.steps[self.step].module.clone();
        self.context.results.insert(module, result);
        self.step = self.step + 1;
        self.attempts = 0;
        proof {
            let st = before.steps()[before.step_index() as int];
            assert(self.context.results.at(st.module@) == Some(result));
        }
    }
}

/// Sequences workflow steps against the modules of a registry.
#[derive(Debug)]
pub struct WorkflowEngine {
    module_loader: Arc<ModuleLoader>,
}

impl WorkflowEngine {
    pub closed spec fn registry(&self) -> ModuleLoader {
        *self.module_loader
    }

    pub fn new(module_loader: Arc<ModuleLoader>) -> (r: Self)
        ensures
            r.registry() == *module_loader,
    {
        WorkflowEngine { module_loader }
    }

    /// The registry this engine looks modules up in.
    pub fn module_loader(&self) -> (r: &ModuleLoader)
        ensures
            *r == self.registry(),
    {
        &self.module_loader
    }

    /// A run of `workflow` against `target`, positioned before its first step,
    /// with the global settings as its parameters.
    pub fn start(&self, workflow: WorkflowDefinition, target: String) -> (r: WorkflowRun)
        ensures
            r.steps() == workflow.steps@,
            r.context().target == target,
            r.context().parameters == workflow.global_settings,
            forall|k: Seq<char>| #[trigger] r.context().results.at(k) is None,
            r.context().results.bindings().len() == 0,
            forall|k: Seq<char>| #[trigger] r.context().metadata.at(k) is None,
            r.step_index() == 0,
            r.attempts() == 0,
            r.state() is Running,
    {
        WorkflowRun {
            steps: workflow.steps,
            context: ExecutionContext::new(target, workflow.global_settings),
            step: 0,
            attempts: 0,
            state: RunState::Running,
        }
    }

    /// Takes the run one step forward up to the point where a module has to
    /// be executed: resolves the current step's inputs into the parameters
    /// and checks them against the module. A module that is not loaded, or an
    /// input that does not resolve, aborts the run; inputs that the module
    /// rejects count as a failure of the step.
    pub fn prepare_step(&self, run: &mut WorkflowRun) -> (r: NextAction)
        ensures
            !(old(run).state() is Running) ==> {
                &&& *final(run) == *old(run)
                &&& match old(run).state() {
                    RunState::Aborted(e) => r == NextAction::Aborted(e),
                    _ => r is Completed,
                }
            },
            old(run).state() is Running && old(run).step_index() >= old(run).steps().len() ==> {
                &&& r is Completed
                &&& final(run).state() is Completed
                &&& final(run).steps() == old(run).steps()
                &&& final(run).context() == old(run).context()
                &&& final(run).step_index() == old(run).step_index()
            },
            old(run).state() is Running && old(run).step_index() < old(run).steps().len() ==> {
                let st = old(run).steps()[old(run).step_index() as int];
                let found = self.registry().catalog().at(st.module@);
                if found is None {
                    &&& r matches NextAction::Aborted(SecVError::ModuleNotFound(n)) && n@ == st.module@
                    &&& final(run).state() matches RunState::Aborted(SecVError::ModuleNotFound(n))
                        && n@ == st.module@
                    &&& final(run).context() == old(run).context()
                    &&& final(run).step_index() == old(run).step_index()
                } else if !inputs_resolve(st.inputs, old(run).context()) {
                    &&& r matches NextAction::Aborted(e) && e is WorkflowError
                    &&& final(run).state() matches RunState::Aborted(e) && e is WorkflowError
                    &&& final(run).context() == old(run).context()
                    &&& final(run).step_index() == old(run).step_index()
                } else {
                    &&& forall|k: Seq<char>| #[trigger]
                        final(run).context().parameters.at(k) == match st.inputs.at(k) {
                            Some(v) => resolved_value(v, old(run).context()),
                            None => old(run).context().parameters.at(k),
                        }
                    &&& if found->0.accepts(final(run).context().parameters) {
                        &&& r matches NextAction::Execute(req) && {
                            &&& req.step_index == old(run).step_index()
                            &&& req.module == found->0
                            &&& req.timeout_seconds == st.timeout_seconds
                            &&& req.context.target == old(run).context().target
                            &&& forall|k: Seq<char>| #[trigger]
                                req.context.metadata.at(k) == old(run).context().metadata.at(k)
                            &&& forall|k: Seq<char>|
                                match #[trigger] old(run).context().results.at(k) {
                                    Some(a) => req.context.results.at(k) matches Some(b) && b.same(a),
                                    None => req.context.results.at(k) is None,
                                }
                            &&& forall|k: Seq<char>| #[trigger]
                                req.context.parameters.at(k) == final(run).context().parameters.at(
                                    k,
                                )
                        }
                        &&& final(run).steps() == old(run).steps()
                        &&& final(run).state() == old(run).state()
                        &&& final(run).step_index() == old(run).step_index()
                        &&& final(run).attempts() == old(run).attempts()
                        &&& final(run).context().target == old(run).context().target
                        &&& final(run).context().results == old(run).context().results
                        &&& final(run).context().metadata == old(run).context().metadata
                    } else {
                        &&& r is Recorded
                        &&& exists|e: SecVError|
                            e is ValidationFailed && #[trigger] step_recorded(
                                *old(run),
                                *final(run),
                                StepOutcome::Failed(e),
                            )
                    }
                }
            },
    {
        let ghost start = *run;
        match &run.state {
            RunState::Running => {},
            RunState::Completed => {
                return NextAction::Completed;
            },
            RunState::Aborted(e) => {
                return NextAction::Aborted(e.clone());
            },
        }
        if run.step >= run.steps.len() {
            run.state = RunState::Completed;
            return NextAction::Completed;
        }
        let step = &run.steps[run.step];
        let module = match self.module_loader.get_module(step.module.as_str()) {
            Some(m) => m,
            None => {
                run.state = RunState::Aborted(SecVError::ModuleNotFound(step.module.clone()));
                return NextAction::Aborted(SecVError::ModuleNotFound(step.module.clone()));
            },
        };
        let resolved = match resolve_inputs(&step.inputs, &run.context) {
            Ok(m) => m,
            Err(e) => {
                run.state = RunState::Aborted(e.clone());
                return NextAction::Aborted(e);
            },
        };
        let timeout_seconds = step.timeout_seconds;
        run.context.parameters.extend(resolved);
        match module.validate_inputs(&run.context.parameters) {
            Ok(()) => {
                let request = StepRequest {
                    step_index: run.step,
                    module,
                    context: run.context.snapshot(),
                    timeout_seconds,
                };
                NextAction::Execute(request)
            },
            Err(e) => {
                let ghost failed = StepOutcome::Failed(e);
                let ghost mid = *run;
                run.record_outcome(StepOutcome::Failed(e));
                proof {
                    assert(step_recorded(mid, *run, failed));
                    assert(mid.steps() == start.steps());
                    assert(mid.step_index() == start.step_index());
                    assert(mid.attempts() == start.attempts());
                    assert(mid.context().results == start.context().results);
                    assert(mid.context().target == start.context().target);
                    assert(mid.context().metadata == start.context().metadata);
                    assert(step_recorded(start, *run, failed));
                }
                NextAction::Recorded
            },
        }
    }
}


/// A failure of a step whose error action is Stop aborts the run at that
/// step, names the step and the reason of the failure (for a step that ran
/// past its time limit, the time-out), and stores nothing.
pub proof fn lemma_stop_failure_aborts(old: WorkflowRun, new: WorkflowRun, outcome: StepOutcome)
    requires
        old.step_index() < old.steps().len(),
        old.steps()[old.step_index() as int].on_error == ErrorAction::Stop,
        !outcome.succeeded(),
        step_recorded(old, new, outcome),
    ensures
        new.state() matches RunState::Aborted(SecVError::WorkflowError(m)) && m@ == stop_text(
            old.step_index() + 1,
            outcome.reason(),
        ),
        outcome is TimedOut ==> outcome.reason() == "Execution failed: "@ + timeout_text(),
        new.step_index() == old.step_index(),
        new.context().results == old.context().results,
{
}

/// A failed step under Continue followed by a successful step of another
/// module leaves both results in the final mapping: the failed one under
/// the first module and the successful one under the second; when neither
/// module had a result before, the mapping grows by exactly two.
pub proof fn lemma_continue_keeps_both_results(
    first: WorkflowRun,
    second: WorkflowRun,
    third: WorkflowRun,
    failure: StepOutcome,
    success: StepOutcome,
)
    requires
        first.step_index() + 1 < first.steps().len(),
        first.steps()[first.step_index() as int].on_error == ErrorAction::Continue,
        first.steps()[first.step_index() as int].module@ != first.steps()[first.step_index() + 1int].module@,
        !failure.succeeded(),
        success.succeeded(),
        step_recorded(first, second, failure),
        step_recorded(second, third, success),
        !first.context().results.has(first.steps()[first.step_index() as int].module@),
        !first.context().results.has(first.steps()[first.step_index() + 1int].module@),
    ensures
        third.context().results.bindings().len() == first.context().results.bindings().len() + 2,
        third.state() is Running,
        third.step_index() == first.step_index() + 2,
        third.context().results.at(first.steps()[first.step_index() as int].module@) matches Some(a)
            && failure.records(a) && !a.success,
        third.context().results.at(first.steps()[first.step_index() + 1int].module@) matches Some(b)
            && success.records(b) && b.success,
{
    let a = first.steps()[first.step_index() as int].module@;
    let b = first.steps()[first.step_index() + 1int].module@;
    assert(third.context().results.at(a) == second.context().results.at(a));
    assert(second.context().results.at(b) == first.context().results.at(b));
    match failure {
        StepOutcome::Finished(res) => {},
        _ => {},
    }
}

} // verus!
