use std::sync::Arc;

use secv::context::ExecutionContext;
use secv::json::JsonValue;
use secv::keyed::Keyed;
use secv::module::{InputSpec, ModuleMetadata, ModuleResult, RiskLevel, SecVError, SecVModule};
use secv::registry::ModuleLoader;
use secv::resolve::{resolve_context_path, resolve_inputs, resolve_value};
use secv::workflow::{
    ErrorAction, NextAction, RunState, StepOutcome, StepRequest, WorkflowDefinition, WorkflowEngine,
    WorkflowStep,
};

fn metadata(name: &str, required: &[&str]) -> ModuleMetadata {
    let mut inputs = Keyed::new();
    for r in required {
        inputs.insert(
            r.to_string(),
            InputSpec {
                description: "needed".to_string(),
                input_type: "string".to_string(),
                required: true,
                default_value: None,
                validation_regex: None,
            },
        );
    }
    ModuleMetadata {
        name: name.to_string(),
        version: "1.0".to_string(),
        category: "recon".to_string(),
        description: String::new(),
        author: String::new(),
        dependencies: vec![],
        inputs,
        outputs: Keyed::new(),
        capabilities: vec![],
        risk_level: RiskLevel::Medium,
    }
}

fn engine(modules: Vec<ModuleMetadata>) -> WorkflowEngine {
    let mut loader = ModuleLoader::new("tools".to_string());
    loader.discover_modules(modules.into_iter().map(Ok).collect());
    WorkflowEngine::new(Arc::new(loader))
}

fn step(module: &str, on_error: ErrorAction) -> WorkflowStep {
    WorkflowStep {
        name: format!("run {}", module),
        module: module.to_string(),
        inputs: Keyed::new(),
        condition: None,
        on_error,
        timeout_seconds: None,
    }
}

fn workflow(steps: Vec<WorkflowStep>) -> WorkflowDefinition {
    WorkflowDefinition {
        name: "wf".to_string(),
        description: String::new(),
        version: "1".to_string(),
        author: String::new(),
        steps,
        global_settings: Keyed::new(),
    }
}

fn result(success: bool, data: JsonValue) -> ModuleResult {
    ModuleResult {
        success,
        data,
        errors: if success { vec![] } else { vec!["boom".to_string()] },
        warnings: vec![],
        execution_time_ms: 5,
        artifacts: vec![],
    }
}

fn drive(
    engine: &WorkflowEngine,
    wf: WorkflowDefinition,
    mut run_module: impl FnMut(&StepRequest) -> StepOutcome,
) -> (Result<Keyed<ModuleResult>, SecVError>, usize) {
    let mut run = engine.start(wf, "10.0.0.5".to_string());
    let mut executions = 0;
    loop {
        match engine.prepare_step(&mut run) {
            NextAction::Execute(req) => {
                executions += 1;
                let outcome = run_module(&req);
                run.record_outcome(outcome);
            }
            NextAction::Recorded => {}
            NextAction::Completed => return (Ok(run.into_results()), executions),
            NextAction::Aborted(e) => return (Err(e), executions),
        }
    }
}

fn ports_payload() -> JsonValue {
    JsonValue::object(vec![(
        "ports".to_string(),
        JsonValue::array(vec![
            JsonValue::Number("80".to_string()),
            JsonValue::Number("443".to_string()),
        ]),
    )])
}

fn scan_context() -> ExecutionContext {
    let mut ctx = ExecutionContext::new("10.0.0.5".to_string(), Keyed::new());
    ctx.results.insert("scan".to_string(), result(true, ports_payload()));
    ctx
}

fn numbers(v: &JsonValue) -> Vec<String> {
    match v {
        JsonValue::Array(items) => items
            .iter()
            .map(|i| match i {
                JsonValue::Number(n) => n.clone(),
                other => panic!("not a number: {:?}", other),
            })
            .collect(),
        other => panic!("not an array: {:?}", other),
    }
}

#[test]
fn reference_to_target_resolves_to_target() {
    let ctx = scan_context();
    match resolve_value(&JsonValue::Str("${target}".to_string()), &ctx) {
        Ok(JsonValue::Str(s)) => assert_eq!(s, "10.0.0.5"),
        other => panic!("unexpected {:?}", other),
    }
}

#[test]
fn reference_to_result_field_resolves_to_payload_value() {
    let ctx = scan_context();
    let v = resolve_value(&JsonValue::Str("${results.scan.ports}".to_string()), &ctx).unwrap();
    assert_eq!(numbers(&v), vec!["80", "443"]);
}

#[test]
fn reference_to_missing_field_fails() {
    let ctx = scan_context();
    let r = resolve_value(&JsonValue::Str("${results.scan.missing}".to_string()), &ctx);
    match r {
        Err(SecVError::WorkflowError(m)) => {
            assert_eq!(m, "Field 'missing' not found in module 'scan' results")
        }
        other => panic!("unexpected {:?}", other),
    }
}

#[test]
fn reference_to_module_without_result_fails() {
    let ctx = scan_context();
    match resolve_context_path("results.probe.ports", &ctx) {
        Err(SecVError::WorkflowError(m)) => assert_eq!(m, "Module 'probe' results not found"),
        other => panic!("unexpected {:?}", other),
    }
}

#[test]
fn reference_with_unknown_path_fails() {
    let ctx = scan_context();
    match resolve_value(&JsonValue::Str("${bogus}".to_string()), &ctx) {
        Err(SecVError::WorkflowError(m)) => assert_eq!(m, "Invalid context path: bogus"),
        other => panic!("unexpected {:?}", other),
    }
    assert!(resolve_context_path("results.scan", &ctx).is_err());
    assert!(resolve_context_path("results.scan.ports.extra", &ctx).is_err());
}

#[test]
fn plain_string_resolves_to_itself() {
    let ctx = scan_context();
    match resolve_value(&JsonValue::Str("10.0.0.5".to_string()), &ctx) {
        Ok(JsonValue::Str(s)) => assert_eq!(s, "10.0.0.5"),
        other => panic!("unexpected {:?}", other),
    }
    match resolve_value(&JsonValue::Str("${target".to_string()), &ctx) {
        Ok(JsonValue::Str(s)) => assert_eq!(s, "${target"),
        other => panic!("unexpected {:?}", other),
    }
    match resolve_value(&JsonValue::Bool(true), &ctx) {
        Ok(JsonValue::Bool(b)) => assert!(b),
        other => panic!("unexpected {:?}", other),
    }
}

#[test]
fn resolve_inputs_maps_every_declared_input() {
    let ctx = scan_context();
    let mut inputs = Keyed::new();
    inputs.insert("host".to_string(), JsonValue::Str("${target}".to_string()));
    inputs.insert("ports".to_string(), JsonValue::Str("${results.scan.ports}".to_string()));
    inputs.insert("mode".to_string(), JsonValue::Str("fast".to_string()));
    let out = resolve_inputs(&inputs, &ctx).unwrap();
    assert_eq!(out.len(), 3);
    assert!(matches!(out.get("host"), Some(JsonValue::Str(s)) if s == "10.0.0.5"));
    assert_eq!(numbers(out.get("ports").unwrap()), vec!["80", "443"]);
    assert!(matches!(out.get("mode"), Some(JsonValue::Str(s)) if s == "fast"));
}

#[test]
fn stop_failure_aborts_after_first_step() {
    let e = engine(vec![metadata("A", &[]), metadata("B", &[])]);
    let wf = workflow(vec![step("A", ErrorAction::Stop), step("B", ErrorAction::Stop)]);
    let (r, executions) = drive(&e, wf, |_| StepOutcome::Finished(result(false, JsonValue::Null)));
    assert_eq!(executions, 1);
    match r {
        Err(SecVError::WorkflowError(m)) => assert_eq!(m, "Workflow stopped at step 1 due to error: boom"),
        other => panic!("unexpected {:?}", other),
    }
}

#[test]
fn continue_failure_keeps_both_results() {
    let e = engine(vec![metadata("A", &[]), metadata("B", &[])]);
    let wf = workflow(vec![step("A", ErrorAction::Continue), step("B", ErrorAction::Stop)]);
    let (r, executions) = drive(&e, wf, |req| {
        let is_b = req.module.metadata().name == "B";
        StepOutcome::Finished(result(is_b, JsonValue::Null))
    });
    assert_eq!(executions, 2);
    let results = r.unwrap();
    assert_eq!(results.len(), 2);
    assert!(!results.get("A").unwrap().success);
    assert_eq!(results.get("A").unwrap().errors, vec!["boom".to_string()]);
    assert!(results.get("B").unwrap().success);
}

#[test]
fn retry_runs_step_up_to_its_attempts() {
    let e = engine(vec![metadata("A", &[])]);
    let wf = workflow(vec![step("A", ErrorAction::Retry(3))]);
    let (r, executions) = drive(&e, wf, |_| StepOutcome::Failed(SecVError::ExecutionFailed("x".to_string())));
    assert_eq!(executions, 3);
    let results = r.unwrap();
    assert_eq!(results.get("A").unwrap().errors, vec!["Execution failed: x".to_string()]);
}

#[test]
fn retry_stops_at_first_success() {
    let e = engine(vec![metadata("A", &[])]);
    let wf = workflow(vec![step("A", ErrorAction::Retry(5))]);
    let mut calls = 0;
    let (r, executions) = drive(&e, wf, |_| {
        calls += 1;
        StepOutcome::Finished(result(calls == 2, JsonValue::Null))
    });
    assert_eq!(executions, 2);
    assert!(r.unwrap().get("A").unwrap().success);
}

#[test]
fn timed_out_step_records_execution_failure() {
    let e = engine(vec![metadata("A", &[]), metadata("B", &[])]);
    let mut a = step("A", ErrorAction::Continue);
    a.timeout_seconds = Some(1);
    let wf = workflow(vec![a, step("B", ErrorAction::Continue)]);
    let (r, _) = drive(&e, wf, |req| {
        if req.timeout_seconds == Some(1) {
            StepOutcome::TimedOut
        } else {
            StepOutcome::Finished(result(true, JsonValue::Null))
        }
    });
    let results = r.unwrap();
    let a = results.get("A").unwrap();
    assert!(!a.success);
    assert_eq!(a.errors, vec!["Execution failed: Module execution timed out".to_string()]);
}

#[test]
fn missing_module_aborts_run() {
    let e = engine(vec![metadata("A", &[])]);
    let wf = workflow(vec![step("ghost", ErrorAction::Continue)]);
    let (r, executions) = drive(&e, wf, |_| StepOutcome::TimedOut);
    assert_eq!(executions, 0);
    match r {
        Err(SecVError::ModuleNotFound(m)) => assert_eq!(m, "ghost"),
        other => panic!("unexpected {:?}", other),
    }
}

#[test]
fn unresolved_reference_aborts_run() {
    let e = engine(vec![metadata("A", &[])]);
    let mut s = step("A", ErrorAction::Continue);
    s.inputs.insert("ports".to_string(), JsonValue::Str("${results.scan.ports}".to_string()));
    let (r, executions) = drive(&e, workflow(vec![s]), |_| StepOutcome::TimedOut);
    assert_eq!(executions, 0);
    assert!(matches!(r, Err(SecVError::WorkflowError(_))));
}

#[test]
fn failed_validation_follows_error_action() {
    let e = engine(vec![metadata("A", &["host"]), metadata("B", &[])]);
    let wf = workflow(vec![step("A", ErrorAction::Continue), step("B", ErrorAction::Stop)]);
    let (r, executions) = drive(&e, wf, |_| StepOutcome::Finished(result(true, JsonValue::Null)));
    assert_eq!(executions, 1);
    let results = r.unwrap();
    assert_eq!(
        results.get("A").unwrap().errors,
        vec!["Validation failed: Required input 'host' is missing".to_string()]
    );
    assert!(results.get("B").unwrap().success);
}

#[test]
fn resolved_inputs_flow_into_later_steps() {
    let e = engine(vec![metadata("scan", &[]), metadata("probe", &["ports", "host"])]);
    let mut probe = step("probe", ErrorAction::Stop);
    probe.inputs.insert("ports".to_string(), JsonValue::Str("${results.scan.ports}".to_string()));
    probe.inputs.insert("host".to_string(), JsonValue::Str("${target}".to_string()));
    let wf = workflow(vec![step("scan", ErrorAction::Stop), probe]);
    let mut seen_ports = Vec::new();
    let (r, executions) = drive(&e, wf, |req| {
        if let Some(p) = req.context.parameters.get("ports") {
            seen_ports = numbers(p);
        }
        StepOutcome::Finished(result(true, ports_payload()))
    });
    assert_eq!(executions, 2);
    assert_eq!(seen_ports, vec!["80", "443"]);
    assert_eq!(r.unwrap().len(), 2);
}

#[test]
fn same_module_twice_keeps_latest_result() {
    let e = engine(vec![metadata("A", &[])]);
    let wf = workflow(vec![step("A", ErrorAction::Continue), step("A", ErrorAction::Continue)]);
    let mut calls = 0;
    let (r, _) = drive(&e, wf, |_| {
        calls += 1;
        StepOutcome::Finished(result(calls == 2, JsonValue::Null))
    });
    let results = r.unwrap();
    assert_eq!(results.len(), 1);
    assert!(results.get("A").unwrap().success);
}

#[test]
fn empty_workflow_completes_with_no_results() {
    let e = engine(vec![]);
    let mut run = e.start(workflow(vec![]), "host".to_string());
    assert!(matches!(e.prepare_step(&mut run), NextAction::Completed));
    assert!(matches!(run.state_ref(), RunState::Completed));
    assert!(matches!(e.prepare_step(&mut run), NextAction::Completed));
    assert_eq!(run.into_results().len(), 0);
}

#[test]
fn global_settings_seed_parameters() {
    let e = engine(vec![metadata("A", &["level"])]);
    let mut wf = workflow(vec![step("A", ErrorAction::Stop)]);
    wf.global_settings.insert("level".to_string(), JsonValue::Number("3".to_string()));
    let (r, executions) = drive(&e, wf, |req| {
        assert!(req.context.parameters.contains_key("level"));
        assert_eq!(req.context.target, "10.0.0.5");
        StepOutcome::Finished(result(true, JsonValue::Null))
    });
    assert_eq!(executions, 1);
    assert!(r.is_ok());
}

#[test]
fn timed_out_stop_step_reports_the_time_out() {
    let e = engine(vec![metadata("A", &[]), metadata("B", &[])]);
    let mut a = step("A", ErrorAction::Stop);
    a.timeout_seconds = Some(1);
    let wf = workflow(vec![a, step("B", ErrorAction::Stop)]);
    let (r, executions) = drive(&e, wf, |_| StepOutcome::TimedOut);
    assert_eq!(executions, 1);
    match r {
        Err(SecVError::WorkflowError(m)) => assert_eq!(
            m,
            "Workflow stopped at step 1 due to error: Execution failed: Module execution timed out"
        ),
        other => panic!("unexpected {:?}", other),
    }
}

#[test]
fn step_context_carries_earlier_results() {
    let e = engine(vec![metadata("scan", &[]), metadata("probe", &[])]);
    let wf = workflow(vec![step("scan", ErrorAction::Stop), step("probe", ErrorAction::Stop)]);
    let mut seen = Vec::new();
    let (r, _) = drive(&e, wf, |req| {
        seen.push(req.context.results.len());
        if let Some(prev) = req.context.results.get("scan") {
            assert!(prev.success);
            assert_eq!(numbers(prev.data.get("ports").unwrap()), vec!["80", "443"]);
        }
        StepOutcome::Finished(result(true, ports_payload()))
    });
    assert_eq!(seen, vec![0, 1]);
    assert_eq!(r.unwrap().len(), 2);
}

#[test]
fn cloned_result_keeps_every_field() {
    let mut r = result(false, ports_payload());
    r.warnings.push("careful".to_string());
    r.artifacts.push("/tmp/out.xml".to_string());
    let c = r.clone();
    assert_eq!(c.success, r.success);
    assert_eq!(c.errors, r.errors);
    assert_eq!(c.warnings, r.warnings);
    assert_eq!(c.artifacts, r.artifacts);
    assert_eq!(c.execution_time_ms, r.execution_time_ms);
    assert_eq!(numbers(c.data.get("ports").unwrap()), vec!["80", "443"]);
}
