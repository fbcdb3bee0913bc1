use vstd::prelude::*;

use crate::json::JsonValue;
use crate::keyed::Keyed;
use crate::text::current_timestamp;

verus! {

/// One declared input of a module.
#[derive(Clone, Debug)]
pub struct InputSpec {
    pub description: String,
    pub input_type: String,
    pub required: bool,
    pub default_value: Option<String>,
    pub validation_regex: Option<String>,
}

/// One declared output of a module.
#[derive(Clone, Debug)]
pub struct OutputSpec {
    pub description: String,
    pub output_type: String,
    pub format: String,
}

/// Severity classification of a module; informational only.
#[derive(Clone, Copy, Debug, PartialEq, Eq, Structural, Hash)]
pub enum RiskLevel {
    Low,
    Medium,
    High,
    Critical,
}

impl RiskLevel {
    /// Position in the order Low < Medium < High < Critical.
    pub open spec fn rank_spec(self) -> nat {
        match self {
            RiskLevel::Low => 0,
            RiskLevel::Medium => 1,
            RiskLevel::High => 2,
            RiskLevel::Critical => 3,
        }
    }

    pub fn rank(&self) -> (r: u8)
        ensures
            r as nat == self.rank_spec(),
    {
        match self {
            RiskLevel::Low => 0,
            RiskLevel::Medium => 1,
            RiskLevel::High => 2,
            RiskLevel::Critical => 3,
        }
    }

    /// Whether this level is strictly below `other`.
    pub fn is_below(&self, other: &RiskLevel) -> (r: bool)
        ensures
            r == (self.rank_spec() < other.rank_spec()),
    {
        self.rank() < other.rank()
    }

    /// The label shown to users, with its colour marker.
    pub fn label(&self) -> (r: String)
        ensures
            r@ == self.label_spec(),
    {
        match self {
            RiskLevel::Low => String::from_str("🟢 Low"),
            RiskLevel::Medium => String::from_str("🟡 Medium"),
            RiskLevel::High => String::from_str("🟠 High"),
            RiskLevel::Critical => String::from_str("🔴 Critical"),
        }
    }

    pub open spec fn label_spec(self) -> Seq<char> {
        match self {
            RiskLevel::Low => "🟢 Low"@,
            RiskLevel::Medium => "🟡 Medium"@,
            RiskLevel::High => "🟠 High"@,
            RiskLevel::Critical => "🔴 Critical"@,
        }
    }
}

/// Identity and contract metadata of one module.
#[derive(Clone, Debug)]
pub struct ModuleMetadata {
    pub name: String,
    pub version: String,
    pub category: String,
    pub description: String,
    pub author: String,
    pub dependencies: Vec<String>,
    pub inputs: Keyed<InputSpec>,
    pub outputs: Keyed<OutputSpec>,
    pub capabilities: Vec<String>,
    pub risk_level: RiskLevel,
}

/// Outcome of one execution of a module.
#[derive(Debug)]
pub struct ModuleResult {
    pub success: bool,
    pub data: JsonValue,
    pub errors: Vec<String>,
    pub warnings: Vec<String>,
    pub execution_time_ms: u64,
    pub artifacts: Vec<String>,
}

impl ModuleResult {
    /// `self` and `other` hold the same outcome, field by field.
    pub open spec fn same(self, other: ModuleResult) -> bool {
        &&& self.success == other.success
        &&& self.data == other.data
        &&& self.errors@ == other.errors@
        &&& self.warnings@ == other.warnings@
        &&& self.execution_time_ms == other.execution_time_ms
        &&& self.artifacts@ == other.artifacts@
    }
}

impl Clone for ModuleResult {
    fn clone(&self) -> (r: Self)
        ensures
            r.same(*self),
    {
        let errors = self.errors.clone();
        let warnings = self.warnings.clone();
        let artifacts = self.artifacts.clone();
        assert(errors@ =~= self.errors@);
        assert(warnings@ =~= self.warnings@);
        assert(artifacts@ =~= self.artifacts@);
        ModuleResult {
            success: self.success,
            data: self.data.clone(),
            errors,
            warnings,
            execution_time_ms: self.execution_time_ms,
            artifacts,
        }
    }
}

/// The failures that modules, the registry and the workflow engine report.
#[derive(Debug)]
pub enum SecVError {
    ModuleNotFound(String),
    DependencyMissing(String),
    ValidationFailed(String),
    ExecutionFailed(String),
    WorkflowError(String),
    IoError(String),
    SerializationError(String),
}

impl Clone for SecVError {
    fn clone(&self) -> (r: Self)
        ensures
            r == *self,
    {
        match self {
            SecVError::ModuleNotFound(s) => SecVError::ModuleNotFound(s.clone()),
            SecVError::DependencyMissing(s) => SecVError::DependencyMissing(s.clone()),
            SecVError::ValidationFailed(s) => SecVError::ValidationFailed(s.clone()),
            SecVError::ExecutionFailed(s) => SecVError::ExecutionFailed(s.clone()),
            SecVError::WorkflowError(s) => SecVError::WorkflowError(s.clone()),
            SecVError::IoError(s) => SecVError::IoError(s.clone()),
            SecVError::SerializationError(s) => SecVError::SerializationError(s.clone()),
        }
    }
}

impl SecVError {
    pub open spec fn message_spec(&self) -> Seq<char> {
        match self {
            SecVError::ModuleNotFound(s) => "Module not found: "@ + s@,
            SecVError::DependencyMissing(s) => "Dependency missing: "@ + s@,
            SecVError::ValidationFailed(s) => "Validation failed: "@ + s@,
            SecVError::ExecutionFailed(s) => "Execution failed: "@ + s@,
            SecVError::WorkflowError(s) => "Workflow error: "@ + s@,
            SecVError::IoError(s) => "IO error: "@ + s@,
            SecVError::SerializationError(s) => "Serialization error: "@ + s@,
        }
    }

    /// Human-readable text of the failure.
    pub fn message(&self) -> (r: String)
        ensures
            r@ == self.message_spec(),
    {
        match self {
            SecVError::ModuleNotFound(s) => String::from_str("Module not found: ").concat(
                s.as_str(),
            ),
            SecVError::DependencyMissing(s) => String::from_str("Dependency missing: ").concat(
                s.as_str(),
            ),
            SecVError::ValidationFailed(s) => String::from_str("Validation failed: ").concat(
                s.as_str(),
            ),
            SecVError::ExecutionFailed(s) => String::from_str("Execution failed: ").concat(
                s.as_str(),
            ),
            SecVError::WorkflowError(s) => String::from_str("Workflow error: ").concat(
                s.as_str(),
            ),
            SecVError::IoError(s) => String::from_str("IO error: ").concat(s.as_str()),
            SecVError::SerializationError(s) => String::from_str("Serialization error: ").concat(
                s.as_str(),
            ),
        }
    }
}

/// Text of the failure for a required input that was not supplied.
pub open spec fn missing_input_text(key: Seq<char>) -> Seq<char> {
    "Required input '"@ + key + "' is missing"@
}

/// Every input that `inputs` declares as required is bound in `params`.
pub open spec fn required_inputs_present(inputs: Keyed<InputSpec>, params: Keyed<JsonValue>) -> bool {
    forall|k: Seq<char>| #[trigger]
        inputs.at(k) matches Some(spec) ==> (spec.required ==> params.has(k))
}

/// A mapping is accepted when the only declared inputs it leaves out are
/// optional ones.
pub proof fn lemma_only_optional_missing_accepted(
    inputs: Keyed<InputSpec>,
    params: Keyed<JsonValue>,
)
    requires
        forall|k: Seq<char>| #[trigger]
            inputs.has(k) && !params.has(k) ==> !inputs.at(k)->0.required,
    ensures
        required_inputs_present(inputs, params),
{
    assert forall|k: Seq<char>| #[trigger]
        inputs.at(k) is Some && inputs.at(k)->0.required implies params.has(k) by {
        assert(inputs.has(k));
    }
}

/// A mapping that leaves out a required input is rejected.
pub proof fn lemma_missing_required_rejected(
    inputs: Keyed<InputSpec>,
    params: Keyed<JsonValue>,
    key: Seq<char>,
)
    requires
        inputs.at(key) matches Some(spec) && spec.required,
        !params.has(key),
    ensures
        !required_inputs_present(inputs, params),
{
    assert(inputs.at(key) == inputs.at(key));
}

/// `msg` names a required input of `inputs` that `params` leaves out.
pub open spec fn missing_input_named(
    inputs: Keyed<InputSpec>,
    params: Keyed<JsonValue>,
    msg: Seq<char>,
) -> bool {
    exists|k: Seq<char>|
        {
            &&& #[trigger] inputs.at(k) matches Some(spec)
            &&& spec.required
            &&& !params.has(k)
            &&& msg == missing_input_text(k)
        }
}

/// Checks that every required input of `inputs` is bound in `params`.
pub fn check_required_inputs(inputs: &Keyed<InputSpec>, params: &Keyed<JsonValue>) -> (r: Result<
    (),
    SecVError,
>)
    ensures
        r is Ok <==> required_inputs_present(*inputs, *params),
        r matches Err(e) ==> e matches SecVError::ValidationFailed(msg) && exists|k: Seq<char>|
            {
                &&& #[trigger] inputs.at(k) matches Some(spec)
                &&& spec.required
                &&& !params.has(k)
                &&& msg@ == missing_input_text(k)
            },
{
    let n = inputs.len();
    let mut i: usize = 0;
    while i < n
        invariant
            n == inputs.bindings().len(),
            i <= n,
            forall|j: int|
                0 <= j < i ==> inputs.at(#[trigger] inputs.bindings()[j].0@) == Some(
                    inputs.bindings()[j].1,
                ),
            forall|j: int|
                0 <= j < i ==> (#[trigger] inputs.bindings()[j]).1.required ==> params.has(
                    inputs.bindings()[j].0@,
                ),
        decreases n - i,
    {
        let (key, spec) = inputs.entry_at(i);
        if spec.required && !params.contains_key(key.as_str()) {
            let msg = String::from_str("Required input '").concat(key.as_str()).concat(
                "' is missing",
            );
            return Err(SecVError::ValidationFailed(msg));
        }
        i = i + 1;
    }
    proof {
        assert forall|k: Seq<char>| #[trigger]
            inputs.at(k) is Some && inputs.at(k)->0.required implies params.has(k) by {
            inputs.lemma_bound_from_binding(k);
            let j = choose|j: int| 0 <= j < inputs.bindings().len() && inputs.bindings()[j].0@ == k;
            assert(inputs.at(inputs.bindings()[j].0@) == Some(inputs.bindings()[j].1));
        }
    }
    Ok(())
}

/// The operations every module offers without external work: its metadata
/// and the check of its inputs. Dependency probes and execution run outside
/// the library.
pub trait SecVModule {
    fn metadata(&self) -> &ModuleMetadata;

    fn validate_inputs(&self, inputs: &Keyed<JsonValue>) -> Result<(), SecVError>;
}

/// A module known only by its metadata, as loaded from a definition file.
#[derive(Debug)]
pub struct PlaceholderModule {
    metadata: ModuleMetadata,
}

impl PlaceholderModule {
    pub closed spec fn descriptor(&self) -> ModuleMetadata {
        self.metadata
    }

    /// The module built from `metadata`.
    pub closed spec fn new_spec(metadata: ModuleMetadata) -> Self {
        PlaceholderModule { metadata }
    }

    pub fn new(metadata: ModuleMetadata) -> (r: Self)
        ensures
            r == Self::new_spec(metadata),
            r.descriptor() == metadata,
    {
        PlaceholderModule { metadata }
    }
}

/// Decides the dependency check from what was found: fails naming the first
/// dependency that is not available.
pub fn first_missing_dependency(dependencies: &Vec<String>, available: &Vec<bool>) -> (r: Result<
    (),
    SecVError,
>)
    requires
        dependencies@.len() == available@.len(),
    ensures
        r is Ok <==> forall|i: int| 0 <= i < available@.len() ==> #[trigger] available@[i],
        r matches Err(e) ==> exists|i: int|
            0 <= i < available@.len() && !available@[i] && (forall|j: int|
                0 <= j < i ==> #[trigger] available@[j]) && e == SecVError::DependencyMissing(
                dependencies@[i],
            ),
{
    let mut i: usize = 0;
    while i < available.len()
        invariant
            dependencies@.len() == available@.len(),
            i <= available@.len(),
            forall|j: int| 0 <= j < i ==> #[trigger] available@[j],
        decreases available@.len() - i,
    {
        if !available[i] {
            return Err(SecVError::DependencyMissing(dependencies[i].clone()));
        }
        i = i + 1;
    }
    Ok(())
}

/// The message a placeholder module reports after a run.
pub open spec fn executed_text(name: Seq<char>, target: Seq<char>) -> Seq<char> {
    "Successfully executed "@ + name + " against "@ + target
}

impl PlaceholderModule {
    /// The result of a run against `target` that took `elapsed_ms` and ended
    /// at `timestamp`.
    pub fn build_execution_result(&self, target: &str, elapsed_ms: u64, timestamp: String) -> (r:
        ModuleResult)
        ensures
            r.success,
            r.errors@.len() == 0,
            r.warnings@.len() == 0,
            r.artifacts@.len() == 0,
            r.execution_time_ms == elapsed_ms,
            r.data matches JsonValue::Object(m) && {
                &&& m@.len() == 2
                &&& m@[0].0@ == "message"@
                &&& m@[0].1 matches JsonValue::Str(t) && t@ == executed_text(
                    self.descriptor().name@,
                    target@,
                )
                &&& m@[1].0@ == "timestamp"@
                &&& m@[1].1 == JsonValue::Str(timestamp)
            },
    {
        let message = String::from_str("Successfully executed ").concat(
            self.metadata.name.as_str(),
        ).concat(" against ").concat(target);
        let data = JsonValue::object(
            vec![
                (String::from_str("message"), JsonValue::Str(message)),
                (String::from_str("timestamp"), JsonValue::Str(timestamp)),
            ],
        );
        ModuleResult {
            success: true,
            data,
            errors: Vec::new(),
            warnings: Vec::new(),
            execution_time_ms: elapsed_ms,
            artifacts: Vec::new(),
        }
    }

    /// The result of a run against `target`, stamped with the current time.
    pub fn execution_result(&self, target: &str, elapsed_ms: u64) -> (r: ModuleResult)
        ensures
            r.success,
            r.errors@.len() == 0,
            r.execution_time_ms == elapsed_ms,
            r.warnings@.len() == 0,
            r.artifacts@.len() == 0,
            r.data matches JsonValue::Object(m) && {
                &&& m@.len() == 2
                &&& m@[0].0@ == "message"@
                &&& m@[0].1 matches JsonValue::Str(t) && t@ == executed_text(
                    self.descriptor().name@,
                    target@,
                )
                &&& m@[1].0@ == "timestamp"@
                &&& m@[1].1 is Str
            },
    {
        self.build_execution_result(target, elapsed_ms, current_timestamp())
    }
}

impl SecVModule for PlaceholderModule {
    fn metadata(&self) -> (r: &ModuleMetadata)
        ensures
            *r == self.descriptor(),
    {
        &self.metadata
    }

    /// Accepts exactly the mappings that bind every required input.
    fn validate_inputs(&self, inputs: &Keyed<JsonValue>) -> (r: Result<(), SecVError>)
        ensures
            r is Ok <==> required_inputs_present(self.descriptor().inputs, *inputs),
            r matches Err(e) ==> e matches SecVError::ValidationFailed(msg)
                && missing_input_named(self.descriptor().inputs, *inputs, msg@),
    {
        check_required_inputs(&self.metadata.inputs, inputs)
    }
}

} // verus!
