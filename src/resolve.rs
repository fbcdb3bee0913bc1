use vstd::prelude::*;

use crate::context::ExecutionContext;
use crate::json::JsonValue;
use crate::keyed::{str_eq, Keyed};
use crate::text::{split_at_char, split_text};
use crate::module::SecVError;

verus! {

/// The value that the context path `path` names, if it names one:
/// `target`, or `results.<module>.<field>` for a stored result whose payload
/// has that field.
pub open spec fn path_value(path: Seq<char>, ctx: ExecutionContext) -> Option<JsonValue> {
    let parts = split_at_char(path, '.');
    if parts.len() == 1 && parts[0] == "target"@ {
        Some(JsonValue::Str(ctx.target))
    } else if parts.len() == 3 && parts[0] == "results"@ {
        match ctx.results.at(parts[1]) {
            Some(r) => r.data.field(parts[2]),
            None => None,
        }
    } else {
        None
    }
}

/// Resolves a dotted path against the context.
pub fn resolve_context_path(path: &str, context: &ExecutionContext) -> (r: Result<
    JsonValue,
    SecVError,
>)
    ensures
        r is Ok <==> path_value(path@, *context) is Some,
        r matches Ok(v) ==> path_value(path@, *context) == Some(v),
        r matches Err(e) ==> e is WorkflowError,
{
    let parts = split_text(path, '.');
    let ghost views = parts@.map_values(|x: String| x@);
    proof {
        assert(views.len() == parts@.len());
    }
    if parts.len() == 1 && str_eq(parts[0].as_str(), "target") {
        proof {
            assert(views[0] == parts@[0]@);
        }
        return Ok(JsonValue::Str(context.target.clone()));
    }
    if parts.len() == 3 && str_eq(parts[0].as_str(), "results") {
        proof {
            assert(views[0] == parts@[0]@);
            assert(views[1] == parts@[1]@);
            assert(views[2] == parts@[2]@);
        }
        let module_name = parts[1].as_str();
        let field = parts[2].as_str();
        return match context.results.get(module_name) {
            Some(result) => match result.data.get(field) {
                Some(v) => Ok(v.clone()),
                None => Err(
                    SecVError::WorkflowError(
                        String::from_str("Field '").concat(field).concat("' not found in module '").concat(
                            module_name,
                        ).concat("' results"),
                    ),
                ),
            },
            None => Err(
                SecVError::WorkflowError(
                    String::from_str("Module '").concat(module_name).concat("' results not found"),
                ),
            ),
        };
    }
    proof {
        if parts@.len() == 1 {
            assert(views[0] == parts@[0]@);
        }
        if parts@.len() == 3 {
            assert(views[0] == parts@[0]@);
        }
    }
    Err(SecVError::WorkflowError(String::from_str("Invalid context path: ").concat(path)))
}

/// The path inside a back-reference `${<path>}`, if `s` has that form.
pub open spec fn reference_path(s: Seq<char>) -> Option<Seq<char>> {
    if s.len() >= 3 && s[0] == '$' && s[1] == '{' && s.last() == '}' {
        Some(s.subrange(2, s.len() - 1))
    } else {
        None
    }
}

/// What a declared input resolves to: a back-reference is replaced by the
/// value its path names; anything else is kept as it is.
pub open spec fn resolved_value(v: JsonValue, ctx: ExecutionContext) -> Option<JsonValue> {
    match v {
        JsonValue::Str(s) => match reference_path(s@) {
            Some(p) => path_value(p, ctx),
            None => Some(v),
        },
        _ => Some(v),
    }
}

/// Resolves one declared input value.
pub fn resolve_value(value: &JsonValue, context: &ExecutionContext) -> (r: Result<
    JsonValue,
    SecVError,
>)
    ensures
        r is Ok <==> resolved_value(*value, *context) is Some,
        r matches Ok(v) ==> resolved_value(*value, *context) == Some(v),
        r matches Err(e) ==> e is WorkflowError,
{
    if let JsonValue::Str(s) = value {
        let n = s.unicode_len();
        if n >= 3 && s.get_char(0) == '$' && s.get_char(1) == '{' && s.get_char(n - 1) == '}' {
            let path = s.substring_char(2, n - 1);
            return resolve_context_path(path, context);
        }
    }
    Ok(value.clone())
}

/// Every declared input resolves.
pub open spec fn inputs_resolve(inputs: Keyed<JsonValue>, ctx: ExecutionContext) -> bool {
    forall|k: Seq<char>| #[trigger]
        inputs.at(k) matches Some(v) ==> resolved_value(v, ctx) is Some
}

/// Resolves every declared input against the context.
pub fn resolve_inputs(inputs: &Keyed<JsonValue>, context: &ExecutionContext) -> (r: Result<
    Keyed<JsonValue>,
    SecVError,
>)
    ensures
        r is Ok <==> inputs_resolve(*inputs, *context),
        r matches Ok(m) ==> forall|k: Seq<char>| #[trigger]
            m.at(k) == match inputs.at(k) {
                Some(v) => resolved_value(v, *context),
                None => None,
            },
        r matches Err(e) ==> e is WorkflowError,
{
    let mut resolved: Keyed<JsonValue> = Keyed::new();
    let n = inputs.len();
    let mut i: usize = 0;
    while i < n
        invariant
            n == inputs.bindings().len(),
            i <= n,
            forall|j: int|
                0 <= j < i ==> inputs.at(#[trigger] inputs.bindings()[j].0@) == Some(
                    inputs.bindings()[j].1,
                ),
            forall|k: Seq<char>| #[trigger]
                resolved.at(k) == if exists|j: int|
                    0 <= j < i && #[trigger] inputs.bindings()[j].0@ == k {
                    resolved_value(inputs.at(k)->0, *context)
                } else {
                    None
                },
            forall|k: Seq<char>|
                (exists|j: int| 0 <= j < i && #[trigger] inputs.bindings()[j].0@ == k)
                    ==> #[trigger] resolved.has(k),
        decreases n - i,
    {
        let (key, value) = inputs.entry_at(i);
        let v = match resolve_value(value, context) {
            Ok(v) => v,
            Err(e) => {
                proof {
                    assert(!inputs_resolve(*inputs, *context)) by {
                        assert(inputs.at(key@) == Some(*value));
                    }
                }
                return Err(e);
            },
        };
        let ghost prev = resolved;
        resolved.insert(key.clone(), v);
        i = i + 1;
        proof {
            assert forall|k: Seq<char>| #[trigger]
                resolved.at(k) == if exists|j: int|
                    0 <= j < i && #[trigger] inputs.bindings()[j].0@ == k {
                    resolved_value(inputs.at(k)->0, *context)
                } else {
                    None
                } by {
                if k == key@ {
                    assert(inputs.bindings()[i - 1].0@ == k);
                    assert(resolved.at(key@) == Some(v));
                } else {
                    if exists|j: int| 0 <= j < i && #[trigger] inputs.bindings()[j].0@ == k {
                        let j = choose|j: int| 0 <= j < i && #[trigger] inputs.bindings()[j].0@ == k;
                        assert(j < i - 1);
                    }
                }
            }
            assert forall|k: Seq<char>|
                (exists|j: int| 0 <= j < i && #[trigger] inputs.bindings()[j].0@ == k)
                    implies #[trigger] resolved.has(k) by {
                assert(resolved.at(key@) == Some(v));
                if k != key@ {
                    let j = choose|j: int| 0 <= j < i && #[trigger] inputs.bindings()[j].0@ == k;
                    assert(j < i - 1);
                    assert(prev.has(k));
                    assert(resolved.at(k) == prev.at(k));
                }
            }
        }
    }
    proof {
        assert forall|k: Seq<char>| #[trigger]
            resolved.at(k) == match inputs.at(k) {
                Some(v) => resolved_value(v, *context),
                None => None,
            } by {
            inputs.lemma_bound_from_binding(k);
        }
        assert forall|k: Seq<char>| #[trigger]
            inputs.at(k) is Some implies resolved_value(inputs.at(k)->0, *context) is Some by {
            inputs.lemma_bound_from_binding(k);
            let j = choose|j: int| 0 <= j < inputs.bindings().len() && inputs.bindings()[j].0@ == k;
            assert(inputs.bindings()[j].0@ == k);
            assert(resolved.has(k));
        }
    }
    Ok(resolved)
}

} // verus!
