use vstd::prelude::*;

use crate::json::JsonValue;
use crate::keyed::{lemma_bound_value_at_index, Keyed};
use crate::module::ModuleResult;

verus! {

/// The state carried through one module invocation or one workflow run.
#[derive(Debug)]
pub struct ExecutionContext {
    pub target: String,
    pub parameters: Keyed<JsonValue>,
    /// The latest result of each module, by module name.
    pub results: Keyed<ModuleResult>,
    pub metadata: Keyed<String>,
}

impl ExecutionContext {
    /// A fresh context with no results and no metadata.
    pub fn new(target: String, parameters: Keyed<JsonValue>) -> (r: Self)
        ensures
            r.target == target,
            r.parameters == parameters,
            forall|k: Seq<char>| #[trigger] r.results.at(k) is None,
            r.results.bindings().len() == 0,
            forall|k: Seq<char>| #[trigger] r.metadata.at(k) is None,
    {
        ExecutionContext { target, parameters, results: Keyed::new(), metadata: Keyed::new() }
    }

    /// A copy handed to a module: same target, parameters and metadata, and
    /// for each module a result that holds the same outcome.
    pub fn snapshot(&self) -> (r: Self)
        ensures
            r.target == self.target,
            forall|k: Seq<char>| #[trigger] r.parameters.at(k) == self.parameters.at(k),
            forall|k: Seq<char>| #[trigger] r.metadata.at(k) == self.metadata.at(k),
            forall|k: Seq<char>|
                match #[trigger] self.results.at(k) {
                    Some(a) => r.results.at(k) matches Some(b) && b.same(a),
                    None => r.results.at(k) is None,
                },
    {
        let parameters = self.parameters.clone();
        let metadata = self.metadata.clone();
        let results = self.results.clone();
        let _ = self.results.len();
        let _ = results.len();
        proof {
            assert(parameters.bindings() =~= self.parameters.bindings());
            assert(metadata.bindings() =~= self.metadata.bindings());
            assert forall|k: Seq<char>|
                match #[trigger] self.results.at(k) {
                    Some(a) => results.at(k) matches Some(b) && b.same(a),
                    None => results.at(k) is None,
                } by {
                results.lemma_bound_from_binding(k);
                self.results.lemma_bound_from_binding(k);
                if self.results.has(k) {
                    let i = choose|i: int|
                        0 <= i < self.results.bindings().len() && self.results.bindings()[i].0@
                            == k;
                    lemma_bound_value_at_index(self.results.bindings(), i);
                    lemma_bound_value_at_index(results.bindings(), i);
                    assert(results.bindings()[i].0 == self.results.bindings()[i].0);
                } else if results.has(k) {
                    let i = choose|i: int|
                        0 <= i < results.bindings().len() && results.bindings()[i].0@ == k;
                    assert(self.results.bindings()[i].0 == results.bindings()[i].0);
                }
            }
        }
        ExecutionContext { target: self.target.clone(), parameters, results, metadata }
    }
}

} // verus!
