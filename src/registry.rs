use std::sync::Arc;
use vstd::prelude::*;

use crate::json::JsonValue;
use crate::keyed::Keyed;
use crate::module::{
    missing_input_named, required_inputs_present, ModuleMetadata, PlaceholderModule, SecVError, SecVModule,
};
use crate::scanner::{scan_inputs_valid, scan_rejection_text, NetworkScannerModule};

verus! {

/// The closed set of module kinds the registry can hold.
#[derive(Debug)]
pub enum LoadedModule {
    Placeholder(PlaceholderModule),
    NetworkScanner(NetworkScannerModule),
}

impl LoadedModule {
    pub open spec fn descriptor(&self) -> ModuleMetadata {
        match self {
            LoadedModule::Placeholder(m) => m.descriptor(),
            LoadedModule::NetworkScanner(m) => m.descriptor(),
        }
    }

    /// `msg` is the text with which this module's input check rejects `params`.
    pub open spec fn rejects_with(&self, params: Keyed<JsonValue>, msg: Seq<char>) -> bool {
        match self {
            LoadedModule::Placeholder(m) => missing_input_named(m.descriptor().inputs, params, msg),
            LoadedModule::NetworkScanner(_) => msg == scan_rejection_text(params),
        }
    }

    /// The parameter mappings this module's input check accepts.
    pub open spec fn accepts(&self, params: Keyed<JsonValue>) -> bool {
        match self {
            LoadedModule::Placeholder(m) => required_inputs_present(m.descriptor().inputs, params),
            LoadedModule::NetworkScanner(_) => scan_inputs_valid(params),
        }
    }
}

impl SecVModule for LoadedModule {
    fn metadata(&self) -> (r: &ModuleMetadata)
        ensures
            *r == self.descriptor(),
    {
        match self {
            LoadedModule::Placeholder(m) => m.metadata(),
            LoadedModule::NetworkScanner(m) => m.metadata(),
        }
    }

    fn validate_inputs(&self, inputs: &Keyed<JsonValue>) -> (r: Result<(), SecVError>)
        ensures
            r is Ok <==> self.accepts(*inputs),
            r matches Err(e) ==> e matches SecVError::ValidationFailed(msg) && self.rejects_with(
                *inputs,
                msg@,
            ),
    {
        match self {
            LoadedModule::Placeholder(m) => m.validate_inputs(inputs),
            LoadedModule::NetworkScanner(m) => m.validate_inputs(inputs),
        }
    }
}

/// Number of definitions in `s` that could not be read.
pub open spec fn malformed_count(s: Seq<Result<ModuleMetadata, SecVError>>) -> nat
    decreases s.len(),
{
    if s.len() == 0 {
        0
    } else {
        malformed_count(s.drop_last()) + if s.last() is Err {
            1nat
        } else {
            0nat
        }
    }
}

/// The name under which the last well-formed definition in `s` named `k`
/// was registered, if any.
pub open spec fn last_definition(s: Seq<Result<ModuleMetadata, SecVError>>, k: Seq<char>) -> Option<
    ModuleMetadata,
>
    decreases s.len(),
{
    if s.len() == 0 {
        None
    } else if s.last() matches Ok(m) && m.name@ == k {
        Some(s.last()->Ok_0)
    } else {
        last_definition(s.drop_last(), k)
    }
}

/// How many definitions of `s` bring a name that neither `old` nor an
/// earlier definition of `s` holds.
pub open spec fn fresh_count(s: Seq<Result<ModuleMetadata, SecVError>>, old: Keyed<Arc<LoadedModule>>) -> nat
    decreases s.len(),
{
    if s.len() == 0 {
        0
    } else {
        fresh_count(s.drop_last(), old) + match s.last() {
            Ok(m) => if !old.has(m.name@) && last_definition(s.drop_last(), m.name@) is None {
                1nat
            } else {
                0nat
            },
            Err(_) => 0nat,
        }
    }
}

/// The well-formed definitions of `s` carry pairwise different names, none
/// of them held by `old`.
pub open spec fn names_all_new(s: Seq<Result<ModuleMetadata, SecVError>>, old: Keyed<Arc<LoadedModule>>) -> bool {
    &&& forall|i: int| 0 <= i < s.len() && #[trigger] s[i] is Ok ==> !old.has(s[i]->Ok_0.name@)
    &&& forall|i: int, j: int|
        0 <= i < j < s.len() && #[trigger] s[i] is Ok && #[trigger] s[j] is Ok ==> s[i]->Ok_0.name@
            != s[j]->Ok_0.name@
}

proof fn lemma_last_definition_source(s: Seq<Result<ModuleMetadata, SecVError>>, k: Seq<char>)
    ensures
        last_definition(s, k) is Some ==> exists|i: int|
            0 <= i < s.len() && #[trigger] s[i] is Ok && s[i]->Ok_0.name@ == k,
    decreases s.len(),
{
    if s.len() > 0 {
        lemma_last_definition_source(s.drop_last(), k);
        if last_definition(s, k) is Some && !(s.last() matches Ok(m) && m.name@ == k) {
            let i = choose|i: int|
                0 <= i < s.drop_last().len() && #[trigger] s.drop_last()[i] is Ok
                    && s.drop_last()[i]->Ok_0.name@ == k;
            assert(s[i] == s.drop_last()[i]);
        }
        if s.last() matches Ok(m) && m.name@ == k {
            assert(s[s.len() - 1] is Ok);
        }
    }
}

/// When every well-formed definition brings a new name, each of them adds
/// one module: as many as the definitions that could be read.
pub proof fn lemma_new_names_all_counted(
    s: Seq<Result<ModuleMetadata, SecVError>>,
    old: Keyed<Arc<LoadedModule>>,
)
    requires
        names_all_new(s, old),
    ensures
        fresh_count(s, old) == s.len() - malformed_count(s),
        malformed_count(s) <= s.len(),
    decreases s.len(),
{
    if s.len() > 0 {
        let p = s.drop_last();
        assert forall|i: int| 0 <= i < p.len() && #[trigger] p[i] is Ok implies !old.has(
            p[i]->Ok_0.name@,
        ) by {
            assert(p[i] == s[i]);
        }
        assert forall|i: int, j: int|
            0 <= i < j < p.len() && #[trigger] p[i] is Ok && #[trigger] p[j] is Ok implies p[i]->Ok_0.name@
                != p[j]->Ok_0.name@ by {
            assert(p[i] == s[i]);
            assert(p[j] == s[j]);
        }
        lemma_new_names_all_counted(p, old);
        if s.last() is Ok {
            let n = s.last()->Ok_0.name@;
            assert(s[s.len() - 1] is Ok);
            lemma_last_definition_source(p, n);
            if last_definition(p, n) is Some {
                let i = choose|i: int| 0 <= i < p.len() && #[trigger] p[i] is Ok && p[i]->Ok_0.name@ == n;
                assert(p[i] == s[i]);
                assert(s[i] is Ok && s[s.len() - 1] is Ok);
            }
        }
    }
}

/// The modules of `s` whose category is `cat`, in order.
pub open spec fn category_members(s: Seq<(String, Arc<LoadedModule>)>, cat: Seq<char>) -> Seq<
    Arc<LoadedModule>,
>
    decreases s.len(),
{
    if s.len() == 0 {
        Seq::empty()
    } else if s.last().1.descriptor().category@ == cat {
        category_members(s.drop_last(), cat).push(s.last().1)
    } else {
        category_members(s.drop_last(), cat)
    }
}

/// `groups` holds, for each category of the modules in `s`, exactly the
/// modules of that category in order, and no other category.
pub open spec fn groups_by_category(
    s: Seq<(String, Arc<LoadedModule>)>,
    groups: Keyed<Vec<Arc<LoadedModule>>>,
) -> bool {
    forall|c: Seq<char>|
        match #[trigger] groups.at(c) {
            Some(v) => v@ == category_members(s, c) && v@.len() > 0,
            None => category_members(s, c).len() == 0,
        }
}

/// A fresh vector holding the same modules.
fn copy_members(v: &Vec<Arc<LoadedModule>>) -> (r: Vec<Arc<LoadedModule>>)
    ensures
        r@ == v@,
{
    let mut out: Vec<Arc<LoadedModule>> = Vec::new();
    let mut i: usize = 0;
    while i < v.len()
        invariant
            i <= v@.len(),
            out@ == v@.subrange(0, i as int),
        decreases v@.len() - i,
    {
        out.push(v[i].clone());
        i = i + 1;
        assert(out@ =~= v@.subrange(0, i as int));
    }
    assert(v@.subrange(0, v@.len() as int) =~= v@);
    out
}

/// Owns the loaded modules, each indexed by its unique name.
#[derive(Debug)]
pub struct ModuleLoader {
    modules: Keyed<Arc<LoadedModule>>,
    tools_directory: String,
}

impl ModuleLoader {
    #[verifier::type_invariant]
    spec fn indexed_by_name(&self) -> bool {
        forall|k: Seq<char>| #[trigger]
            self.modules.at(k) matches Some(m) ==> m.descriptor().name@ == k
    }

    /// The loaded modules by name.
    pub closed spec fn catalog(&self) -> Keyed<Arc<LoadedModule>> {
        self.modules
    }

    pub closed spec fn directory(&self) -> Seq<char> {
        self.tools_directory@
    }

    pub fn new(tools_directory: String) -> (r: Self)
        ensures
            forall|k: Seq<char>| #[trigger] r.catalog().at(k) is None,
            r.directory() == tools_directory@,
    {
        ModuleLoader { modules: Keyed::new(), tools_directory }
    }

    /// Where module definitions are looked for.
    pub fn tools_directory(&self) -> (r: &String)
        ensures
            r@ == self.directory(),
    {
        &self.tools_directory
    }

    /// Adds `module` under its own name, replacing a module of that name.
    pub fn register(&mut self, module: LoadedModule)
        ensures
            forall|k: Seq<char>| #[trigger]
                final(self).catalog().at(k) == if k == module.descriptor().name@ {
                    Some(Arc::new(module))
                } else {
                    old(self).catalog().at(k)
                },
            final(self).directory() == old(self).directory(),
            final(self).catalog().bindings().len() == old(self).catalog().bindings().len() + if old(self).catalog().has(module.descriptor().name@) {
                0int
            } else {
                1int
            },
    {
        proof {
            use_type_invariant(&*self);
        }
        let name = module.metadata().name.clone();
        let mut modules: Keyed<Arc<LoadedModule>> = Keyed::new();
        std::mem::swap(&mut self.modules, &mut modules);
        modules.insert(name, Arc::new(module));
        std::mem::swap(&mut self.modules, &mut modules);
    }

    /// Loads one module from its parsed definition.
    pub fn load_module_from_definition(&mut self, metadata: ModuleMetadata)
        ensures
            forall|k: Seq<char>| #[trigger]
                final(self).catalog().at(k) == if k == metadata.name@ {
                    Some(Arc::new(LoadedModule::Placeholder(PlaceholderModule::new_spec(metadata))))
                } else {
                    old(self).catalog().at(k)
                },
            final(self).directory() == old(self).directory(),
            final(self).catalog().bindings().len() == old(self).catalog().bindings().len() + if old(self).catalog().has(metadata.name@) {
                0int
            } else {
                1int
            },
    {
        self.register(LoadedModule::Placeholder(PlaceholderModule::new(metadata)));
    }

    /// Loads every well-formed definition, skipping the malformed ones, and
    /// returns how many were loaded.
    pub fn discover_modules(&mut self, definitions: Vec<Result<ModuleMetadata, SecVError>>) -> (r:
        usize)
        ensures
            r == definitions@.len() - malformed_count(definitions@),
            forall|k: Seq<char>| #[trigger]
                final(self).catalog().at(k) == match last_definition(definitions@, k) {
                    Some(m) => Some(
                        Arc::new(LoadedModule::Placeholder(PlaceholderModule::new_spec(m))),
                    ),
                    None => old(self).catalog().at(k),
                },
            final(self).directory() == old(self).directory(),
            final(self).catalog().bindings().len() == old(self).catalog().bindings().len()
                + fresh_count(definitions@, old(self).catalog()),
            names_all_new(definitions@, old(self).catalog()) ==> final(self).catalog().bindings().len() == old(self).catalog().bindings().len() + r,
    {
        let ghost start = *self;
        let ghost all = definitions@;
        let mut rest = definitions;
        let mut loaded: usize = 0;
        let ghost mut seen: int = 0;
        assert(all.len() == rest.len());
        while rest.len() > 0
            invariant
                all.len() <= usize::MAX,
                0 <= seen <= all.len(),
                rest@ == all.subrange(seen, all.len() as int),
                loaded == seen - malformed_count(all.subrange(0, seen)),
                malformed_count(all.subrange(0, seen)) <= seen,
                self.directory() == start.directory(),
                self.catalog().bindings().len() == start.catalog().bindings().len() + fresh_count(
                    all.subrange(0, seen),
                    start.catalog(),
                ),
                forall|k: Seq<char>| #[trigger]
                    self.catalog().at(k) == match last_definition(all.subrange(0, seen), k) {
                        Some(m) => Some(
                            Arc::new(LoadedModule::Placeholder(PlaceholderModule::new_spec(m))),
                        ),
                        None => start.catalog().at(k),
                    },
            decreases rest.len(),
        {
            let d = rest.remove(0);
            proof {
                assert(all.subrange(0, seen + 1).drop_last() =~= all.subrange(0, seen));
                assert(all.subrange(0, seen + 1).last() == d);
                seen = seen + 1;
                assert(rest@ =~= all.subrange(seen, all.len() as int));
            }
            if let Ok(metadata) = d {
                self.load_module_from_definition(metadata);
                loaded = loaded + 1;
            }
        }
        assert(all.subrange(0, seen) =~= all);
        proof {
            if names_all_new(all, start.catalog()) {
                lemma_new_names_all_counted(all, start.catalog());
            }
        }
        loaded
    }

    /// The module named exactly `name`, if one is loaded.
    pub fn get_module(&self, name: &str) -> (r: Option<Arc<LoadedModule>>)
        ensures
            r == self.catalog().at(name@),
            r matches Some(m) ==> m.descriptor().name@ == name@,
    {
        proof {
            use_type_invariant(self);
        }
        match self.modules.get(name) {
            Some(m) => Some(m.clone()),
            None => None,
        }
    }

    /// The modules grouped by category, computed afresh from the loaded set.
    pub fn modules_by_category(&self) -> (r: Keyed<Vec<Arc<LoadedModule>>>)
        ensures
            groups_by_category(self.catalog().bindings(), r),
    {
        let mut groups: Keyed<Vec<Arc<LoadedModule>>> = Keyed::new();
        let n = self.modules.len();
        let mut i: usize = 0;
        while i < n
            invariant
                n == self.catalog().bindings().len(),
                i <= n,
                groups_by_category(self.catalog().bindings().subrange(0, i as int), groups),
            decreases n - i,
        {
            let ghost pre = self.catalog().bindings().subrange(0, i as int);
            let ghost next = self.catalog().bindings().subrange(0, i + 1);
            let (_, module) = self.modules.entry_at(i);
            let category = &module.metadata().category;
            let mut members: Vec<Arc<LoadedModule>> = match groups.get(category.as_str()) {
                Some(v) => copy_members(v),
                None => Vec::new(),
            };
            proof {
                assert(next.drop_last() =~= pre);
                assert(next.last() == self.catalog().bindings()[i as int]);
                assert(members@ =~= category_members(pre, category@));
            }
            members.push(module.clone());
            groups.insert(category.clone(), members);
            i = i + 1;
        }
        assert(self.catalog().bindings().subrange(0, n as int) =~= self.catalog().bindings());
        groups
    }

    /// The names of all loaded modules, each once.
    pub fn module_names(&self) -> (r: Vec<String>)
        ensures
            r@.len() == self.catalog().bindings().len(),
            forall|i: int|
                0 <= i < r@.len() ==> #[trigger] r@[i] == self.catalog().bindings()[i].0,
            forall|k: Seq<char>|
                self.catalog().has(k) <==> exists|i: int| 0 <= i < r@.len() && #[trigger] r@[i]@ == k,
            forall|i: int, j: int| 0 <= i < j < r@.len() ==> r@[i]@ != r@[j]@,
    {
        let mut names: Vec<String> = Vec::new();
        let n = self.modules.len();
        assert(crate::keyed::keys_distinct(self.catalog().bindings()));
        let mut i: usize = 0;
        while i < n
            invariant
                n == self.catalog().bindings().len(),
                i <= n,
                names@.len() == i,
                forall|j: int| 0 <= j < i ==> #[trigger] names@[j] == self.catalog().bindings()[j].0,
            decreases n - i,
        {
            let (name, _) = self.modules.entry_at(i);
            names.push(name.clone());
            i = i + 1;
        }
        proof {
            assert forall|k: Seq<char>|
                self.catalog().has(k) <==> exists|i: int| 0 <= i < names@.len() && #[trigger] names@[i]@ == k by {
                self.catalog().lemma_bound_from_binding(k);
                if self.catalog().has(k) {
                    let j = choose|j: int|
                        0 <= j < self.catalog().bindings().len() && self.catalog().bindings()[j].0@ == k;
                    assert(names@[j]@ == k);
                }
            }
        }
        names
    }
}

/// Grouping is a function of the loaded modules alone: two groupings of the
/// same modules hold the same categories with the same members in the same
/// order.
pub proof fn lemma_grouping_is_determined(
    s: Seq<(String, Arc<LoadedModule>)>,
    first: Keyed<Vec<Arc<LoadedModule>>>,
    second: Keyed<Vec<Arc<LoadedModule>>>,
)
    requires
        groups_by_category(s, first),
        groups_by_category(s, second),
    ensures
        forall|c: Seq<char>| #[trigger] first.has(c) == second.has(c),
        forall|c: Seq<char>|
            #[trigger] first.has(c) ==> first.at(c)->0@ == second.at(c)->0@,
{
    assert forall|c: Seq<char>| #[trigger] first.has(c) == second.has(c) by {
        assert(first.at(c) == first.at(c));
        assert(second.at(c) == second.at(c));
    }
    assert forall|c: Seq<char>| #[trigger] first.has(c) implies first.at(c)->0@ == second.at(c)->0@ by {
        assert(first.at(c) == first.at(c));
        assert(second.at(c) == second.at(c));
    }
}

} // verus!
