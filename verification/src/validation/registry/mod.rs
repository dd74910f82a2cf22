//! The modules of a compilation and what they declare.

use vstd::prelude::*;
use vstd::std_specs::cmp::PartialEqSpecImpl;
use crate::file::identifier::{GlobalIdentifier, Identifier, Namespace};
use crate::validation::data_type::DataType;
use crate::validation::error::{CompilerError, CompilerErrorView, CompilerResult};
use crate::validation::registry::functions::{FunctionPrototype, FunctionPrototypeView};

pub mod expression;
pub mod functions;
pub mod variable;

verus! {

/// The declarations of one module, under the module's path, and the modules inside it, each
/// under its name. No two modules inside one module have the same name, no two data types of
/// one module have the same name, and no two functions of one module are equal.
#[derive(Debug)]
pub struct ModuleRegistry {
    path: Namespace,
    sub_modules: Vec<(Identifier, ModuleRegistry)>,
    data_types: Vec<(Identifier, DataType)>,
    functions: Vec<FunctionPrototype>,
}

/// The mathematical value of a `ModuleRegistry`: the module's path, the modules inside it with
/// their names in the order in which they were registered, the data types with their names,
/// and the functions.
pub struct ModuleRegistryView {
    pub path: Seq<Seq<char>>,
    pub sub_modules: Seq<(Seq<char>, ModuleRegistryView)>,
    pub data_types: Seq<(Seq<char>, DataType)>,
    pub functions: Seq<FunctionPrototypeView>,
}

/// The registry of a module at `path` that declares nothing and holds no module.
pub open spec fn empty_registry(path: Seq<Seq<char>>) -> ModuleRegistryView {
    ModuleRegistryView {
        path,
        sub_modules: Seq::empty(),
        data_types: Seq::empty(),
        functions: Seq::empty(),
    }
}

impl ModuleRegistryView {
    /// Whether a module named `name` is registered inside this one.
    pub open spec fn has_module(self, name: Seq<char>) -> bool {
        exists|i: int| 0 <= i < self.sub_modules.len() && (#[trigger] self.sub_modules[i]).0 == name
    }

    /// Whether no name is bound twice: no two modules inside this one and no two data types
    /// have the same name, and no two functions have the same name and argument types.
    pub open spec fn unambiguous(self) -> bool {
        &&& forall|i: int, j: int|
            0 <= i < j < self.sub_modules.len() ==> (#[trigger] self.sub_modules[i]).0 != (
            #[trigger] self.sub_modules[j]).0
        &&& forall|i: int, j: int|
            0 <= i < j < self.data_types.len() ==> (#[trigger] self.data_types[i]).0 != (
            #[trigger] self.data_types[j]).0
        &&& forall|i: int, j: int|
            0 <= i < j < self.functions.len() ==> (#[trigger] self.functions[i]).signature() != (
            #[trigger] self.functions[j]).signature()
    }
}

/// What registering a module named `name` makes of `registry`. Where the name is new, it is
/// bound, behind the modules that are there, to the empty registry of the module of that name
/// inside this one, and nothing else changes. Where a module of that name is there already,
/// the registration fails.
pub open spec fn registered(registry: ModuleRegistryView, name: Seq<char>) -> Result<
    ModuleRegistryView,
    CompilerErrorView,
> {
    if registry.has_module(name) {
        Err(CompilerErrorView::DuplicateNamespace(registry.path.push(name)))
    } else {
        Ok(
            ModuleRegistryView {
                path: registry.path,
                sub_modules: registry.sub_modules.push(
                    (name, empty_registry(registry.path.push(name))),
                ),
                data_types: registry.data_types,
                functions: registry.functions,
            },
        )
    }
}

/// The mathematical value of a registry.
pub closed spec fn registry_view(r: ModuleRegistry) -> ModuleRegistryView
    decreases r,
{
    ModuleRegistryView {
        path: r.path@,
        sub_modules: Seq::new(
            r.sub_modules@.len(),
            |i: int|
                if 0 <= i < r.sub_modules@.len() {
                    (r.sub_modules@[i].0@, registry_view(r.sub_modules@[i].1))
                } else {
                    (Seq::empty(), empty_registry(Seq::empty()))
                },
        ),
        data_types: Seq::new(
            r.data_types@.len(),
            |i: int| (r.data_types@[i].0@, r.data_types@[i].1),
        ),
        functions: Seq::new(r.functions@.len(), |i: int| r.functions@[i]@),
    }
}

impl View for ModuleRegistry {
    type V = ModuleRegistryView;

    closed spec fn view(&self) -> ModuleRegistryView {
        registry_view(*self)
    }
}

impl ModuleRegistry {
    #[verifier::type_invariant]
    spec fn valid(&self) -> bool {
        self@.unambiguous()
    }

    fn empty(path: Namespace) -> (r: Self)
        ensures
            r@ == empty_registry(path@),
    {
        let r = ModuleRegistry {
            path,
            sub_modules: Vec::new(),
            data_types: Vec::new(),
            functions: Vec::new(),
        };
        assert(r@.sub_modules =~= Seq::<(Seq<char>, ModuleRegistryView)>::empty());
        assert(r@.data_types =~= Seq::<(Seq<char>, DataType)>::empty());
        assert(r@.functions =~= Seq::<FunctionPrototypeView>::empty());
        r
    }

    /// The registry of the root module `main`, with nothing declared and no module inside it.
    pub fn create_global() -> (r: Self)
        ensures
            r@ == empty_registry(seq![crate::file::identifier::main_name()]),
    {
        Self::empty(Namespace::global())
    }

    /// Registers a module named `name` inside this one. Fails, and changes nothing, where a
    /// module of that name is there already.
    pub fn register_sub_module(&mut self, name: Identifier) -> (r: CompilerResult<()>)
        ensures
            final(self)@.unambiguous(),
            match r {
                Ok(()) => registered(old(self)@, name@) == Ok::<
                    ModuleRegistryView,
                    CompilerErrorView,
                >(final(self)@),
                Err(e) => registered(old(self)@, name@) == Err::<
                    ModuleRegistryView,
                    CompilerErrorView,
                >(e@) && final(self)@ == old(self)@,
            },
    {
        proof {
            use_type_invariant(&*self);
        }
        let ghost before = self@;
        let mut i: usize = 0;
        while i < self.sub_modules.len()
            invariant
                i <= self.sub_modules@.len(),
                *self == *old(self),
                before == self@,
                before.unambiguous(),
                forall|k: int| 0 <= k < i ==> (#[trigger] before.sub_modules[k]).0 != name@,
            decreases self.sub_modules@.len() - i,
        {
            if self.sub_modules[i].0.0 == name.0 {
                assert(before.sub_modules[i as int].0 == name@);
                return Err(CompilerError::DuplicateNamespace(self.path.module(name)));
            }
            i += 1;
        }
        assert(!before.has_module(name@));
        let registry = Self::empty(self.path.module(name.clone()));
        let mut modules: Vec<(Identifier, ModuleRegistry)> = Vec::new();
        std::mem::swap(&mut modules, &mut self.sub_modules);
        let ghost held = modules@;
        modules.push((name, registry));
        proof {
            let expected = registered(before, name@)->Ok_0;
            let next = ModuleRegistry {
                path: self.path,
                sub_modules: modules,
                data_types: self.data_types,
                functions: self.functions,
            };
            assert(next@.sub_modules.len() == expected.sub_modules.len());
            assert forall|k: int| 0 <= k < next@.sub_modules.len() implies next@.sub_modules[k]
                == expected.sub_modules[k] by {
                if k < held.len() {
                    assert(modules@[k] == held[k]);
                    assert(before.sub_modules[k] == (held[k].0@, held[k].1@));
                }
            }
            assert(next@.sub_modules =~= expected.sub_modules);
            assert(next@.data_types =~= expected.data_types);
            assert(next@.functions =~= expected.functions);
            assert(next@ == expected);
            assert(expected.unambiguous()) by {
                assert forall|a: int, b: int|
                    0 <= a < b < expected.sub_modules.len() implies (
                #[trigger] expected.sub_modules[a]).0 != (#[trigger] expected.sub_modules[b]).0 by {
                    if b < before.sub_modules.len() {
                        assert(expected.sub_modules[a] == before.sub_modules[a]);
                        assert(expected.sub_modules[b] == before.sub_modules[b]);
                    } else {
                        assert(expected.sub_modules[a] == before.sub_modules[a]);
                    }
                }
            }
        }
        self.sub_modules = modules;
        Ok(())
    }

    /// Registers the type of the function `name`. Functions are not kept yet: nothing changes.
    pub fn register_function_type(&mut self, name: GlobalIdentifier)
        ensures
            final(self)@ == old(self)@,
    {
    }

    /// The function named `name` that takes arguments of the types `arguments`. Functions are
    /// not kept yet: none is found.
    pub fn get_function_by_identifier(&self, name: Identifier, arguments: Vec<DataType>) -> (r:
        CompilerResult<Option<&FunctionPrototype>>)
        ensures
            r matches Ok(None),
    {
        Ok(None)
    }

    /// Looks for the function `search`. Functions are not kept yet: this does nothing.
    pub fn search_for(&self, search: FunctionPrototype) {
    }

    /// The qualified name of `name` in this module.
    pub fn create_identifier(&self, name: Identifier) -> (r: GlobalIdentifier)
        ensures
            r@.namespace == self@.path,
            r@.name == name@,
    {
        GlobalIdentifier(self.path.clone(), name)
    }
}

impl PartialEqSpecImpl for ModuleRegistry {
    open spec fn obeys_eq_spec() -> bool {
        true
    }

    open spec fn eq_spec(&self, other: &ModuleRegistry) -> bool {
        self@.path == other@.path
    }
}

/// Two registries are equal when they are those of the same module path.
impl PartialEq for ModuleRegistry {
    fn eq(&self, other: &ModuleRegistry) -> (r: bool) {
        other.path.same_as(&self.path)
    }
}

} // verus!
