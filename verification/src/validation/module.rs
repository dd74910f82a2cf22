use std::rc::Rc;
use vstd::prelude::*;
use crate::file::source_file::SourceFile;
use crate::parser::ast::top_level::UnvalidatedTopLevel;
use crate::validation::error::{CompilerErrorView, CompilerResult};
use crate::validation::registry::{empty_registry, registered, ModuleRegistry, ModuleRegistryView};

verus! {

/// A compilation: the registry of the root module, into which the files are registered.
#[derive(Debug)]
pub struct Module {
    global_registry: ModuleRegistry,
}

/// What registering the modules named `names`, in order, makes of `registry`. The first name
/// that is there already fails the whole, with the names before it registered.
pub open spec fn registered_all(registry: ModuleRegistryView, names: Seq<Seq<char>>) -> (
    ModuleRegistryView,
    Option<CompilerErrorView>,
)
    decreases names.len(),
{
    if names.len() == 0 {
        (registry, None)
    } else {
        match registered(registry, names[0]) {
            Ok(next) => registered_all(next, names.drop_first()),
            Err(e) => (registry, Some(e)),
        }
    }
}

/// The names of the modules that `modules` define, in order.
pub open spec fn module_names(modules: Seq<(Rc<SourceFile>, Vec<UnvalidatedTopLevel>)>) -> Seq<
    Seq<char>,
> {
    Seq::new(modules.len(), |i: int| modules[i].0@.module_name)
}

impl View for Module {
    type V = ModuleRegistryView;

    closed spec fn view(&self) -> ModuleRegistryView {
        self.global_registry@
    }
}

impl Module {
    /// A compilation with nothing registered: the registry of the root module `main`.
    pub fn new() -> (r: Self)
        ensures
            r@ == empty_registry(seq![crate::file::identifier::main_name()]),
    {
        Module { global_registry: ModuleRegistry::create_global() }
    }

    /// Registers the module of each of `modules` in the root module, in order. The first file
    /// whose module name is registered already fails the whole, with the files before it
    /// registered.
    pub fn process_modules(&mut self, modules: &[(Rc<SourceFile>, Vec<UnvalidatedTopLevel>)]) -> (r:
        CompilerResult<()>)
        ensures
            final(self)@ == registered_all(old(self)@, module_names(modules@)).0,
            match r {
                Ok(()) => registered_all(old(self)@, module_names(modules@)).1 is None,
                Err(e) => registered_all(old(self)@, module_names(modules@)).1 == Some(e@),
            },
    {
        let ghost names = module_names(modules@);
        let mut i: usize = 0;
        assert(names.skip(0) =~= names);
        while i < modules.len()
            invariant
                i <= modules@.len(),
                names == module_names(modules@),
                registered_all(old(self)@, names) == registered_all(self@, names.skip(i as int)),
            decreases modules@.len() - i,
        {
            let ghost rest = names.skip(i as int);
            assert(rest[0] == modules@[i as int].0@.module_name);
            assert(rest.drop_first() =~= names.skip(i + 1));
            let name = modules[i].0.module_name.clone();
            match self.global_registry.register_sub_module(name) {
                Ok(()) => {},
                Err(e) => {
                    return Err(e);
                },
            }
            i += 1;
        }
        Ok(())
    }
}

} // verus!
