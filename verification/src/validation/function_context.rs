use std::collections::HashMap;
use std::rc::Rc;
use vstd::prelude::*;
use crate::file::identifier::Identifier;
use crate::validation::error::CompilerResult;
use crate::validation::registry::variable::{VariableInfo, VariableInfoView};
use crate::validation::registry::{ModuleRegistry, ModuleRegistryView};

verus! {

broadcast use vstd::std_specs::hash::group_hash_axioms;

pub type LocalVariableTable = HashMap<u128, VariableInfo>;

/// The local variables of one function while its body is walked: a table of all variables
/// declared so far, each under an identifier of its own, and the stack of the scopes that are
/// open, each with the names declared in it and the identifiers that they stand for.
#[derive(Debug)]
pub struct FunctionContext {
    pub global_registry: Rc<ModuleRegistry>,
    local_map: LocalVariableTable,
    scopes: Vec<Vec<(Identifier, u128)>>,
}

/// The mathematical value of a `FunctionContext`: the registry of the compilation, the open
/// scopes, outermost first, each with its declarations in order, and the table of variables.
pub struct FunctionContextView {
    pub registry: ModuleRegistryView,
    pub scopes: Seq<Seq<(Seq<char>, u128)>>,
    pub locals: Map<u128, VariableInfoView>,
}

/// The identifier that `name` stands for in `scope`: that of its latest declaration there.
pub open spec fn find_in_scope(scope: Seq<(Seq<char>, u128)>, name: Seq<char>) -> Option<u128>
    decreases scope.len(),
{
    if scope.len() == 0 {
        None
    } else if scope.last().0 == name {
        Some(scope.last().1)
    } else {
        find_in_scope(scope.drop_last(), name)
    }
}

/// The identifier that `name` stands for in `scopes`: that of its latest declaration in the
/// innermost scope that declares it.
pub open spec fn find_local(scopes: Seq<Seq<(Seq<char>, u128)>>, name: Seq<char>) -> Option<u128>
    decreases scopes.len(),
{
    if scopes.len() == 0 {
        None
    } else {
        match find_in_scope(scopes.last(), name) {
            Some(id) => Some(id),
            None => find_local(scopes.drop_last(), name),
        }
    }
}

/// The view of one scope.
pub open spec fn scope_view(scope: Vec<(Identifier, u128)>) -> Seq<(Seq<char>, u128)> {
    Seq::new(scope@.len(), |k: int| (scope@[k].0@, scope@[k].1))
}

impl FunctionContextView {
    /// The state after the declaration of `local` under the identifier `id` in the innermost
    /// scope.
    pub open spec fn declared(self, local: VariableInfoView, id: u128) -> FunctionContextView {
        FunctionContextView {
            registry: self.registry,
            scopes: self.scopes.update(
                self.scopes.len() - 1,
                self.scopes.last().push((local.name, id)),
            ),
            locals: self.locals.insert(id, local),
        }
    }
}

/// `Uuid::new_v4`, as a number: a random identifier of 128 bits, of which the four bits of the
/// version say 4 and the two bits of the variant say RFC 9562. Nothing else is known of it: two
/// calls may give any two such numbers. The call fails where the system gives no random
/// bytes.
#[verifier::external_body]
fn fresh_id() -> (id: u128)
    ensures
        id & 0x0000_0000_0000_f000_c000_0000_0000_0000 == 0x0000_0000_0000_4000_8000_0000_0000_0000,
{
    uuid::Uuid::new_v4().as_u128()
}

impl View for FunctionContext {
    type V = FunctionContextView;

    closed spec fn view(&self) -> FunctionContextView {
        FunctionContextView {
            registry: self.global_registry@,
            scopes: Seq::new(self.scopes@.len(), |i: int| scope_view(self.scopes@[i])),
            locals: self.local_map@.map_values(|v: VariableInfo| v@),
        }
    }
}

impl FunctionContext {
    /// Every identifier that a scope holds is that of a variable in the table, under the
    /// name that the scope gives it.
    pub closed spec fn well_formed(&self) -> bool {
        forall|i: int, k: int|
            0 <= i < self.scopes@.len() && 0 <= k < self.scopes@[i]@.len()
                ==> self.local_map@.contains_key((#[trigger] self.scopes@[i]@[k]).1)
    }

    /// The registry of the compilation that the function belongs to.
    pub closed spec fn registry(&self) -> Rc<ModuleRegistry> {
        self.global_registry
    }

    /// A context with no scope open and no variable declared.
    pub fn new(registry: Rc<ModuleRegistry>) -> (r: Self)
        ensures
            r.well_formed(),
            r@.scopes == Seq::<Seq<(Seq<char>, u128)>>::empty(),
            r@.locals == Map::<u128, VariableInfoView>::empty(),
            r.registry() == registry,
            r@.registry == registry@,
    {
        let r = FunctionContext {
            global_registry: registry,
            local_map: HashMap::new(),
            scopes: Vec::new(),
        };
        assert(r@.scopes =~= Seq::<Seq<(Seq<char>, u128)>>::empty());
        assert(r@.locals =~= Map::<u128, VariableInfoView>::empty());
        r
    }

    /// Declares `local` in the innermost scope, under a fresh random identifier, which is
    /// returned. The identifier is whatever the generator gives: a variable that was declared
    /// under the same identifier before is replaced in the table.
    pub fn declare_variable(&mut self, local: VariableInfo) -> (r: CompilerResult<u128>)
        requires
            old(self).well_formed(),
            old(self)@.scopes.len() > 0,
        ensures
            final(self).well_formed(),
            final(self).registry() == old(self).registry(),
            r matches Ok(id) && final(self)@ == old(self)@.declared(local@, id),
    {
        let id = fresh_id();
        self.declare_as(local, id);
        Ok(id)
    }

    /// Declares `local` in the innermost scope under the identifier `id`.
    pub fn declare_as(&mut self, local: VariableInfo, id: u128)
        requires
            old(self).well_formed(),
            old(self)@.scopes.len() > 0,
        ensures
            final(self).well_formed(),
            final(self).registry() == old(self).registry(),
            final(self)@ == old(self)@.declared(local@, id),
    {
        let ghost before = self@;
        let ghost scopes = self.scopes@;
        let ghost table = self.local_map@;
        let mut scope = self.scopes.pop().unwrap();
        let ghost innermost = scope@;
        scope.push((local.name.clone(), id));
        self.scopes.push(scope);
        let ghost info = local@;
        self.local_map.insert(id, local);
        proof {
            assert forall|i: int, k: int|
                0 <= i < self.scopes@.len() && 0 <= k < self.scopes@[i]@.len()
                    implies self.local_map@.contains_key((#[trigger] self.scopes@[i]@[k]).1) by {
                if i < scopes.len() - 1 {
                    assert(self.scopes@[i] == scopes[i]);
                    assert(table.contains_key(scopes[i]@[k].1));
                } else if k < innermost.len() {
                    assert(self.scopes@[i]@[k] == scopes[scopes.len() - 1]@[k]);
                    assert(table.contains_key(scopes[scopes.len() - 1]@[k].1));
                }
            }
            let expected = before.declared(info, id);
            assert(self@.scopes.len() == expected.scopes.len());
            assert forall|i: int| 0 <= i < self@.scopes.len() implies self@.scopes[i]
                == expected.scopes[i] by {
                if i < scopes.len() - 1 {
                    assert(self.scopes@[i] == scopes[i]);
                } else {
                    assert(scope_view(self.scopes@[i]) =~= scope_view(scopes[i]).push(
                        (info.name, id),
                    ));
                }
            }
            assert(self@.scopes =~= expected.scopes);
            assert(self@.locals =~= expected.locals);
        }
    }

    /// The variable that `name` stands for: the latest declaration of the name in the
    /// innermost open scope that declares it, with its identifier.
    pub fn get_local(&self, name: &Identifier) -> (r: Option<(u128, &VariableInfo)>)
        requires
            self.well_formed(),
        ensures
            match r {
                Some((id, info)) => find_local(self@.scopes, name@) == Some(id)
                    && self@.locals.contains_key(id) && self@.locals[id] == info@,
                None => find_local(self@.scopes, name@) is None,
            },
    {
        let ghost all = self@.scopes;
        let mut i: usize = self.scopes.len();
        assert(all.take(i as int) =~= all);
        while i > 0
            invariant
                i <= self.scopes@.len(),
                all == self@.scopes,
                self.well_formed(),
                find_local(all, name@) == find_local(all.take(i as int), name@),
            decreases i,
        {
            i -= 1;
            let scope = &self.scopes[i];
            let ghost names = scope_view(*scope);
            assert(all.take(i + 1).last() == names);
            assert(all.take(i + 1).drop_last() =~= all.take(i as int));
            let mut k: usize = scope.len();
            assert(names.take(k as int) =~= names);
            while k > 0
                invariant
                    k <= scope@.len(),
                    i < self.scopes@.len(),
                    *scope == self.scopes@[i as int],
                    names == scope_view(*scope),
                    self.well_formed(),
                    all == self@.scopes,
                    all.take(i + 1).last() == names,
                    all.take(i + 1).drop_last() == all.take(i as int),
                    find_local(all, name@) == find_local(all.take(i + 1), name@),
                    find_in_scope(names, name@) == find_in_scope(names.take(k as int), name@),
                decreases k,
            {
                k -= 1;
                assert(names.take(k + 1).last() == names[k as int]);
                assert(names.take(k + 1).drop_last() =~= names.take(k as int));
                if scope[k].0.0 == name.0 {
                    let id = scope[k].1;
                    assert(self.local_map@.contains_key(self.scopes@[i as int]@[k as int].1));
                    match self.local_map.get(&id) {
                        Some(info) => {
                            return Some((id, info));
                        },
                        None => {
                            return None;
                        },
                    }
                }
            }
        }
        None
    }

    /// Opens a scope inside the innermost one.
    pub fn push_scope(&mut self)
        requires
            old(self).well_formed(),
        ensures
            final(self).well_formed(),
            final(self).registry() == old(self).registry(),
            final(self)@.registry == old(self)@.registry,
            final(self)@.scopes == old(self)@.scopes.push(Seq::empty()),
            final(self)@.locals == old(self)@.locals,
    {
        let ghost scopes = self.scopes@;
        self.scopes.push(Vec::new());
        proof {
            assert forall|i: int, k: int|
                0 <= i < self.scopes@.len() && 0 <= k < self.scopes@[i]@.len()
                    implies self.local_map@.contains_key((#[trigger] self.scopes@[i]@[k]).1) by {
                assert(self.scopes@[i] == scopes[i]);
            }
            assert(scope_view(self.scopes@[scopes.len() as int]) =~= Seq::<
                (Seq<char>, u128),
            >::empty());
            assert(self@.scopes =~= old(self)@.scopes.push(Seq::empty()));
        }
    }

    /// Closes the innermost scope. Its variables stay in the table.
    pub fn pop_scope(&mut self)
        requires
            old(self).well_formed(),
            old(self)@.scopes.len() > 0,
        ensures
            final(self).well_formed(),
            final(self).registry() == old(self).registry(),
            final(self)@.registry == old(self)@.registry,
            final(self)@.scopes == old(self)@.scopes.drop_last(),
            final(self)@.locals == old(self)@.locals,
    {
        let ghost scopes = self.scopes@;
        self.scopes.pop();
        proof {
            assert forall|i: int, k: int|
                0 <= i < self.scopes@.len() && 0 <= k < self.scopes@[i]@.len()
                    implies self.local_map@.contains_key((#[trigger] self.scopes@[i]@[k]).1) by {
                assert(self.scopes@[i] == scopes[i]);
            }
            assert(self@.scopes =~= old(self)@.scopes.drop_last());
        }
    }

    /// The table of all variables declared so far, by identifier.
    pub fn get_locals_table(&self) -> (r: &LocalVariableTable)
        ensures
            r@.map_values(|v: VariableInfo| v@) == self@.locals,
    {
        &self.local_map
    }
}

} // verus!
