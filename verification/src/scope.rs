//! Scopes: the chain of frames in which names are bound.
//!
//! All the scopes of a run stand in one list, and a scope is known by its
//! index in it. A scope's parent is a scope made earlier, so the chain from
//! any scope to its root is finite. Functions, modules and blocks that hold
//! the same index share the scope: what one binds, the others see.

use crate::value::{entries_model, ValueModel, ValueType};
use vstd::prelude::*;

verus! {

/// A scope: a name, used in diagnostics only, the bindings, and the index of
/// the parent scope, if there is one.
#[derive(Debug)]
pub struct Scope {
    pub parent: Option<usize>,
    /// The bindings. Where a name stands twice, the first entry counts.
    pub variables: Vec<(String, ValueType)>,
    pub name: String,
}

/// A scope as a mathematical value.
pub struct ScopeModel {
    pub name: Seq<char>,
    pub parent: Option<usize>,
    pub variables: Map<Seq<char>, ValueModel>,
}

/// The map that a list of bindings stands for: each name is bound to the
/// value of its first entry in the list.
pub open spec fn bindings(entries: Seq<(Seq<char>, ValueModel)>) -> Map<Seq<char>, ValueModel>
    decreases entries.len(),
{
    if entries.len() == 0 {
        Map::empty()
    } else {
        bindings(entries.drop_first()).insert(entries[0].0, entries[0].1)
    }
}

/// The map after the bindings of a list have been written into it one
/// after the other: a later entry overwrites an earlier one.
pub open spec fn written(
    variables: Map<Seq<char>, ValueModel>,
    entries: Seq<(Seq<char>, ValueModel)>,
) -> Map<Seq<char>, ValueModel>
    decreases entries.len(),
{
    if entries.len() == 0 {
        variables
    } else {
        written(variables.insert(entries[0].0, entries[0].1), entries.drop_first())
    }
}

impl View for Scope {
    type V = ScopeModel;

    open spec fn view(&self) -> ScopeModel {
        ScopeModel {
            name: self.name@,
            parent: self.parent,
            variables: bindings(entries_model(self.variables@)),
        }
    }
}

impl ScopeModel {
    /// The scope with one name bound anew.
    pub open spec fn bind(self, name: Seq<char>, value: ValueModel) -> ScopeModel {
        ScopeModel { variables: self.variables.insert(name, value), ..self }
    }

    /// An empty scope.
    pub open spec fn empty(name: Seq<char>, parent: Option<usize>) -> ScopeModel {
        ScopeModel { name, parent, variables: Map::empty() }
    }
}

/// The scopes of a list as mathematical values.
pub open spec fn scopes_model(scopes: Seq<Scope>) -> Seq<ScopeModel> {
    Seq::new(scopes.len(), |i: int| scopes[i]@)
}

/// The parent of a scope: the scope that its parent index names, where that
/// is a scope made earlier.
pub open spec fn parent_of(scopes: Seq<ScopeModel>, scope: int) -> Option<int> {
    if 0 <= scope < scopes.len() {
        match scopes[scope].parent {
            Some(parent) => if parent < scope {
                Some(parent as int)
            } else {
                None
            },
            None => None,
        }
    } else {
        None
    }
}

/// The scope in which the chain of a scope ends.
pub open spec fn root_of(scopes: Seq<ScopeModel>, scope: int) -> int
    decreases scope,
{
    match parent_of(scopes, scope) {
        Some(parent) => root_of(scopes, parent),
        None => scope,
    }
}

/// What a name is bound to, seen from a scope: its binding in the scope
/// itself, or else what it is bound to seen from the parent; nothing where
/// no scope of the chain binds it.
pub open spec fn lookup(scopes: Seq<ScopeModel>, scope: int, name: Seq<char>) -> Option<ValueModel>
    decreases scope,
{
    if !(0 <= scope < scopes.len()) {
        None
    } else if scopes[scope].variables.contains_key(name) {
        Some(scopes[scope].variables[name])
    } else {
        match parent_of(scopes, scope) {
            Some(parent) => lookup(scopes, parent, name),
            None => None,
        }
    }
}

/// The scope in which an assignment from `scope` writes `name`: the scope
/// itself where it binds the name; else its parent where the parent binds
/// the name; else the scope itself. No scope further up is ever written.
pub open spec fn target(scopes: Seq<ScopeModel>, scope: int, name: Seq<char>) -> int {
    if 0 <= scope < scopes.len() && !scopes[scope].variables.contains_key(name) {
        match parent_of(scopes, scope) {
            Some(parent) => if scopes[parent].variables.contains_key(name) {
                parent
            } else {
                scope
            },
            None => scope,
        }
    } else {
        scope
    }
}

/// The scopes after an assignment from `scope` of `value` to `name`.
pub open spec fn assign(
    scopes: Seq<ScopeModel>,
    scope: int,
    name: Seq<char>,
    value: ValueModel,
) -> Seq<ScopeModel> {
    if 0 <= scope < scopes.len() {
        let at = target(scopes, scope, name);
        scopes.update(at, scopes[at].bind(name, value))
    } else {
        scopes
    }
}

/// The scopes after a name was bound in the scope with the given index
/// itself, over what that scope bound it to. No other scope is written,
/// whatever it binds.
pub open spec fn bind_at(
    scopes: Seq<ScopeModel>,
    scope: int,
    name: Seq<char>,
    value: ValueModel,
) -> Seq<ScopeModel> {
    if 0 <= scope < scopes.len() {
        scopes.update(scope, scopes[scope].bind(name, value))
    } else {
        scopes
    }
}

/// The scopes after an assignment from `scope` of one value to each of
/// the names from position `from` on, in their order.
pub open spec fn assign_all(
    scopes: Seq<ScopeModel>,
    scope: int,
    names: Seq<Seq<char>>,
    from: int,
    value: ValueModel,
) -> Seq<ScopeModel>
    decreases names.len() - from,
{
    if 0 <= from < names.len() {
        assign_all(assign(scopes, scope, names[from], value), scope, names, from + 1, value)
    } else {
        scopes
    }
}

/// Every parent index names a scope made earlier.
pub open spec fn well_formed(scopes: Seq<ScopeModel>) -> bool {
    forall|i: int|
        0 <= i < scopes.len() ==> match (#[trigger] scopes[i]).parent {
            Some(parent) => parent < i,
            None => true,
        }
}

/// A name's first entry decides what it is bound to.
pub proof fn lemma_bindings_first(entries: Seq<(Seq<char>, ValueModel)>, name: Seq<char>, at: int)
    requires
        0 <= at < entries.len(),
        entries[at].0 == name,
        forall|j: int| 0 <= j < at ==> entries[j].0 != name,
    ensures
        bindings(entries).contains_key(name),
        bindings(entries)[name] == entries[at].1,
    decreases entries.len(),
{
    if at > 0 {
        let rest = entries.drop_first();
        assert forall|j: int| 0 <= j < at - 1 implies rest[j].0 != name by {
            assert(rest[j] == entries[j + 1]);
        }
        lemma_bindings_first(rest, name, at - 1);
    }
}

/// A name without an entry is not bound.
pub proof fn lemma_bindings_absent(entries: Seq<(Seq<char>, ValueModel)>, name: Seq<char>)
    requires
        forall|j: int| 0 <= j < entries.len() ==> entries[j].0 != name,
    ensures
        !bindings(entries).contains_key(name),
    decreases entries.len(),
{
    if entries.len() > 0 {
        let rest = entries.drop_first();
        assert forall|j: int| 0 <= j < rest.len() implies rest[j].0 != name by {
            assert(rest[j] == entries[j + 1]);
        }
        lemma_bindings_absent(rest, name);
    }
}

/// To replace a name's first entry is to bind the name anew.
pub proof fn lemma_bindings_update(
    entries: Seq<(Seq<char>, ValueModel)>,
    name: Seq<char>,
    at: int,
    value: ValueModel,
)
    requires
        0 <= at < entries.len(),
        entries[at].0 == name,
        forall|j: int| 0 <= j < at ==> entries[j].0 != name,
    ensures
        bindings(entries.update(at, (name, value))) == bindings(entries).insert(name, value),
    decreases entries.len(),
{
    let after = entries.update(at, (name, value));
    let rest = entries.drop_first();
    if at == 0 {
        assert(after.drop_first() =~= rest);
        assert(bindings(after) =~= bindings(entries).insert(name, value));
    } else {
        assert forall|j: int| 0 <= j < at - 1 implies rest[j].0 != name by {
            assert(rest[j] == entries[j + 1]);
        }
        lemma_bindings_update(rest, name, at - 1, value);
        assert(after.drop_first() =~= rest.update(at - 1, (name, value)));
        assert(bindings(after) =~= bindings(entries).insert(name, value));
    }
}

/// To add an entry for a name without one is to bind the name.
pub proof fn lemma_bindings_push(
    entries: Seq<(Seq<char>, ValueModel)>,
    name: Seq<char>,
    value: ValueModel,
)
    requires
        forall|j: int| 0 <= j < entries.len() ==> entries[j].0 != name,
    ensures
        bindings(entries.push((name, value))) == bindings(entries).insert(name, value),
    decreases entries.len(),
{
    let after = entries.push((name, value));
    if entries.len() == 0 {
        assert(after.drop_first() =~= entries);
        assert(bindings(after) =~= bindings(entries).insert(name, value));
    } else {
        let rest = entries.drop_first();
        assert forall|j: int| 0 <= j < rest.len() implies rest[j].0 != name by {
            assert(rest[j] == entries[j + 1]);
        }
        lemma_bindings_push(rest, name, value);
        assert(after.drop_first() =~= rest.push((name, value)));
        assert(bindings(after) =~= bindings(entries).insert(name, value));
    }
}

impl Scope {
    /// An empty scope without a parent.
    pub fn new(name: &str) -> (r: Self)
        ensures
            r@ == ScopeModel::empty(name@, None),
    {
        let scope = Self { parent: None, name: name.to_owned(), variables: Vec::new() };
        assert(entries_model(scope.variables@) =~= Seq::empty());
        scope
    }

    /// An empty scope whose parent is the scope with the given index.
    pub fn with_parent(name: &str, parent: usize) -> (r: Self)
        ensures
            r@ == ScopeModel::empty(name@, Some(parent)),
    {
        let scope = Self { parent: Some(parent), name: name.to_owned(), variables: Vec::new() };
        assert(entries_model(scope.variables@) =~= Seq::empty());
        scope
    }

    /// The position of the first entry for a name.
    fn find(&self, name: &String) -> (r: Option<usize>)
        ensures
            match r {
                Some(at) => at < self.variables@.len() && self.variables@[at as int].0@ == name@
                    && forall|j: int| 0 <= j < at ==> self.variables@[j].0@ != name@,
                None => forall|j: int|
                    0 <= j < self.variables@.len() ==> self.variables@[j].0@ != name@,
            },
            r is Some == self@.variables.contains_key(name@),
            r matches Some(at) ==> self@.variables[name@] == self.variables@[at as int].1@,
    {
        let mut i: usize = 0;
        while i < self.variables.len()
            invariant
                i <= self.variables@.len(),
                forall|j: int| 0 <= j < i ==> self.variables@[j].0@ != name@,
            decreases self.variables@.len() - i,
        {
            if self.variables[i].0 == *name {
                proof {
                    lemma_bindings_first(entries_model(self.variables@), name@, i as int);
                }
                return Some(i);
            }
            i += 1;
        }
        proof {
            lemma_bindings_absent(entries_model(self.variables@), name@);
        }
        None
    }

    /// Whether the scope itself binds the name.
    pub fn binds(&self, name: &String) -> (r: bool)
        ensures
            r == self@.variables.contains_key(name@),
    {
        self.find(name).is_some()
    }

    /// A copy of what the scope itself binds the name to.
    pub fn local(&self, name: &String) -> (r: Option<ValueType>)
        ensures
            match r {
                Some(value) => self@.variables.contains_key(name@) && value@
                    == self@.variables[name@],
                None => !self@.variables.contains_key(name@),
            },
    {
        match self.find(name) {
            Some(at) => Some(self.variables[at].1.duplicate()),
            None => None,
        }
    }

    /// Binds the name in the scope itself, over what it was bound to.
    pub fn bind(&mut self, name: String, value: ValueType)
        ensures
            final(self)@ == old(self)@.bind(name@, value@),
    {
        let ghost before = entries_model(self.variables@);
        let ghost text = name@;
        let ghost model = value@;
        match self.find(&name) {
            Some(at) => {
                self.variables.set(at, (name, value));
                proof {
                    assert(entries_model(self.variables@) =~= before.update(
                        at as int,
                        (text, model),
                    ));
                    lemma_bindings_update(before, text, at as int, model);
                }
            },
            None => {
                self.variables.push((name, value));
                proof {
                    assert(entries_model(self.variables@) =~= before.push((text, model)));
                    lemma_bindings_push(before, text, model);
                }
            },
        }
    }

    /// Writes the given bindings into the scope itself, one after the other.
    pub fn extend(&mut self, variables: Vec<(String, ValueType)>)
        ensures
            final(self)@ == (ScopeModel {
                variables: written(old(self)@.variables, entries_model(variables@)),
                ..old(self)@
            }),
    {
        let ghost all = entries_model(variables@);
        let ghost start = self@;
        let mut i: usize = 0;
        assert(all.subrange(0, all.len() as int) =~= all);
        while i < variables.len()
            invariant
                i <= variables@.len(),
                all == entries_model(variables@),
                self@.name == start.name,
                self@.parent == start.parent,
                written(start.variables, all) == written(
                    self@.variables,
                    all.subrange(i as int, all.len() as int),
                ),
            decreases variables@.len() - i,
        {
            let ghost tail = all.subrange(i as int, all.len() as int);
            proof {
                assert(tail[0] == all[i as int]);
                assert(tail.drop_first() =~= all.subrange(i + 1, all.len() as int));
            }
            self.bind(variables[i].0.clone(), variables[i].1.duplicate());
            i += 1;
        }
        proof {
            assert(all.subrange(i as int, all.len() as int) =~= Seq::empty());
        }
    }

    /// A copy of what a name is bound to, seen from the scope with the given
    /// index: the binding of the nearest scope of the chain that binds it.
    pub fn get(scopes: &Vec<Scope>, scope: usize, name: &str) -> (r: Option<ValueType>)
        ensures
            match r {
                Some(value) => lookup(scopes_model(scopes@), scope as int, name@) == Some(value@),
                None => lookup(scopes_model(scopes@), scope as int, name@) is None,
            },
    {
        let key = name.to_owned();
        let mut at = scope;
        loop
            invariant
                key@ == name@,
                lookup(scopes_model(scopes@), scope as int, name@) == lookup(
                    scopes_model(scopes@),
                    at as int,
                    name@,
                ),
            decreases at,
        {
            if at >= scopes.len() {
                return None;
            }
            match scopes[at].local(&key) {
                Some(value) => {
                    return Some(value);
                },
                None => {},
            }
            match scopes[at].parent {
                Some(parent) => {
                    if parent < at {
                        at = parent;
                    } else {
                        return None;
                    }
                },
                None => {
                    return None;
                },
            }
        }
    }

    /// The index of the scope in which the chain of the scope with the
    /// given index ends.
    pub fn root(scopes: &Vec<Scope>, scope: usize) -> (r: usize)
        ensures
            r == root_of(scopes_model(scopes@), scope as int),
    {
        let mut at = scope;
        loop
            invariant
                root_of(scopes_model(scopes@), scope as int) == root_of(
                    scopes_model(scopes@),
                    at as int,
                ),
            decreases at,
        {
            if at >= scopes.len() {
                return at;
            }
            match scopes[at].parent {
                Some(parent) => {
                    if parent < at {
                        at = parent;
                    } else {
                        return at;
                    }
                },
                None => {
                    return at;
                },
            }
        }
    }

    /// The index of the scope in which an assignment from `scope` writes
    /// the name.
    pub fn target(scopes: &Vec<Scope>, scope: usize, name: &String) -> (r: usize)
        ensures
            r == target(scopes_model(scopes@), scope as int, name@),
            scope < scopes@.len() ==> r < scopes@.len(),
    {
        if scope >= scopes.len() {
            return scope;
        }
        if scopes[scope].binds(name) {
            return scope;
        }
        match scopes[scope].parent {
            Some(parent) => {
                if parent < scope && scopes[parent].binds(name) {
                    parent
                } else {
                    scope
                }
            },
            None => scope,
        }
    }

    /// Assigns to a name from the scope with the given index. The value is
    /// written over the name's binding in the scope itself; else over its
    /// binding in the parent; else it is bound anew in the scope itself.
    pub fn set(scopes: &mut Vec<Scope>, scope: usize, name: &str, value: ValueType)
        ensures
            scopes_model(final(scopes)@) == assign(
                scopes_model(old(scopes)@),
                scope as int,
                name@,
                value@,
            ),
    {
        if scope >= scopes.len() {
            return ;
        }
        let name = name.to_owned();
        let at = Scope::target(scopes, scope, &name);
        scopes[at].bind(name, value);
        assert(scopes_model(scopes@) =~= assign(
            scopes_model(old(scopes)@),
            scope as int,
            name@,
            value@,
        ));
    }
}

} // verus!
