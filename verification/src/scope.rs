//! Lexical scopes of a Lua program and the variables they define.
use vstd::prelude::*;

use crate::types::TypeId;

verus! {

/// Position in a source file.
#[derive(Debug, Clone, Copy, PartialEq, Eq, Structural)]
pub struct Position {
    pub bytes: usize,
    pub line: usize,
    pub character: usize,
}

/// Variable define a Lua variable.
#[derive(Debug)]
pub struct Variable {
    pub definition: core::ops::Range<Position>,
    pub identifier: String,
    pub type_id: TypeId,
}

/// Model of a variable: where it is defined, its name and its type.
pub struct VarModel {
    pub start: Position,
    pub end: Position,
    pub identifier: Seq<char>,
    pub type_id: TypeId,
}

impl View for Variable {
    type V = VarModel;

    open spec fn view(&self) -> VarModel {
        VarModel {
            start: self.definition.start,
            end: self.definition.end,
            identifier: self.identifier@,
            type_id: self.type_id,
        }
    }
}

/// Models of a sequence of variables.
pub open spec fn var_models(vars: Seq<Variable>) -> Seq<VarModel> {
    vars.map_values(|v: Variable| v@)
}

/// No two variables of `vars` have the same name.
pub open spec fn distinct_names(vars: Seq<VarModel>) -> bool {
    forall|i: int, j: int|
        0 <= i < vars.len() && 0 <= j < vars.len() && i != j ==> vars[i].identifier
            != vars[j].identifier
}

/// Position in `vars` of the variable named `ident`, or -1.
pub open spec fn index_of(vars: Seq<VarModel>, ident: Seq<char>) -> int
    decreases vars.len(),
{
    if vars.len() == 0 {
        -1
    } else if vars.last().identifier == ident {
        vars.len() - 1
    } else {
        index_of(vars.drop_last(), ident)
    }
}

/// Variable named `ident` in `vars`, if any.
pub open spec fn find_var(vars: Seq<VarModel>, ident: Seq<char>) -> Option<VarModel> {
    let i = index_of(vars, ident);
    if i >= 0 {
        Some(vars[i])
    } else {
        None
    }
}

/// `vars` with `var` set: it replaces the variable of the same name, or is
/// added after the others.
pub open spec fn set_var(vars: Seq<VarModel>, var: VarModel) -> Seq<VarModel> {
    let i = index_of(vars, var.identifier);
    if i >= 0 {
        vars.update(i, var)
    } else {
        vars.push(var)
    }
}

/// Variable named `ident` in the innermost scope of `scopes` that defines
/// one.
pub open spec fn lookup(scopes: Seq<Seq<VarModel>>, ident: Seq<char>) -> Option<VarModel>
    decreases scopes.len(),
{
    if scopes.len() == 0 {
        None
    } else {
        match find_var(scopes.last(), ident) {
            Some(v) => Some(v),
            None => lookup(scopes.drop_last(), ident),
        }
    }
}

/// The position [index_of] finds holds a variable of that name, and no
/// other does.
pub proof fn lemma_index_of(vars: Seq<VarModel>, ident: Seq<char>)
    ensures
        -1 <= index_of(vars, ident) < vars.len(),
        index_of(vars, ident) >= 0 ==> vars[index_of(vars, ident)].identifier == ident,
        index_of(vars, ident) < 0 ==> forall|j: int|
            0 <= j < vars.len() ==> vars[j].identifier != ident,
    decreases vars.len(),
{
    if vars.len() > 0 {
        lemma_index_of(vars.drop_last(), ident);
        if vars.last().identifier != ident {
            assert forall|j: int| 0 <= j < vars.len() - 1 implies vars[j] == vars.drop_last()[j] by {}
        }
    }
}

/// In variables with distinct names, [index_of] is the one position of the
/// name.
pub proof fn lemma_index_of_unique(vars: Seq<VarModel>, ident: Seq<char>, j: int)
    requires
        distinct_names(vars),
        0 <= j < vars.len(),
        vars[j].identifier == ident,
    ensures
        index_of(vars, ident) == j,
{
    lemma_index_of(vars, ident);
    let i = index_of(vars, ident);
    if i != j {
        assert(vars[i].identifier == vars[j].identifier);
    }
}

/// Setting a variable keeps names distinct.
pub proof fn lemma_set_var_distinct(vars: Seq<VarModel>, var: VarModel)
    requires
        distinct_names(vars),
    ensures
        distinct_names(set_var(vars, var)),
{
    lemma_index_of(vars, var.identifier);
    let r = set_var(vars, var);
    assert forall|i: int, j: int|
        0 <= i < r.len() && 0 <= j < r.len() && i != j implies r[i].identifier
        != r[j].identifier by {
        let k = index_of(vars, var.identifier);
        if k < 0 {
            if i == vars.len() as int {
                assert(r[j] == vars[j]);
            } else if j == vars.len() as int {
                assert(r[i] == vars[i]);
            } else {
                assert(r[i] == vars[i] && r[j] == vars[j]);
            }
        } else {
            if i == k {
                assert(r[j] == vars[j]);
            } else if j == k {
                assert(r[i] == vars[i]);
            } else {
                assert(r[i] == vars[i] && r[j] == vars[j]);
            }
        }
    }
}

/// A variable that was set is found under its name.
pub proof fn law_set_then_find(vars: Seq<VarModel>, var: VarModel)
    requires
        distinct_names(vars),
    ensures
        find_var(set_var(vars, var), var.identifier) == Some(var),
{
    lemma_set_var_distinct(vars, var);
    lemma_index_of(vars, var.identifier);
    let r = set_var(vars, var);
    let k = index_of(vars, var.identifier);
    if k >= 0 {
        lemma_index_of_unique(r, var.identifier, k);
    } else {
        lemma_index_of_unique(r, var.identifier, vars.len() as int);
    }
}

/// Setting a variable leaves the variables of other names as they were.
pub proof fn law_set_keeps_others(vars: Seq<VarModel>, var: VarModel, ident: Seq<char>)
    requires
        distinct_names(vars),
        ident != var.identifier,
    ensures
        find_var(set_var(vars, var), ident) == find_var(vars, ident),
{
    lemma_set_var_distinct(vars, var);
    lemma_index_of(vars, var.identifier);
    lemma_index_of(vars, ident);
    let r = set_var(vars, var);
    lemma_index_of(r, ident);
    let k = index_of(vars, ident);
    if k >= 0 {
        assert(r[k] == vars[k]);
        lemma_index_of_unique(r, ident, k);
    } else {
        let m = index_of(r, ident);
        if m >= 0 {
            if m < vars.len() {
                assert(r[m] == vars[m]);
            }
        }
    }
}

/// Scope define a Lua scope.
#[derive(Debug)]
pub struct Scope {
    variables: Vec<Variable>,
}

impl View for Scope {
    type V = Seq<VarModel>;

    closed spec fn view(&self) -> Seq<VarModel> {
        var_models(self.variables@)
    }
}

impl Default for Scope {
    fn default() -> (r: Scope)
        ensures
            r@ == Seq::<VarModel>::empty(),
    {
        Scope { variables: Vec::new() }
    }
}

impl Scope {
    /// No two variables of the scope have the same name.
    pub open spec fn wf(&self) -> bool {
        distinct_names(self@)
    }

    /// Position of the variable named `ident`, if any.
    fn position(&self, ident: &String) -> (r: Option<usize>)
        ensures
            match r {
                Some(i) => i == index_of(self@, ident@),
                None => index_of(self@, ident@) < 0,
            },
    {
        let mut i = self.variables.len();
        assert(self@.take(i as int) =~= self@);
        while i > 0
            invariant
                i <= self.variables.len(),
                self@.len() == self.variables.len(),
                index_of(self@, ident@) == index_of(self@.take(i as int), ident@),
            decreases i,
        {
            let ghost t = self@.take(i as int);
            assert(t.drop_last() =~= self@.take(i - 1));
            assert(t.last() == self@[i - 1]);
            if self.variables[i - 1].identifier.eq(ident) {
                return Some(i - 1);
            }
            i -= 1;
        }
        None
    }

    /// Returns the variable named `ident`, if any.
    pub fn get(&self, ident: &str) -> (r: Option<&Variable>)
        ensures
            match r {
                Some(v) => find_var(self@, ident@) == Some(v@),
                None => find_var(self@, ident@) is None,
            },
    {
        let key = ident.to_owned();
        proof {
            lemma_index_of(self@, ident@);
        }
        match self.position(&key) {
            Some(i) => Some(&self.variables[i]),
            None => None,
        }
    }

    /// Sets a variable: it replaces the variable of the same name, which is
    /// returned, or is added.
    pub fn set(&mut self, var: Variable) -> (r: Option<Variable>)
        requires
            old(self).wf(),
        ensures
            final(self).wf(),
            final(self)@ == set_var(old(self)@, var@),
            match r {
                Some(v) => find_var(old(self)@, var@.identifier) == Some(v@),
                None => find_var(old(self)@, var@.identifier) is None,
            },
    {
        proof {
            lemma_index_of(self@, var@.identifier);
            lemma_set_var_distinct(self@, var@);
        }
        let ghost before = self.variables@;
        match self.position(&var.identifier) {
            Some(i) => {
                let old_var = self.variables.remove(i);
                self.variables.insert(i, var);
                assert(self@ =~= set_var(var_models(before), var@));
                Some(old_var)
            },
            None => {
                let ghost v = var@;
                self.variables.push(var);
                assert(self@ =~= set_var(var_models(before), v));
                None
            },
        }
    }
}

/// ScopeManager define a Lua scope manager.
#[derive(Debug)]
pub struct ScopeManager {
    scopes: Vec<Scope>,
}

impl View for ScopeManager {
    type V = Seq<Seq<VarModel>>;

    closed spec fn view(&self) -> Seq<Seq<VarModel>> {
        self.scopes@.map_values(|s: Scope| s@)
    }
}

impl Default for ScopeManager {
    fn default() -> (r: ScopeManager)
        ensures
            r@ == Seq::<Seq<VarModel>>::empty(),
            r.wf(),
    {
        ScopeManager { scopes: Vec::new() }
    }
}

impl ScopeManager {
    /// No scope has two variables of the same name.
    pub open spec fn wf(&self) -> bool {
        forall|i: int| 0 <= i < self@.len() ==> distinct_names(#[trigger] self@[i])
    }

    /// Pushes a new empty scope onto the scope stack.
    pub fn push_scope(&mut self)
        requires
            old(self).wf(),
        ensures
            final(self).wf(),
            final(self)@ == old(self)@.push(Seq::<VarModel>::empty()),
    {
        self.scopes.push(Scope::default());
        assert(self@ =~= old(self)@.push(Seq::<VarModel>::empty()));
    }

    /// Pops scope on top of the stack. If there is no more scope, a new one is
    /// added.
    pub fn pop_scope(&mut self) -> (r: Scope)
        requires
            old(self).wf(),
            old(self)@.len() >= 1,
        ensures
            final(self).wf(),
            r@ == old(self)@.last(),
            old(self)@.len() >= 2 ==> final(self)@ == old(self)@.drop_last(),
            old(self)@.len() == 1 ==> final(self)@ == seq![Seq::<VarModel>::empty()],
    {
        let r = self.scopes.pop().unwrap();
        assert(self@ =~= old(self)@.drop_last());
        if self.scopes.len() == 0 {
            self.scopes.push(Scope::default());
            assert(self@ =~= seq![Seq::<VarModel>::empty()]);
        }
        r
    }

    /// Retrieves a variable by looking in current scope and ancestors otherwise.
    pub fn get_variable(&self, ident: &str) -> (r: Option<&Variable>)
        ensures
            match r {
                Some(v) => lookup(self@, ident@) == Some(v@),
                None => lookup(self@, ident@) is None,
            },
    {
        let mut i = self.scopes.len();
        assert(self@.take(i as int) =~= self@);
        while i > 0
            invariant
                i <= self.scopes.len(),
                self@.len() == self.scopes.len(),
                lookup(self@, ident@) == lookup(self@.take(i as int), ident@),
            decreases i,
        {
            let ghost t = self@.take(i as int);
            assert(t.drop_last() =~= self@.take(i - 1));
            assert(t.last() == self@[i - 1]);
            if let Some(var) = self.scopes[i - 1].get(ident) {
                return Some(var);
            }
            i -= 1;
        }
        None
    }

    /// Sets a variable in current scope; the variable it replaces there is
    /// returned. There must be a scope.
    pub fn set_local(&mut self, var: Variable) -> (r: Option<Variable>)
        requires
            old(self).wf(),
            old(self)@.len() >= 1,
        ensures
            final(self).wf(),
            final(self)@ == old(self)@.update(
                old(self)@.len() - 1,
                set_var(old(self)@.last(), var@),
            ),
            match r {
                Some(v) => find_var(old(self)@.last(), var@.identifier) == Some(v@),
                None => find_var(old(self)@.last(), var@.identifier) is None,
            },
    {
        let mut top = self.scopes.pop().unwrap();
        assert(top@ == old(self)@.last());
        let r = top.set(var);
        self.scopes.push(top);
        assert(self@ =~= old(self)@.update(old(self)@.len() - 1, top@));
        r
    }

    /// Sets a variable in root scope; the variable it replaces there is
    /// returned. There must be a scope.
    pub fn set_global(&mut self, var: Variable) -> (r: Option<Variable>)
        requires
            old(self).wf(),
            old(self)@.len() >= 1,
        ensures
            final(self).wf(),
            final(self)@ == old(self)@.update(0, set_var(old(self)@[0], var@)),
            match r {
                Some(v) => find_var(old(self)@[0], var@.identifier) == Some(v@),
                None => find_var(old(self)@[0], var@.identifier) is None,
            },
    {
        let mut root = self.scopes.remove(0);
        assert(root@ == old(self)@[0]);
        let r = root.set(var);
        self.scopes.insert(0, root);
        assert(self@ =~= old(self)@.update(0, root@));
        r
    }

    /// Depth returns current scope depth.
    pub fn depth(&self) -> (r: usize)
        ensures
            r == self@.len(),
    {
        self.scopes.len()
    }
}

/// After setting a local variable, it is the variable found under its name.
pub proof fn law_set_local_then_lookup(scopes: Seq<Seq<VarModel>>, var: VarModel)
    requires
        scopes.len() >= 1,
        distinct_names(scopes.last()),
    ensures
        lookup(scopes.update(scopes.len() - 1, set_var(scopes.last(), var)), var.identifier) == Some(
            var,
        ),
{
    law_set_then_find(scopes.last(), var);
    let s = scopes.update(scopes.len() - 1, set_var(scopes.last(), var));
    assert(s.last() == set_var(scopes.last(), var));
}

/// A variable of the innermost scope hides the variables of the same name
/// in outer scopes.
pub proof fn law_innermost_scope_wins(scopes: Seq<Seq<VarModel>>, ident: Seq<char>)
    requires
        scopes.len() >= 1,
        find_var(scopes.last(), ident) is Some,
    ensures
        lookup(scopes, ident) == find_var(scopes.last(), ident),
{
}

/// Popping the scope that was pushed last gives back the scopes before the
/// push.
pub proof fn law_push_then_pop(scopes: Seq<Seq<VarModel>>)
    ensures
        scopes.push(Seq::<VarModel>::empty()).drop_last() == scopes,
{
    assert(scopes.push(Seq::<VarModel>::empty()).drop_last() =~= scopes);
}

/// Some variable of `vars` is named `ident`.
pub open spec fn defines(vars: Seq<VarModel>, ident: Seq<char>) -> bool {
    exists|j: int| 0 <= j < vars.len() && (#[trigger] vars[j]).identifier == ident
}

/// Looking a name up through nested scopes finds a variable exactly when
/// some scope defines the name, and then finds a variable of that name from
/// the innermost scope that defines it: a variable of an outer scope is
/// found when no inner scope shadows it.
pub proof fn law_lookup_finds_innermost_definition(scopes: Seq<Seq<VarModel>>, ident: Seq<char>)
    ensures
        lookup(scopes, ident) is Some <==> exists|i: int|
            0 <= i < scopes.len() && defines(#[trigger] scopes[i], ident),
        lookup(scopes, ident) matches Some(v) ==> {
            &&& v.identifier == ident
            &&& exists|i: int|
                0 <= i < scopes.len() && (#[trigger] scopes[i]).contains(v) && forall|j: int|
                    i < j < scopes.len() ==> !defines(#[trigger] scopes[j], ident)
        },
    decreases scopes.len(),
{
    if scopes.len() > 0 {
        let inner = scopes.last();
        let outer = scopes.drop_last();
        let n = scopes.len() - 1;
        assert(scopes[n] == inner);
        lemma_index_of(inner, ident);
        law_lookup_finds_innermost_definition(outer, ident);
        assert forall|i: int| 0 <= i < outer.len() implies outer[i] == scopes[i] by {}
        let k = index_of(inner, ident);
        if k >= 0 {
            assert(defines(scopes[n], ident));
            assert(inner.contains(inner[k]));
        } else {
            assert(!defines(inner, ident));
            if exists|i: int| 0 <= i < scopes.len() && defines(#[trigger] scopes[i], ident) {
                let i = choose|i: int| 0 <= i < scopes.len() && defines(#[trigger] scopes[i], ident);
                assert(i < n);
                assert(defines(outer[i], ident));
            }
            if lookup(outer, ident) is Some {
                let i = choose|i: int|
                    0 <= i < outer.len() && (#[trigger] outer[i]).contains(lookup(outer, ident).unwrap())
                        && forall|j: int| i < j < outer.len() ==> !defines(#[trigger] outer[j], ident);
                assert(scopes[i] == outer[i]);
                assert forall|j: int| i < j < scopes.len() implies !defines(#[trigger] scopes[j], ident) by {
                    if j < n {
                        assert(scopes[j] == outer[j]);
                    }
                }
            }
        }
    }
}

} // verus!
