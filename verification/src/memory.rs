use vstd::prelude::*;
use crate::assoc::{has_key, find_by, unique_keys, upsert, lemma_find_at, lemma_upsert};
use crate::block::Block;
use crate::decl::{
    VariableDecl, VariableDeclView, FunctionDecl, FunctionDeclView, FunctionDeclSyntax,
    var_decls_view, decls_view, compute_typed, all_typed,
};
use crate::exports::{Exports, export_add};
use crate::function_map::{
    FunctionMap, FunctionInstance, FunctionInstanceView, instances_view, clone_types,
};
use crate::metadata::{ParserMetadata, ParserMetadataView};
use crate::order::{lex_lt, name_listed, sorted_names, insert_name_sorted, lemma_lex_irreflexive};
use crate::types::Type;

verus! {

/// The name a variable declaration is filed under.
pub open spec fn var_key() -> spec_fn(VariableDeclView) -> Seq<char> {
    |v: VariableDeclView| v.name
}

/// The name a function declaration is filed under.
pub open spec fn fun_key() -> spec_fn(FunctionDeclView) -> Seq<char> {
    |f: FunctionDeclView| f.name
}

/// One lexical frame: the variables and functions declared in one
/// currently-open block, each name filed at most once.
#[derive(Debug)]
pub struct ScopeUnit {
    pub vars: Vec<VariableDecl>,
    pub funs: Vec<FunctionDecl>,
}

/// The mathematical value of a [`ScopeUnit`].
#[verifier::ext_equal]
pub ghost struct ScopeUnitView {
    pub vars: Seq<VariableDeclView>,
    pub funs: Seq<FunctionDeclView>,
}

impl View for ScopeUnit {
    type V = ScopeUnitView;

    open spec fn view(&self) -> ScopeUnitView {
        ScopeUnitView { vars: var_decls_view(self.vars@), funs: decls_view(self.funs@) }
    }
}

/// A freshly opened frame, with nothing declared.
pub open spec fn empty_scope() -> ScopeUnitView {
    ScopeUnitView { vars: Seq::empty(), funs: Seq::empty() }
}

/// Within one frame, variable names and function names are each unique.
pub open spec fn scope_wf(s: ScopeUnitView) -> bool {
    unique_keys(s.vars, var_key()) && unique_keys(s.funs, fun_key())
}

impl ScopeUnit {
    fn new() -> (r: ScopeUnit)
        ensures
            r@ == empty_scope(),
    {
        let r = ScopeUnit { vars: Vec::new(), funs: Vec::new() };
        proof {
            assert(r@ =~= empty_scope());
        }
        r
    }

    /// The declaration this frame files under `name`, if any.
    fn get_var(&self, name: &String) -> (r: Option<&VariableDecl>)
        requires
            unique_keys(self@.vars, var_key()),
        ensures
            match r {
                Some(v) => find_by(self@.vars, var_key(), name@) == Some(v@),
                None => find_by(self@.vars, var_key(), name@) is None,
            },
    {
        let mut i: usize = 0;
        while i < self.vars.len()
            invariant
                unique_keys(self@.vars, var_key()),
                i <= self.vars.len(),
                forall|j: int| 0 <= j < i ==> self@.vars[j].name != name@,
            decreases self.vars.len() - i,
        {
            if self.vars[i].name == *name {
                proof {
                    lemma_find_at(self@.vars, var_key(), name@, i as int);
                }
                return Some(&self.vars[i]);
            }
            i = i + 1;
        }
        proof {
            assert(!has_key(self@.vars, var_key(), name@));
        }
        None
    }

    /// Files `d` under its name: overwrites a declaration already filed under
    /// that name, else appends. Reports whether the name was new to this
    /// frame.
    fn set_var(&mut self, d: VariableDecl) -> (was_new: bool)
        requires
            unique_keys(old(self)@.vars, var_key()),
        ensures
            final(self)@.vars == upsert(old(self)@.vars, var_key(), d@),
            final(self)@.funs == old(self)@.funs,
            unique_keys(final(self)@.vars, var_key()),
            was_new == !has_key(old(self)@.vars, var_key(), d@.name),
    {
        proof {
            lemma_upsert(old(self)@.vars, var_key(), d@);
        }
        let mut i: usize = 0;
        while i < self.vars.len()
            invariant
                self == old(self),
                unique_keys(self@.vars, var_key()),
                i <= self.vars.len(),
                forall|j: int| 0 <= j < i ==> self@.vars[j].name != d@.name,
            decreases self.vars.len() - i,
        {
            if self.vars[i].name == d.name {
                proof {
                    lemma_find_at(self@.vars, var_key(), d@.name, i as int);
                }
                self.vars.set(i, d);
                proof {
                    assert(final(self)@.vars =~= upsert(old(self)@.vars, var_key(), d@));
                }
                return false;
            }
            i = i + 1;
        }
        proof {
            assert(!has_key(self@.vars, var_key(), d@.name));
        }
        self.vars.push(d);
        proof {
            assert(final(self)@.vars =~= upsert(old(self)@.vars, var_key(), d@));
        }
        true
    }

    /// The function declaration this frame files under `name`, if any.
    fn get_fun(&self, name: &String) -> (r: Option<&FunctionDecl>)
        requires
            unique_keys(self@.funs, fun_key()),
        ensures
            match r {
                Some(f) => find_by(self@.funs, fun_key(), name@) == Some(f@),
                None => find_by(self@.funs, fun_key(), name@) is None,
            },
    {
        let mut i: usize = 0;
        while i < self.funs.len()
            invariant
                unique_keys(self@.funs, fun_key()),
                i <= self.funs.len(),
                forall|j: int| 0 <= j < i ==> self@.funs[j].name != name@,
            decreases self.funs.len() - i,
        {
            if self.funs[i].name == *name {
                proof {
                    lemma_find_at(self@.funs, fun_key(), name@, i as int);
                }
                return Some(&self.funs[i]);
            }
            i = i + 1;
        }
        proof {
            assert(!has_key(self@.funs, fun_key(), name@));
        }
        None
    }

    /// Files a function declaration under its name, overwriting as
    /// [`Self::set_var`] does, and reports whether the name was new.
    fn set_fun(&mut self, d: FunctionDecl) -> (was_new: bool)
        requires
            unique_keys(old(self)@.funs, fun_key()),
        ensures
            final(self)@.funs == upsert(old(self)@.funs, fun_key(), d@),
            final(self)@.vars == old(self)@.vars,
            unique_keys(final(self)@.funs, fun_key()),
            was_new == !has_key(old(self)@.funs, fun_key(), d@.name),
    {
        proof {
            lemma_upsert(old(self)@.funs, fun_key(), d@);
        }
        let mut i: usize = 0;
        while i < self.funs.len()
            invariant
                self == old(self),
                unique_keys(self@.funs, fun_key()),
                i <= self.funs.len(),
                forall|j: int| 0 <= j < i ==> self@.funs[j].name != d@.name,
            decreases self.funs.len() - i,
        {
            if self.funs[i].name == d.name {
                proof {
                    lemma_find_at(self@.funs, fun_key(), d@.name, i as int);
                }
                self.funs.set(i, d);
                proof {
                    assert(final(self)@.funs =~= upsert(old(self)@.funs, fun_key(), d@));
                }
                return false;
            }
            i = i + 1;
        }
        proof {
            assert(!has_key(self@.funs, fun_key(), d@.name));
        }
        self.funs.push(d);
        proof {
            assert(final(self)@.funs =~= upsert(old(self)@.funs, fun_key(), d@));
        }
        true
    }
}

/// The views of the open frames, outermost first.
pub open spec fn scopes_view(v: Seq<ScopeUnit>) -> Seq<ScopeUnitView> {
    v.map_values(|s: ScopeUnit| s@)
}

/// Resolution of a variable name against the scope stack: frames are scanned
/// innermost to outermost and the first frame that files the name wins —
/// this is what makes inner declarations shadow outer ones.
pub open spec fn lookup_var(scopes: Seq<ScopeUnitView>, name: Seq<char>) -> Option<
    VariableDeclView,
>
    decreases scopes.len(),
{
    if scopes.len() == 0 {
        None
    } else {
        match find_by(scopes.last().vars, var_key(), name) {
            Some(v) => Some(v),
            None => lookup_var(scopes.drop_last(), name),
        }
    }
}

/// Resolution of a function name, innermost to outermost.
pub open spec fn lookup_fun(scopes: Seq<ScopeUnitView>, name: Seq<char>) -> Option<
    FunctionDeclView,
>
    decreases scopes.len(),
{
    if scopes.len() == 0 {
        None
    } else {
        match find_by(scopes.last().funs, fun_key(), name) {
            Some(f) => Some(f),
            None => lookup_fun(scopes.drop_last(), name),
        }
    }
}

/// Whether any open frame files a variable under `name`.
pub open spec fn visible_var(scopes: Seq<ScopeUnitView>, name: Seq<char>) -> bool {
    exists|i: int, j: int|
        0 <= i < scopes.len() && 0 <= j < scopes[i].vars.len() && scopes[i].vars[j].name == name
}

/// Whether any open frame files a function under `name`.
pub open spec fn visible_fun(scopes: Seq<ScopeUnitView>, name: Seq<char>) -> bool {
    exists|i: int, j: int|
        0 <= i < scopes.len() && 0 <= j < scopes[i].funs.len() && scopes[i].funs[j].name == name
}

/// The variable declaration [`Memory::add_variable`] builds: `counter` is the
/// value of the global-id counter at declaration time, consumed iff the
/// declaration is global.
pub open spec fn declared_var(name: Seq<char>, kind: Type, global: bool, counter: usize)
    -> VariableDeclView {
    VariableDeclView {
        name,
        kind,
        global_id: if global {
            Some(counter)
        } else {
            None
        },
    }
}

/// The function declaration [`Memory::add_function_declaration`] builds from
/// the declaration syntax, the parser-state snapshot and the freshly
/// allocated id.
pub open spec fn declared_fun(
    syntax: crate::decl::FunctionDeclSyntaxView,
    meta: ParserMetadataView,
    id: usize,
) -> FunctionDeclView {
    FunctionDeclView {
        name: syntax.name,
        args: syntax.args,
        return_type: syntax.return_type,
        body: syntax.body,
        meta,
        typed: all_typed(syntax.args),
        is_public: syntax.is_public,
        id,
    }
}

/// The central analysis context: the stack of open lexical frames, the
/// function-instantiation cache, the monotonically increasing global-variable
/// identity counter, and the registry of exported functions. It owns all of
/// them exclusively; nothing else mutates scope contents.
#[derive(Debug)]
pub struct Memory {
    pub scopes: Vec<ScopeUnit>,
    pub function_map: FunctionMap,
    pub variable_id: usize,
    pub exports: Exports,
}

/// The mathematical value of a [`Memory`].
#[verifier::ext_equal]
pub ghost struct MemoryView {
    pub scopes: Seq<ScopeUnitView>,
    pub function_map: Seq<Seq<FunctionInstanceView>>,
    pub variable_id: usize,
    pub exports: Seq<FunctionDeclView>,
}

impl View for Memory {
    type V = MemoryView;

    open spec fn view(&self) -> MemoryView {
        MemoryView {
            scopes: scopes_view(self.scopes@),
            function_map: self.function_map@,
            variable_id: self.variable_id,
            exports: self.exports@,
        }
    }
}

/// The memory invariant: every open frame files each name at most once, and
/// every global id ever stored is strictly below the counter — so a stored id
/// is never reassigned or reused.
pub open spec fn mem_wf(m: MemoryView) -> bool {
    &&& forall|i: int| 0 <= i < m.scopes.len() ==> scope_wf(#[trigger] m.scopes[i])
    &&& forall|i: int, j: int|
        0 <= i < m.scopes.len() && 0 <= j < m.scopes[i].vars.len() ==> ((
        #[trigger] m.scopes[i].vars[j]).global_id matches Some(g) ==> g < m.variable_id)
}

impl Memory {
    /// A fresh context: no open scope, an empty instantiation cache, the id
    /// counter at zero, nothing exported.
    pub fn new() -> (r: Memory)
        ensures
            r@ == (MemoryView {
                scopes: Seq::empty(),
                function_map: Seq::empty(),
                variable_id: 0,
                exports: Seq::empty(),
            }),
            mem_wf(r@),
    {
        let r = Memory {
            scopes: Vec::new(),
            function_map: FunctionMap::new(),
            exports: Exports::new(),
            variable_id: 0,
        };
        proof {
            assert(r@ =~= (MemoryView {
                scopes: Seq::empty(),
                function_map: Seq::empty(),
                variable_id: 0,
                exports: Seq::empty(),
            }));
        }
        r
    }

    /// How many lexical frames are open.
    pub fn get_depth(&self) -> (r: usize)
        ensures
            r == self@.scopes.len(),
    {
        self.scopes.len()
    }

    /// Opens a new lexical frame on block entry; it starts empty.
    pub fn push_scope(&mut self)
        requires
            mem_wf(old(self)@),
        ensures
            mem_wf(final(self)@),
            final(self)@.scopes == old(self)@.scopes.push(empty_scope()),
            final(self)@.function_map == old(self)@.function_map,
            final(self)@.variable_id == old(self)@.variable_id,
            final(self)@.exports == old(self)@.exports,
    {
        self.scopes.push(ScopeUnit::new());
        proof {
            assert(self@.scopes =~= old(self)@.scopes.push(empty_scope()));
        }
    }

    /// Closes the innermost frame on block exit and hands it back; its
    /// bindings are gone from resolution, so names it shadowed become visible
    /// again. Reports nothing when no frame is open.
    pub fn pop_scope(&mut self) -> (r: Option<ScopeUnit>)
        requires
            mem_wf(old(self)@),
        ensures
            mem_wf(final(self)@),
            final(self)@.function_map == old(self)@.function_map,
            final(self)@.variable_id == old(self)@.variable_id,
            final(self)@.exports == old(self)@.exports,
            match r {
                Some(s) => old(self)@.scopes.len() > 0 && s@ == old(self)@.scopes.last()
                    && final(self)@.scopes == old(self)@.scopes.drop_last(),
                None => old(self)@.scopes.len() == 0 && final(self)@.scopes
                    == old(self)@.scopes,
            },
    {
        let r = self.scopes.pop();
        proof {
            if old(self)@.scopes.len() > 0 {
                assert(self@.scopes =~= old(self)@.scopes.drop_last());
            } else {
                assert(self@.scopes =~= old(self)@.scopes);
            }
        }
        r
    }

    /// Declares a variable in the innermost frame, overwriting any
    /// declaration of the same name already in that frame. Iff the
    /// declaration is global, the next global id is consumed and returned:
    /// ids are handed out in declaration order, each exactly once.
    pub fn add_variable(&mut self, name: &str, kind: Type, global: bool) -> (r: Option<usize>)
        requires
            mem_wf(old(self)@),
            old(self)@.scopes.len() > 0,
            global ==> old(self)@.variable_id < usize::MAX,
        ensures
            mem_wf(final(self)@),
            final(self)@.function_map == old(self)@.function_map,
            final(self)@.exports == old(self)@.exports,
            final(self)@.variable_id as int == old(self)@.variable_id as int + (if global {
                1int
            } else {
                0int
            }),
            final(self)@.scopes.len() == old(self)@.scopes.len(),
            forall|i: int| 0 <= i < old(self)@.scopes.len() - 1 ==> final(self)@.scopes[i]
                == old(self)@.scopes[i],
            final(self)@.scopes.last().funs == old(self)@.scopes.last().funs,
            final(self)@.scopes.last().vars == upsert(
                old(self)@.scopes.last().vars,
                var_key(),
                declared_var(name@, kind, global, old(self)@.variable_id),
            ),
            r == if global {
                Some(old(self)@.variable_id)
            } else {
                None::<usize>
            },
    {
        let mut global_id: Option<usize> = None;
        if global {
            global_id = Some(self.variable_id);
            self.variable_id = self.variable_id + 1;
        }
        let d = VariableDecl { name: name.to_owned(), kind, global_id };
        proof {
            assert(d@ == declared_var(name@, kind, global, old(self)@.variable_id));
        }
        let last = self.scopes.len() - 1;
        proof {
            assert(self@.scopes[last as int] == old(self)@.scopes.last());
            assert(scope_wf(old(self)@.scopes[last as int]));
        }
        self.scopes[last].set_var(d);
        proof {
            let ov = old(self)@;
            let nv = self@;
            assert(nv.scopes.len() == ov.scopes.len());
            assert(forall|i: int| 0 <= i < ov.scopes.len() - 1 ==> nv.scopes[i] == ov.scopes[i]);
            lemma_upsert(
                ov.scopes.last().vars,
                var_key(),
                declared_var(name@, kind, global, ov.variable_id),
            );
            assert forall|i: int| 0 <= i < nv.scopes.len() implies scope_wf(
                #[trigger] nv.scopes[i],
            ) by {
                assert(scope_wf(ov.scopes[i]));
            }
            assert forall|i: int, j: int|
                0 <= i < nv.scopes.len() && 0 <= j < nv.scopes[i].vars.len() implies ((
            #[trigger] nv.scopes[i].vars[j]).global_id matches Some(g) ==> g
                < nv.variable_id) by {
                if i < nv.scopes.len() - 1 {
                    assert(nv.scopes[i] == ov.scopes[i]);
                    assert(ov.scopes[i].vars[j].global_id matches Some(g) ==> g
                        < ov.variable_id);
                } else {
                    let dv = declared_var(name@, kind, global, ov.variable_id);
                    let ovars = ov.scopes.last().vars;
                    if has_key(ovars, var_key(), dv.name) {
                        let idx = crate::assoc::key_index(ovars, var_key(), dv.name);
                        if j != idx {
                            assert(nv.scopes[i].vars[j] == ovars[j]);
                        }
                    } else {
                        if j < ovars.len() {
                            assert(nv.scopes[i].vars[j] == ovars[j]);
                        }
                    }
                }
            }
        }
        global_id
    }

    /// Resolves a variable name by scanning the open frames innermost to
    /// outermost; the first frame that files the name wins, and a name no
    /// frame files resolves to nothing.
    pub fn get_variable(&self, name: &str) -> (r: Option<&VariableDecl>)
        requires
            mem_wf(self@),
        ensures
            match r {
                Some(v) => lookup_var(self@.scopes, name@) == Some(v@),
                None => lookup_var(self@.scopes, name@) is None,
            },
    {
        let key: String = name.to_owned();
        let mut i: usize = self.scopes.len();
        proof {
            assert(self@.scopes.take(i as int) =~= self@.scopes);
        }
        while i > 0
            invariant
                mem_wf(self@),
                i <= self@.scopes.len(),
                key@ == name@,
                lookup_var(self@.scopes, name@) == lookup_var(
                    self@.scopes.take(i as int),
                    name@,
                ),
            decreases i,
        {
            i = i - 1;
            proof {
                let pre = self@.scopes.take(i as int + 1);
                assert(pre.last() == self@.scopes[i as int]);
                assert(pre.drop_last() =~= self@.scopes.take(i as int));
                assert(scope_wf(self@.scopes[i as int]));
            }
            match self.scopes[i].get_var(&key) {
                Some(v) => {
                    return Some(v);
                },
                None => {},
            }
        }
        None
    }

    /// Every variable name visible from the current point, across all open
    /// frames: each visible name exactly once, in ascending lexicographic
    /// order, so diagnostics and tooling see one deterministic listing per
    /// scope state.
    pub fn get_available_variables(&self) -> (r: Vec<String>)
        requires
            mem_wf(self@),
        ensures
            forall|k: int| 0 <= k < r@.len() ==> visible_var(self@.scopes, #[trigger] r@[k]@),
            forall|n: Seq<char>| visible_var(self@.scopes, n) ==> name_listed(r@, n),
            forall|k: int, l: int| 0 <= k < l < r@.len() ==> lex_lt(r@[k]@, r@[l]@),
            forall|k: int, l: int| 0 <= k < l < r@.len() ==> r@[k]@ != r@[l]@,
    {
        let mut r: Vec<String> = Vec::new();
        let mut i: usize = 0;
        while i < self.scopes.len()
            invariant
                mem_wf(self@),
                i <= self@.scopes.len(),
                sorted_names(r@),
                forall|k: int| 0 <= k < r@.len() ==> visible_var(self@.scopes, #[trigger] r@[k]@),
                forall|i2: int, j2: int|
                    0 <= i2 < i && 0 <= j2 < self@.scopes[i2].vars.len() ==> name_listed(
                        r@,
                        (#[trigger] self@.scopes[i2].vars[j2]).name,
                    ),
            decreases self.scopes.len() - i,
        {
            let scope = &self.scopes[i];
            let mut j: usize = 0;
            while j < scope.vars.len()
                invariant
                    mem_wf(self@),
                    i < self@.scopes.len(),
                    scope == &self.scopes@[i as int],
                    j <= scope.vars.len(),
                    sorted_names(r@),
                    forall|k: int| 0 <= k < r@.len() ==> visible_var(
                        self@.scopes,
                        #[trigger] r@[k]@,
                    ),
                    forall|i2: int, j2: int|
                        0 <= i2 < i && 0 <= j2 < self@.scopes[i2].vars.len() ==> name_listed(
                            r@,
                            (#[trigger] self@.scopes[i2].vars[j2]).name,
                        ),
                    forall|j2: int| 0 <= j2 < j ==> name_listed(
                        r@,
                        (#[trigger] self@.scopes[i as int].vars[j2]).name,
                    ),
                decreases scope.vars.len() - j,
            {
                let name = &scope.vars[j].name;
                proof {
                    assert(self@.scopes[i as int].vars[j as int].name == name@);
                }
                let ghost r0 = r@;
                insert_name_sorted(&mut r, name.clone());
                proof {
                    assert(visible_var(self@.scopes, name@)) by {
                        assert((i as int) < self@.scopes.len() && (j as int)
                            < self@.scopes[i as int].vars.len() && self@.scopes[
                        i as int].vars[j as int].name == name@);
                    }
                    assert forall|k: int| 0 <= k < r@.len() implies visible_var(
                        self@.scopes,
                        #[trigger] r@[k]@,
                    ) by {
                        if r@[k]@ != name@ {
                            assert(name_listed(r0, r@[k]@));
                            let k0 = choose|k0: int| 0 <= k0 < r0.len() && r0[k0]@ == r@[k]@;
                            assert(visible_var(self@.scopes, r0[k0]@));
                        }
                    }
                }
                j = j + 1;
            }
            i = i + 1;
        }
        proof {
            assert forall|n: Seq<char>| visible_var(self@.scopes, n) implies name_listed(
                r@,
                n,
            ) by {
                let (i2, j2): (int, int) = choose|i2: int, j2: int|
                    0 <= i2 < self@.scopes.len() && 0 <= j2 < self@.scopes[i2].vars.len()
                        && self@.scopes[i2].vars[j2].name == n;
                assert(name_listed(r@, self@.scopes[i2].vars[j2].name));
            }
            assert forall|k: int, l: int| 0 <= k < l < r@.len() implies r@[k]@ != r@[l]@ by {
                if r@[k]@ == r@[l]@ {
                    lemma_lex_irreflexive(r@[k]@);
                }
            }
        }
        r
    }

    /// Re-registers a declaration carried over from an outer analysis
    /// context: it is offered to the exports registry (which keeps it iff it
    /// is public) and filed in the innermost frame, overwriting any
    /// declaration of that name already there. Reports whether the name was
    /// previously absent from that frame — `false` signals a redeclaration.
    pub fn add_existing_function_declaration(&mut self, decl: FunctionDecl) -> (r: bool)
        requires
            mem_wf(old(self)@),
            old(self)@.scopes.len() > 0,
        ensures
            mem_wf(final(self)@),
            final(self)@.function_map == old(self)@.function_map,
            final(self)@.variable_id == old(self)@.variable_id,
            final(self)@.exports == export_add(old(self)@.exports, decl@),
            final(self)@.scopes.len() == old(self)@.scopes.len(),
            forall|i: int| 0 <= i < old(self)@.scopes.len() - 1 ==> final(self)@.scopes[i]
                == old(self)@.scopes[i],
            final(self)@.scopes.last().vars == old(self)@.scopes.last().vars,
            final(self)@.scopes.last().funs == upsert(
                old(self)@.scopes.last().funs,
                fun_key(),
                decl@,
            ),
            r == !has_key(old(self)@.scopes.last().funs, fun_key(), decl@.name),
    {
        self.exports.add_function(decl.clone());
        let last = self.scopes.len() - 1;
        proof {
            assert(self@.scopes[last as int] == old(self)@.scopes.last());
            assert(scope_wf(old(self)@.scopes[last as int]));
        }
        let r = self.scopes[last].set_fun(decl);
        proof {
            self.lemma_funs_update_wf(old(self)@, last as int);
        }
        r
    }

    /// Declares a function from its declaration syntax: computes whether the
    /// parameters are fully typed, allocates a fresh id from the
    /// instantiation cache, files the declaration in the innermost frame
    /// (overwriting any same-named one there) and offers it to the exports
    /// registry. Returns the new id, or nothing when the name was already
    /// filed in that frame — the redeclaration conflict the caller must turn
    /// into a diagnostic.
    pub fn add_function_declaration(
        &mut self,
        meta: ParserMetadata,
        decl: FunctionDeclSyntax,
    ) -> (r: Option<usize>)
        requires
            mem_wf(old(self)@),
            old(self)@.scopes.len() > 0,
        ensures
            mem_wf(final(self)@),
            final(self)@.variable_id == old(self)@.variable_id,
            final(self)@.function_map == old(self)@.function_map.push(
                Seq::<FunctionInstanceView>::empty(),
            ),
            final(self)@.exports == export_add(
                old(self)@.exports,
                declared_fun(decl@, meta@, old(self)@.function_map.len() as usize),
            ),
            final(self)@.scopes.len() == old(self)@.scopes.len(),
            forall|i: int| 0 <= i < old(self)@.scopes.len() - 1 ==> final(self)@.scopes[i]
                == old(self)@.scopes[i],
            final(self)@.scopes.last().vars == old(self)@.scopes.last().vars,
            final(self)@.scopes.last().funs == upsert(
                old(self)@.scopes.last().funs,
                fun_key(),
                declared_fun(decl@, meta@, old(self)@.function_map.len() as usize),
            ),
            r == if has_key(old(self)@.scopes.last().funs, fun_key(), decl@.name) {
                None::<usize>
            } else {
                Some(old(self)@.function_map.len() as usize)
            },
    {
        let typed = compute_typed(&decl.args);
        let id = self.function_map.add_declaration();
        let fd = FunctionDecl {
            name: decl.name,
            args: decl.args,
            return_type: decl.return_type,
            is_public: decl.is_public,
            body: decl.body,
            meta,
            typed,
            id,
        };
        proof {
            assert(fd@ =~= declared_fun(decl@, meta@, id));
        }
        let last = self.scopes.len() - 1;
        proof {
            assert(self@.scopes[last as int] == old(self)@.scopes.last());
            assert(scope_wf(old(self)@.scopes[last as int]));
        }
        let was_new = self.scopes[last].set_fun(fd.clone());
        self.exports.add_function(fd);
        proof {
            self.lemma_funs_update_wf(old(self)@, last as int);
        }
        if was_new {
            Some(id)
        } else {
            None
        }
    }

    /// After an update that only refiled functions in one frame, the memory
    /// invariant still holds: variable uniqueness and global-id bounds only
    /// concern parts the update left alone.
    proof fn lemma_funs_update_wf(&self, ov: MemoryView, last: int)
        requires
            mem_wf(ov),
            0 <= last < ov.scopes.len(),
            self@.scopes.len() == ov.scopes.len(),
            self@.variable_id == ov.variable_id,
            forall|i: int| 0 <= i < ov.scopes.len() && i != last ==> self@.scopes[i]
                == ov.scopes[i],
            self@.scopes[last].vars == ov.scopes[last].vars,
            unique_keys(self@.scopes[last].funs, fun_key()),
        ensures
            mem_wf(self@),
    {
        let nv = self@;
        assert forall|i: int| 0 <= i < nv.scopes.len() implies scope_wf(
            #[trigger] nv.scopes[i],
        ) by {
            assert(scope_wf(ov.scopes[i]));
        }
        assert forall|i: int, j: int|
            0 <= i < nv.scopes.len() && 0 <= j < nv.scopes[i].vars.len() implies ((
        #[trigger] nv.scopes[i].vars[j]).global_id matches Some(g) ==> g < nv.variable_id) by {
            assert(nv.scopes[i].vars == ov.scopes[i].vars);
            assert(ov.scopes[i].vars[j].global_id matches Some(g) ==> g < ov.variable_id);
        }
    }

    /// Resolves a function name exactly as [`Self::get_variable`] resolves a
    /// variable name: innermost frame first.
    pub fn get_function(&self, name: &str) -> (r: Option<&FunctionDecl>)
        requires
            mem_wf(self@),
        ensures
            match r {
                Some(f) => lookup_fun(self@.scopes, name@) == Some(f@),
                None => lookup_fun(self@.scopes, name@) is None,
            },
    {
        let key: String = name.to_owned();
        let mut i: usize = self.scopes.len();
        proof {
            assert(self@.scopes.take(i as int) =~= self@.scopes);
        }
        while i > 0
            invariant
                mem_wf(self@),
                i <= self@.scopes.len(),
                key@ == name@,
                lookup_fun(self@.scopes, name@) == lookup_fun(
                    self@.scopes.take(i as int),
                    name@,
                ),
            decreases i,
        {
            i = i - 1;
            proof {
                let pre = self@.scopes.take(i as int + 1);
                assert(pre.last() == self@.scopes[i as int]);
                assert(pre.drop_last() =~= self@.scopes.take(i as int));
                assert(scope_wf(self@.scopes[i as int]));
            }
            match self.scopes[i].get_fun(&key) {
                Some(f) => {
                    return Some(f);
                },
                None => {},
            }
        }
        None
    }

    /// Every function name visible from the current point, each exactly
    /// once, in ascending lexicographic order.
    pub fn get_available_functions(&self) -> (r: Vec<String>)
        requires
            mem_wf(self@),
        ensures
            forall|k: int| 0 <= k < r@.len() ==> visible_fun(self@.scopes, #[trigger] r@[k]@),
            forall|n: Seq<char>| visible_fun(self@.scopes, n) ==> name_listed(r@, n),
            forall|k: int, l: int| 0 <= k < l < r@.len() ==> lex_lt(r@[k]@, r@[l]@),
            forall|k: int, l: int| 0 <= k < l < r@.len() ==> r@[k]@ != r@[l]@,
    {
        let mut r: Vec<String> = Vec::new();
        let mut i: usize = 0;
        while i < self.scopes.len()
            invariant
                mem_wf(self@),
                i <= self@.scopes.len(),
                sorted_names(r@),
                forall|k: int| 0 <= k < r@.len() ==> visible_fun(self@.scopes, #[trigger] r@[k]@),
                forall|i2: int, j2: int|
                    0 <= i2 < i && 0 <= j2 < self@.scopes[i2].funs.len() ==> name_listed(
                        r@,
                        (#[trigger] self@.scopes[i2].funs[j2]).name,
                    ),
            decreases self.scopes.len() - i,
        {
            let scope = &self.scopes[i];
            let mut j: usize = 0;
            while j < scope.funs.len()
                invariant
                    mem_wf(self@),
                    i < self@.scopes.len(),
                    scope == &self.scopes@[i as int],
                    j <= scope.funs.len(),
                    sorted_names(r@),
                    forall|k: int| 0 <= k < r@.len() ==> visible_fun(
                        self@.scopes,
                        #[trigger] r@[k]@,
                    ),
                    forall|i2: int, j2: int|
                        0 <= i2 < i && 0 <= j2 < self@.scopes[i2].funs.len() ==> name_listed(
                            r@,
                            (#[trigger] self@.scopes[i2].funs[j2]).name,
                        ),
                    forall|j2: int| 0 <= j2 < j ==> name_listed(
                        r@,
                        (#[trigger] self@.scopes[i as int].funs[j2]).name,
                    ),
                decreases scope.funs.len() - j,
            {
                let name = &scope.funs[j].name;
                proof {
                    assert(self@.scopes[i as int].funs[j as int].name == name@);
                }
                let ghost r0 = r@;
                insert_name_sorted(&mut r, name.clone());
                proof {
                    assert(visible_fun(self@.scopes, name@)) by {
                        assert((i as int) < self@.scopes.len() && (j as int)
                            < self@.scopes[i as int].funs.len() && self@.scopes[
                        i as int].funs[j as int].name == name@);
                    }
                    assert forall|k: int| 0 <= k < r@.len() implies visible_fun(
                        self@.scopes,
                        #[trigger] r@[k]@,
                    ) by {
                        if r@[k]@ != name@ {
                            assert(name_listed(r0, r@[k]@));
                            let k0 = choose|k0: int| 0 <= k0 < r0.len() && r0[k0]@ == r@[k]@;
                            assert(visible_fun(self@.scopes, r0[k0]@));
                        }
                    }
                }
                j = j + 1;
            }
            i = i + 1;
        }
        proof {
            assert forall|n: Seq<char>| visible_fun(self@.scopes, n) implies name_listed(
                r@,
                n,
            ) by {
                let (i2, j2): (int, int) = choose|i2: int, j2: int|
                    0 <= i2 < self@.scopes.len() && 0 <= j2 < self@.scopes[i2].funs.len()
                        && self@.scopes[i2].funs[j2].name == n;
                assert(name_listed(r@, self@.scopes[i2].funs[j2].name));
            }
            assert forall|k: int, l: int| 0 <= k < l < r@.len() implies r@[k]@ != r@[l]@ by {
                if r@[k]@ == r@[l]@ {
                    lemma_lex_irreflexive(r@[k]@);
                }
            }
        }
        r
    }

    /// The monomorphization cache-write path: appends one concrete instance
    /// for the function `id` and returns its index in that id's sequence.
    pub fn add_function_instance(
        &mut self,
        id: usize,
        args: &Vec<Type>,
        return_type: Type,
        body: Block,
    ) -> (idx: usize)
        requires
            mem_wf(old(self)@),
            id < old(self)@.function_map.len(),
        ensures
            mem_wf(final(self)@),
            final(self)@.scopes == old(self)@.scopes,
            final(self)@.variable_id == old(self)@.variable_id,
            final(self)@.exports == old(self)@.exports,
            final(self)@.function_map == old(self)@.function_map.update(
                id as int,
                old(self)@.function_map[id as int].push(
                    FunctionInstanceView { args: args@, return_type, body: body@ },
                ),
            ),
            idx == old(self)@.function_map[id as int].len(),
    {
        let instance = FunctionInstance { args: clone_types(args), return_type, body };
        self.function_map.add_instance(id, instance)
    }

    /// The instances produced so far for the function `id`, or nothing for an
    /// id the cache never allocated.
    pub fn get_function_instances(&self, id: usize) -> (r: Option<&Vec<FunctionInstance>>)
        ensures
            match r {
                Some(v) => id < self@.function_map.len() && instances_view(v@)
                    == self@.function_map[id as int],
                None => id >= self@.function_map.len(),
            },
    {
        self.function_map.get(id)
    }

    /// Replaces this context's instantiation cache with a copy of another
    /// context's: the explicit hand-off that lets the analysis of a generic
    /// body share the caller's cache instead of diverging from it.
    pub fn set_function_map(&mut self, other: &Memory)
        requires
            mem_wf(old(self)@),
        ensures
            mem_wf(final(self)@),
            final(self)@.function_map == other@.function_map,
            final(self)@.scopes == old(self)@.scopes,
            final(self)@.variable_id == old(self)@.variable_id,
            final(self)@.exports == old(self)@.exports,
    {
        self.function_map = other.function_map.clone();
    }
}

/// Shadowing: while an inner frame that files `name` is open, resolution
/// returns the inner declaration, whatever the outer frames hold; and once
/// that frame is dropped, resolution of every name is exactly what it was
/// before the frame was pushed.
pub proof fn lemma_shadowing(scopes: Seq<ScopeUnitView>, inner: ScopeUnitView, name: Seq<char>)
    ensures
        has_key(inner.vars, var_key(), name) ==> lookup_var(scopes.push(inner), name) == find_by(
            inner.vars,
            var_key(),
            name,
        ),
        lookup_var(scopes.push(inner).drop_last(), name) == lookup_var(scopes, name),
{
    assert(scopes.push(inner).last() == inner);
    assert(scopes.push(inner).drop_last() =~= scopes);
}

/// Global-id freshness: under the memory invariant, the id the next global
/// declaration would assign — the counter itself — is held by no variable in
/// any open frame; since every declaration assigns the current counter and
/// then raises it, ids are assigned strictly increasing and never reused.
pub proof fn lemma_global_id_fresh(m: MemoryView)
    requires
        mem_wf(m),
    ensures
        forall|i: int, j: int|
            0 <= i < m.scopes.len() && 0 <= j < m.scopes[i].vars.len() ==> (
            #[trigger] m.scopes[i].vars[j]).global_id != Some(m.variable_id),
{
}

/// Redeclaration in one frame: after a declaration is filed, its name is
/// present, so filing a second declaration under the same name is reported as
/// a conflict (the name is not new) while still overwriting at the storage
/// layer.
pub proof fn lemma_redeclaration(
    funs: Seq<FunctionDeclView>,
    first: FunctionDeclView,
    second: FunctionDeclView,
)
    requires
        unique_keys(funs, fun_key()),
        second.name == first.name,
    ensures
        has_key(upsert(funs, fun_key(), first), fun_key(), second.name),
        find_by(
            upsert(upsert(funs, fun_key(), first), fun_key(), second),
            fun_key(),
            second.name,
        ) == Some(second),
{
    lemma_upsert(funs, fun_key(), first);
    lemma_upsert(upsert(funs, fun_key(), first), fun_key(), second);
}

} // verus!
