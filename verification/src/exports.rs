use vstd::prelude::*;
use crate::decl::{FunctionDecl, FunctionDeclView, decls_view};

verus! {

/// The flat, cross-scope record of every function declared public: what an
/// importing compilation unit gets to see. Registration only ever appends;
/// nothing is removed or rewritten, and the record outlives the scope stack.
#[derive(Debug)]
pub struct Exports {
    pub functions: Vec<FunctionDecl>,
}

/// The registry after one registration: a public declaration is appended, a
/// private one leaves the registry exactly as it was.
pub open spec fn export_add(s: Seq<FunctionDeclView>, d: FunctionDeclView) -> Seq<
    FunctionDeclView,
> {
    if d.is_public {
        s.push(d)
    } else {
        s
    }
}

/// How often the declaration `d` occurs in the registry `s`.
pub open spec fn export_count(s: Seq<FunctionDeclView>, d: FunctionDeclView) -> nat
    decreases s.len(),
{
    if s.len() == 0 {
        0
    } else {
        export_count(s.drop_last(), d) + if s.last() == d {
            1nat
        } else {
            0nat
        }
    }
}

impl View for Exports {
    type V = Seq<FunctionDeclView>;

    open spec fn view(&self) -> Seq<FunctionDeclView> {
        decls_view(self.functions@)
    }
}

impl Exports {
    /// An empty registry.
    pub fn new() -> (r: Exports)
        ensures
            r@ == Seq::<FunctionDeclView>::empty(),
    {
        let r = Exports { functions: Vec::new() };
        proof {
            assert(r@ =~= Seq::<FunctionDeclView>::empty());
        }
        r
    }

    /// Registers a declaration: appended iff it is public; a private one is
    /// never added.
    pub fn add_function(&mut self, decl: FunctionDecl)
        ensures
            final(self)@ == export_add(old(self)@, decl@),
    {
        if decl.is_public {
            self.functions.push(decl);
            proof {
                assert(self@ =~= old(self)@.push(self.functions@.last()@));
            }
        }
    }
}

/// A declaration that occurs `n` times occurs somewhere iff `n` is not zero.
pub proof fn lemma_export_count_zero(s: Seq<FunctionDeclView>, d: FunctionDeclView)
    ensures
        (export_count(s, d) == 0) <==> !s.contains(d),
    decreases s.len(),
{
    if s.len() > 0 {
        lemma_export_count_zero(s.drop_last(), d);
        if s.contains(d) {
            let i = choose|i: int| 0 <= i < s.len() && s[i] == d;
            if i < s.len() - 1 {
                assert(s.drop_last()[i] == d);
            }
        } else {
            assert(forall|i: int| 0 <= i < s.len() - 1 ==> s.drop_last()[i] == s[i]);
            assert(s.last() != d) by {
                assert(s[s.len() - 1] == s.last());
            }
        }
    }
}

/// Export visibility: registering a public declaration raises its occurrence
/// count by exactly one — so one that was absent appears exactly once — and
/// registering a private declaration leaves the registry unchanged, so a
/// private declaration never appears, however often scopes redeclare it.
pub proof fn lemma_export_visibility(s: Seq<FunctionDeclView>, d: FunctionDeclView)
    ensures
        d.is_public ==> export_count(export_add(s, d), d) == export_count(s, d) + 1,
        d.is_public && !s.contains(d) ==> export_count(export_add(s, d), d) == 1,
        !d.is_public ==> export_add(s, d) == s,
{
    if d.is_public {
        let t = s.push(d);
        assert(t.drop_last() =~= s);
        assert(t.last() == d);
        if !s.contains(d) {
            lemma_export_count_zero(s, d);
        }
    }
}

} // verus!
