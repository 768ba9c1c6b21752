use vstd::prelude::*;
use crate::types::Type;
use crate::token::{Token, TokenView, tokens_view, clone_tokens};
use crate::metadata::{ParserMetadata, ParserMetadataView};

verus! {

/// One declared variable: its name, its type, and — iff it was declared at
/// global scope — the stable numeric identity the translation layer emits it
/// under.
#[derive(Debug)]
pub struct VariableDecl {
    pub name: String,
    pub kind: Type,
    pub global_id: Option<usize>,
}

/// The mathematical value of a [`VariableDecl`].
#[verifier::ext_equal]
pub ghost struct VariableDeclView {
    pub name: Seq<char>,
    pub kind: Type,
    pub global_id: Option<usize>,
}

impl View for VariableDecl {
    type V = VariableDeclView;

    open spec fn view(&self) -> VariableDeclView {
        VariableDeclView { name: self.name@, kind: self.kind, global_id: self.global_id }
    }
}

impl Clone for VariableDecl {
    fn clone(&self) -> (r: VariableDecl)
        ensures
            r@ == self@,
    {
        VariableDecl { name: self.name.clone(), kind: self.kind, global_id: self.global_id }
    }
}

/// The views of a parameter list: each name with its declared type, in order.
pub open spec fn params_view(v: Seq<(String, Type)>) -> Seq<(Seq<char>, Type)> {
    v.map_values(|p: (String, Type)| (p.0@, p.1))
}

/// Copies a parameter list; the copy has the same view.
pub fn clone_params(v: &Vec<(String, Type)>) -> (r: Vec<(String, Type)>)
    ensures
        params_view(r@) == params_view(v@),
{
    let mut r: Vec<(String, Type)> = Vec::new();
    let mut i: usize = 0;
    while i < v.len()
        invariant
            i <= v.len(),
            r@.len() == i,
            forall|j: int| 0 <= j < i ==> r@[j].0@ == v@[j].0@ && r@[j].1 == v@[j].1,
        decreases v.len() - i,
    {
        r.push((v[i].0.clone(), v[i].1));
        i = i + 1;
    }
    proof {
        assert(params_view(r@) =~= params_view(v@));
    }
    r
}

/// A parameter list is fully typed iff no parameter's declared type is the
/// generic placeholder.
pub open spec fn all_typed(params: Seq<(Seq<char>, Type)>) -> bool {
    forall|i: int| 0 <= i < params.len() ==> params[i].1 != Type::Generic
}

/// Decides [`all_typed`] for a parameter list.
pub fn compute_typed(params: &Vec<(String, Type)>) -> (r: bool)
    ensures
        r == all_typed(params_view(params@)),
{
    let mut i: usize = 0;
    while i < params.len()
        invariant
            i <= params.len(),
            forall|j: int| 0 <= j < i ==> params_view(params@)[j].1 != Type::Generic,
        decreases params.len() - i,
    {
        if params[i].1 == Type::Generic {
            proof {
                assert(params_view(params@)[i as int].1 == Type::Generic);
            }
            return false;
        }
        i = i + 1;
    }
    true
}

/// What the function-declaration grammar hands over: the declared name, the
/// parameters in order, the declared return type, the body as raw, unparsed
/// tokens, and whether the function is public.
#[derive(Debug)]
pub struct FunctionDeclSyntax {
    pub name: String,
    pub args: Vec<(String, Type)>,
    pub return_type: Type,
    pub body: Vec<Token>,
    pub is_public: bool,
}

/// The mathematical value of a [`FunctionDeclSyntax`].
#[verifier::ext_equal]
pub ghost struct FunctionDeclSyntaxView {
    pub name: Seq<char>,
    pub args: Seq<(Seq<char>, Type)>,
    pub return_type: Type,
    pub body: Seq<TokenView>,
    pub is_public: bool,
}

impl View for FunctionDeclSyntax {
    type V = FunctionDeclSyntaxView;

    open spec fn view(&self) -> FunctionDeclSyntaxView {
        FunctionDeclSyntaxView {
            name: self.name@,
            args: params_view(self.args@),
            return_type: self.return_type,
            body: tokens_view(self.body@),
            is_public: self.is_public,
        }
    }
}

/// One declared function: the declaration syntax's data, the snapshot of the
/// parser state taken at declaration time (so the raw body can be re-parsed
/// per instantiation), whether the parameters are fully typed, and the unique
/// id the instance cache allocated for it.
#[derive(Debug)]
pub struct FunctionDecl {
    pub name: String,
    pub args: Vec<(String, Type)>,
    pub return_type: Type,
    pub body: Vec<Token>,
    pub meta: ParserMetadata,
    pub typed: bool,
    pub is_public: bool,
    pub id: usize,
}

/// The mathematical value of a [`FunctionDecl`].
#[verifier::ext_equal]
pub ghost struct FunctionDeclView {
    pub name: Seq<char>,
    pub args: Seq<(Seq<char>, Type)>,
    pub return_type: Type,
    pub body: Seq<TokenView>,
    pub meta: ParserMetadataView,
    pub typed: bool,
    pub is_public: bool,
    pub id: usize,
}

impl View for FunctionDecl {
    type V = FunctionDeclView;

    open spec fn view(&self) -> FunctionDeclView {
        FunctionDeclView {
            name: self.name@,
            args: params_view(self.args@),
            return_type: self.return_type,
            body: tokens_view(self.body@),
            meta: self.meta@,
            typed: self.typed,
            is_public: self.is_public,
            id: self.id,
        }
    }
}

impl Clone for FunctionDecl {
    fn clone(&self) -> (r: FunctionDecl)
        ensures
            r@ == self@,
    {
        let r = FunctionDecl {
            name: self.name.clone(),
            args: clone_params(&self.args),
            return_type: self.return_type,
            body: clone_tokens(&self.body),
            meta: self.meta.clone(),
            typed: self.typed,
            is_public: self.is_public,
            id: self.id,
        };
        proof {
            assert(r@ =~= self@);
        }
        r
    }
}

/// The views of the declarations of `v`, in order.
pub open spec fn decls_view(v: Seq<FunctionDecl>) -> Seq<FunctionDeclView> {
    v.map_values(|d: FunctionDecl| d@)
}

/// The views of the variable declarations of `v`, in order.
pub open spec fn var_decls_view(v: Seq<VariableDecl>) -> Seq<VariableDeclView> {
    v.map_values(|d: VariableDecl| d@)
}

} // verus!
