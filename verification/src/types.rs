use vstd::prelude::*;

verus! {

/// The source language's types: a closed, finite set of concrete types plus
/// one generic placeholder that stands for a type bound only at a call site.
#[derive(Clone, Copy, Debug, PartialEq, Eq, Structural)]
pub enum Type {
    Null,
    Text,
    Bool,
    Num,
    /// The placeholder of a generic parameter; a declaration with one of these
    /// among its parameter types is not fully typed.
    Generic,
}

} // verus!
