//! Semantic core of a source-to-source compiler: the lexical scope and symbol
//! engine, the function-instantiation (monomorphization) cache, the registry of
//! exported functions, and the three-phase expression-node contract
//! (construct, parse and type-check, translate) with the division operator as
//! its canonical instance.

pub mod types;
pub mod token;
pub mod metadata;
pub mod block;
pub mod function_map;
pub mod assoc;
pub mod decl;
pub mod exports;
pub mod order;
pub mod memory;
pub mod compute;
pub mod expression;
