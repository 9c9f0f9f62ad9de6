//! The S-expression trees the parser consumes.  The tokenizer that turns
//! source text into such a tree is an outside collaborator; it hands the
//! library plain atoms and lists.

use vstd::prelude::*;

verus! {

/// One node of an S-expression tree.
#[derive(Debug)]
pub enum SExp {
    /// An integer atom.
    Int(i64),
    /// A symbol atom.
    Sym(String),
    /// A parenthesised list.
    List(Vec<SExp>),
    /// An atom of a kind the language has no use for (a float literal);
    /// the parser rejects it wherever it appears.
    Other,
}

} // verus!
