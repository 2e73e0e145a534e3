//! Syntactic type references.
//!
//! An item (a function, a struct or a type alias) owns an immutable arena of
//! type-reference nodes addressed by small, dense local ids.  The arena is
//! built bottom-up by the parser, so a node's children always have smaller
//! ids than the node itself; that ordering is what bounds the recursion of
//! the lowering algorithm over one arena.

use vstd::prelude::*;

use crate::item::Path;

verus! {

/// Local id of a type reference inside one item's arena.
pub type LocalTypeRefId = usize;

/// One syntactic type-reference node.
#[derive(Clone, Debug, PartialEq, Eq)]
pub enum TypeRef {
    /// A named reference, to be resolved in the type namespace.
    Path(Path),
    /// A tuple of child references, in source order.
    Tuple(Vec<LocalTypeRefId>),
    /// An array of one child reference.
    Array(LocalTypeRefId),
    /// The never type.
    Never,
    /// A placeholder for a reference the parser could not build; it was
    /// already reported by an earlier stage and lowers silently.
    Error,
}

/// A single node is well formed at position `id` when all of its children
/// have strictly smaller ids.
pub open spec fn type_ref_wf(r: TypeRef, id: int) -> bool {
    match r {
        TypeRef::Tuple(children) => forall|k: int|
            0 <= k < children@.len() ==> (children@[k] as int) < id,
        TypeRef::Array(c) => (c as int) < id,
        _ => true,
    }
}

/// An arena is well formed when every node only points down.
pub open spec fn map_wf(rs: Seq<TypeRef>) -> bool {
    forall|i: int| 0 <= i < rs.len() ==> type_ref_wf(#[trigger] rs[i], i)
}

/// An item's arena of type references.
#[derive(Clone, Debug, PartialEq, Eq)]
pub struct TypeRefMap {
    pub refs: Vec<TypeRef>,
}

impl TypeRefMap {
    /// The arena invariant: children precede their parents.
    pub open spec fn wf(self) -> bool {
        map_wf(self.refs@)
    }

    pub fn len(&self) -> (n: usize)
        ensures
            n == self.refs@.len(),
    {
        self.refs.len()
    }
}

} // verus!
