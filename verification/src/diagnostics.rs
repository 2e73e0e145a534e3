//! Structured diagnostics of lowering.
//!
//! While an item is lowered, diagnostics carry only the local id of the
//! reference that triggered them; they are cheap to store and to cache.
//! Only when a result is flushed to the sink is each id resolved to a source
//! span through the item's source map.

use vstd::prelude::*;

use crate::type_ref::LocalTypeRefId;

verus! {

/// Identity of a source file.
pub type FileId = usize;

/// A byte range in a source file.
#[derive(Clone, Copy, Debug, PartialEq, Eq, Hash, Structural)]
pub struct Span {
    pub start: usize,
    pub end: usize,
}

/// Maps each local type-reference id of one item back to its source span.
#[derive(Clone, Debug, PartialEq, Eq)]
pub struct TypeRefSourceMap {
    pub spans: Vec<Span>,
}

impl TypeRefSourceMap {
    pub open spec fn spec_type_ref_syntax(self, id: LocalTypeRefId) -> Option<Span> {
        if (id as int) < self.spans@.len() {
            Some(self.spans@[id as int])
        } else {
            None
        }
    }

    /// The span of the reference `id`, if the map covers it.
    pub fn type_ref_syntax(&self, id: LocalTypeRefId) -> (r: Option<Span>)
        ensures
            r == self.spec_type_ref_syntax(id),
    {
        if id < self.spans.len() {
            Some(self.spans[id])
        } else {
            None
        }
    }
}

/// A diagnostic as produced during lowering, keyed by the local id of the
/// type reference that triggered it.
#[derive(Clone, Copy, Debug, PartialEq, Eq, Hash, Structural)]
pub enum LowerDiagnostic {
    /// The path did not resolve in the type namespace.
    UnresolvedType { id: LocalTypeRefId },
    /// The path resolved, but its target is not visible from the resolving
    /// module; the real type is still returned.
    TypeIsPrivate { id: LocalTypeRefId },
    /// The reference participates in a circular chain of type aliases.
    CyclicType { id: LocalTypeRefId },
}

impl LowerDiagnostic {
    /// The local reference id this diagnostic is keyed by.
    pub open spec fn spec_id(self) -> LocalTypeRefId {
        match self {
            LowerDiagnostic::UnresolvedType { id } => id,
            LowerDiagnostic::TypeIsPrivate { id } => id,
            LowerDiagnostic::CyclicType { id } => id,
        }
    }

    /// What `add_to` appends for this diagnostic once its id is resolved.
    pub open spec fn spec_resolved(self, file: FileId, source_map: TypeRefSourceMap) -> Diagnostic {
        match self {
            LowerDiagnostic::UnresolvedType { id } => Diagnostic::UnresolvedType {
                file,
                span: source_map.spans@[id as int],
            },
            LowerDiagnostic::TypeIsPrivate { id } => Diagnostic::PrivateAccess {
                file,
                span: source_map.spans@[id as int],
            },
            LowerDiagnostic::CyclicType { id } => Diagnostic::CyclicType {
                file,
                span: source_map.spans@[id as int],
            },
        }
    }

    /// Resolves this diagnostic's id through the source map and appends the
    /// materialized record to the sink.  Diagnostics only ever carry ids of
    /// the arena the source map was built for, so the id is always covered.
    pub fn add_to(&self, file_id: FileId, source_map: &TypeRefSourceMap, sink: &mut DiagnosticSink)
        requires
            (self.spec_id() as int) < source_map.spans@.len(),
        ensures
            final(sink).records@ == old(sink).records@.push(
                self.spec_resolved(file_id, *source_map),
            ),
    {
        match self {
            LowerDiagnostic::UnresolvedType { id } => {
                let span = source_map.spans[*id];
                sink.push(Diagnostic::UnresolvedType { file: file_id, span });
            },
            LowerDiagnostic::TypeIsPrivate { id } => {
                let span = source_map.spans[*id];
                sink.push(Diagnostic::PrivateAccess { file: file_id, span });
            },
            LowerDiagnostic::CyclicType { id } => {
                let span = source_map.spans[*id];
                sink.push(Diagnostic::CyclicType { file: file_id, span });
            },
        }
    }
}

/// A diagnostic record as the sink stores it, resolved to a source span.
#[derive(Clone, Copy, Debug, PartialEq, Eq, Hash, Structural)]
pub enum Diagnostic {
    UnresolvedType { file: FileId, span: Span },
    PrivateAccess { file: FileId, span: Span },
    CyclicType { file: FileId, span: Span },
}

/// An append-only sink of materialized diagnostics.
#[derive(Clone, Debug, PartialEq, Eq)]
pub struct DiagnosticSink {
    pub records: Vec<Diagnostic>,
}

impl DiagnosticSink {
    pub fn new() -> (r: DiagnosticSink)
        ensures
            r.records@ == Seq::<Diagnostic>::empty(),
    {
        DiagnosticSink { records: Vec::new() }
    }

    pub fn push(&mut self, d: Diagnostic)
        ensures
            final(self).records@ == old(self).records@.push(d),
    {
        self.records.push(d);
    }
}

} // verus!
