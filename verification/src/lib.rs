//! Declared-type resolution for a compiler front end.
//!
//! The crate lowers syntactic type references (paths, tuples, arrays, the
//! never type and error placeholders) that appear in function signatures,
//! struct fields and type aliases into canonical semantic types.  Lowering
//! is total: unresolved names, visibility violations and circular type
//! definitions are reported as structured diagnostics while a well-defined
//! recovery type is substituted, and every computation terminates.
//!
//! Semantic types are interned in a session-scoped table so that
//! structurally equal types are identity-equal handles; an explicit
//! in-progress stack detects cycles among mutually recursive type aliases.

pub mod diagnostics;
pub mod item;
pub mod laws;
pub mod lower;
pub mod ty;
pub mod type_ref;
