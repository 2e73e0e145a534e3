//! Definitions, namespaces and the name-resolution model.
//!
//! Upstream stages hand this crate three read-only inputs: per-item arenas of
//! type references, per-item signature data, and a name resolver.  `Db`
//! bundles those inputs.  Each definition kind is identified by a dense
//! index into the corresponding table, wrapped in a small id type.

use vstd::prelude::*;

use crate::type_ref::{LocalTypeRefId, TypeRefMap, map_wf};

verus! {

/// Identity of a module.
#[derive(Clone, Copy, Debug, PartialEq, Eq, Hash, Structural)]
pub struct Module(pub usize);

/// Identity of a function definition (an index into `Db::functions`).
#[derive(Clone, Copy, Debug, PartialEq, Eq, Hash, Structural)]
pub struct Function(pub usize);

/// Identity of a struct definition (an index into `Db::structs`).
#[derive(Clone, Copy, Debug, PartialEq, Eq, Hash, Structural)]
pub struct Struct(pub usize);

/// Identity of a type alias (an index into `Db::type_aliases`).
#[derive(Clone, Copy, Debug, PartialEq, Eq, Hash, Structural)]
pub struct TypeAlias(pub usize);

/// A path as the name resolver sees it: an interned name id.
#[derive(Clone, Copy, Debug, PartialEq, Eq, Hash, Structural)]
pub struct Path(pub usize);

/// The built-in integer kinds.
#[derive(Clone, Copy, Debug, PartialEq, Eq, Hash, Structural)]
pub enum IntKind {
    I8,
    I16,
    I32,
    I64,
    I128,
    U8,
    U16,
    U32,
    U64,
    U128,
}

/// The built-in floating-point kinds.
#[derive(Clone, Copy, Debug, PartialEq, Eq, Hash, Structural)]
pub enum FloatKind {
    F32,
    F64,
}

/// A primitive type as the name resolver reports it.
#[derive(Clone, Copy, Debug, PartialEq, Eq, Hash, Structural)]
pub enum PrimitiveType {
    Bool,
    Int(IntKind),
    Float(FloatKind),
}

/// The shape of a struct declaration.  Tuple structs have a synthesized
/// constructor function; record and unit structs do not.
#[derive(Clone, Copy, Debug, PartialEq, Eq, Hash, Structural)]
pub enum StructKind {
    Tuple,
    Record,
    Unit,
}

/// One name can denote a type and, independently, a value (for example a
/// tuple struct and its constructor).  A declared-type query always names
/// the namespace it asks about.
#[derive(Clone, Copy, Debug, PartialEq, Eq, Hash, Structural)]
pub enum Namespace {
    Types,
    Values,
}

/// Visibility of a definition: public, or restricted to one module.
#[derive(Clone, Copy, Debug, PartialEq, Eq, Hash, Structural)]
pub enum Visibility {
    Public,
    Restricted(Module),
}

impl Visibility {
    /// Whether a definition with this visibility can be named from `m`.
    pub open spec fn spec_is_visible_from(self, m: Module) -> bool {
        match self {
            Visibility::Public => true,
            Visibility::Restricted(owner) => owner == m,
        }
    }

    pub fn is_visible_from(&self, m: Module) -> (r: bool)
        ensures
            r == self.spec_is_visible_from(m),
    {
        match self {
            Visibility::Public => true,
            Visibility::Restricted(owner) => owner.0 == m.0,
        }
    }
}

/// An entry of the type namespace, as the name resolver reports it.
#[derive(Clone, Copy, Debug, PartialEq, Eq, Hash, Structural)]
pub enum TypeNs {
    StructId(Struct),
    TypeAliasId(TypeAlias),
    PrimitiveType(PrimitiveType),
}

/// Any definition a module can export.
#[derive(Clone, Copy, Debug, PartialEq, Eq, Hash, Structural)]
pub enum ModuleDef {
    Module(Module),
    Function(Function),
    PrimitiveType(PrimitiveType),
    Struct(Struct),
    TypeAlias(TypeAlias),
}

/// Signature data of one function: its arena, its parameter references in
/// declaration order, its return-type reference, and its location.
#[derive(Clone, Debug, PartialEq, Eq)]
pub struct FunctionData {
    pub type_ref_map: TypeRefMap,
    pub params: Vec<LocalTypeRefId>,
    pub ret: LocalTypeRefId,
    pub module: Module,
    pub visibility: Visibility,
}

/// Declaration data of one struct: its arena, the declared type reference of
/// each field in declaration order, its shape, and its location.
#[derive(Clone, Debug, PartialEq, Eq)]
pub struct StructData {
    pub type_ref_map: TypeRefMap,
    pub fields: Vec<LocalTypeRefId>,
    pub kind: StructKind,
    pub module: Module,
    pub visibility: Visibility,
}

/// Declaration data of one type alias: its arena, the reference of its
/// right-hand side, and its location.
#[derive(Clone, Debug, PartialEq, Eq)]
pub struct TypeAliasData {
    pub type_ref_map: TypeRefMap,
    pub type_ref: LocalTypeRefId,
    pub module: Module,
    pub visibility: Visibility,
}

/// One fact of the name resolver: from `module`, the path `path` resolves in
/// the type namespace to `entry`, which was declared with `visibility`.
#[derive(Clone, Copy, Debug, PartialEq, Eq)]
pub struct Resolution {
    pub module: Module,
    pub path: Path,
    pub entry: TypeNs,
    pub visibility: Visibility,
}

/// The read-only inputs of lowering: the item tables and the resolver facts.
#[derive(Clone, Debug, PartialEq, Eq)]
pub struct Db {
    pub functions: Vec<FunctionData>,
    pub structs: Vec<StructData>,
    pub type_aliases: Vec<TypeAliasData>,
    pub resolutions: Vec<Resolution>,
}

/// First resolver fact matching `(module, path)`, scanned front to back.
pub open spec fn resolve_in(rs: Seq<Resolution>, module: Module, path: Path) -> Option<
    (TypeNs, Visibility),
>
    decreases rs.len(),
{
    if rs.len() == 0 {
        None
    } else if rs[0].module == module && rs[0].path == path {
        Some((rs[0].entry, rs[0].visibility))
    } else {
        resolve_in(rs.drop_first(), module, path)
    }
}

impl Db {
    /// Every arena is well formed and every stored local id stays inside its
    /// own item's arena; every resolver entry names an existing definition.
    pub open spec fn wf(self) -> bool {
        &&& forall|i: int|
            0 <= i < self.functions@.len() ==> {
                let f = #[trigger] self.functions@[i];
                &&& map_wf(f.type_ref_map.refs@)
                &&& (f.ret as int) < f.type_ref_map.refs@.len()
                &&& forall|k: int|
                    0 <= k < f.params@.len() ==> (#[trigger] f.params@[k] as int)
                        < f.type_ref_map.refs@.len()
            }
        &&& forall|i: int|
            0 <= i < self.structs@.len() ==> {
                let s = #[trigger] self.structs@[i];
                &&& map_wf(s.type_ref_map.refs@)
                &&& forall|k: int|
                    0 <= k < s.fields@.len() ==> (#[trigger] s.fields@[k] as int)
                        < s.type_ref_map.refs@.len()
            }
        &&& forall|i: int|
            0 <= i < self.type_aliases@.len() ==> {
                let a = #[trigger] self.type_aliases@[i];
                &&& map_wf(a.type_ref_map.refs@)
                &&& (a.type_ref as int) < a.type_ref_map.refs@.len()
            }
        &&& forall|i: int|
            0 <= i < self.resolutions@.len() ==> match (#[trigger] self.resolutions@[i]).entry {
                TypeNs::StructId(s) => (s.0 as int) < self.structs@.len(),
                TypeNs::TypeAliasId(a) => (a.0 as int) < self.type_aliases@.len(),
                TypeNs::PrimitiveType(_) => true,
            }
    }

    /// What the name resolver answers for `path` asked from `module`.
    pub open spec fn spec_resolve(self, module: Module, path: Path) -> Option<
        (TypeNs, Visibility),
    > {
        resolve_in(self.resolutions@, module, path)
    }

    /// Resolves a path fully within the type namespace, scoped to `module`:
    /// the entry together with its declared visibility, or `None` when the
    /// name does not resolve.
    pub fn resolve_path_as_type_fully(&self, module: Module, path: Path) -> (r: Option<
        (TypeNs, Visibility),
    >)
        ensures
            r == self.spec_resolve(module, path),
    {
        let n = self.resolutions.len();
        let mut i: usize = 0;
        proof {
            assert(self.resolutions@.skip(0) =~= self.resolutions@);
        }
        while i < n
            invariant
                n == self.resolutions@.len(),
                i <= n,
                resolve_in(self.resolutions@, module, path) == resolve_in(
                    self.resolutions@.skip(i as int),
                    module,
                    path,
                ),
            decreases n - i,
        {
            let res = &self.resolutions[i];
            proof {
                assert(self.resolutions@.skip(i as int)[0] == self.resolutions@[i as int]);
                assert(self.resolutions@.skip(i as int).drop_first() =~= self.resolutions@.skip(
                    i as int + 1,
                ));
            }
            if res.module.0 == module.0 && res.path.0 == path.0 {
                return Some((res.entry, res.visibility));
            }
            i += 1;
        }
        proof {
            assert(self.resolutions@.skip(n as int) =~= Seq::<Resolution>::empty());
        }
        None
    }
}

} // verus!
