//! Lowering of type references to semantic types.
//!
//! The recursive algorithm walks one item's arena of type references,
//! resolves paths through the name resolver, dispatches declared-type
//! queries by definition kind and namespace, and records diagnostics for
//! unresolved names, visibility violations and cyclic aliases.  An explicit
//! in-progress stack of aliases under computation detects cycles; every
//! participant of a cycle receives the recovery type `Unknown`.

use std::sync::Arc;

use vstd::prelude::*;
use vstd::set_lib::{lemma_int_range, lemma_len_subset, set_int_range};

use crate::diagnostics::{DiagnosticSink, FileId, LowerDiagnostic, TypeRefSourceMap};
use crate::item::{
    Db, Function, Module, ModuleDef, Namespace, Path, PrimitiveType, Struct, TypeAlias, TypeNs,
    StructKind, Visibility, resolve_in,
};
use crate::ty::{
    FnSig, Interner, Ty, TyData, TyTree, data_wf, lemma_ty_of_extend, lemma_tys_of_index,
    lemma_tys_of_len, ty_of, tys_of,
};
use crate::type_ref::{LocalTypeRefId, TypeRef, TypeRefMap, map_wf};

verus! {

/// Any definition that has a declared type in some namespace.
#[derive(Clone, Copy, Debug, PartialEq, Eq, Hash, Structural)]
pub enum TypableDef {
    Function(Function),
    PrimitiveType(PrimitiveType),
    Struct(Struct),
    TypeAlias(TypeAlias),
}

/// A definition with an invocable signature: a function, or a tuple struct
/// through its synthesized constructor.
#[derive(Clone, Copy, Debug, PartialEq, Eq, Hash, Structural)]
pub enum CallableDef {
    Function(Function),
    Struct(Struct),
}

impl CallableDef {
    pub fn is_function(self) -> (r: bool)
        ensures
            r == (self is Function),
    {
        matches!(self, CallableDef::Function(_))
    }

    pub fn is_struct(self) -> (r: bool)
        ensures
            r == (self is Struct),
    {
        matches!(self, CallableDef::Struct(_))
    }

    /// The declared visibility of the underlying definition.
    pub fn visibility(&self, db: &Db) -> (r: Visibility)
        requires
            callable_def_valid(*db, *self),
        ensures
            r == (match *self {
                CallableDef::Function(f) => db.functions@[f.0 as int].visibility,
                CallableDef::Struct(s) => db.structs@[s.0 as int].visibility,
            }),
    {
        match self {
            CallableDef::Function(f) => db.functions[f.0].visibility,
            CallableDef::Struct(s) => db.structs[s.0].visibility,
        }
    }
}

impl core::convert::From<Function> for TypableDef {
    fn from(f: Function) -> (r: TypableDef) {
        TypableDef::Function(f)
    }
}

impl vstd::std_specs::convert::FromSpecImpl<Function> for TypableDef {
    open spec fn obeys_from_spec() -> bool {
        true
    }

    open spec fn from_spec(f: Function) -> TypableDef {
        TypableDef::Function(f)
    }
}

impl core::convert::From<PrimitiveType> for TypableDef {
    fn from(t: PrimitiveType) -> (r: TypableDef) {
        TypableDef::PrimitiveType(t)
    }
}

impl vstd::std_specs::convert::FromSpecImpl<PrimitiveType> for TypableDef {
    open spec fn obeys_from_spec() -> bool {
        true
    }

    open spec fn from_spec(t: PrimitiveType) -> TypableDef {
        TypableDef::PrimitiveType(t)
    }
}

impl core::convert::From<Struct> for TypableDef {
    fn from(s: Struct) -> (r: TypableDef) {
        TypableDef::Struct(s)
    }
}

impl vstd::std_specs::convert::FromSpecImpl<Struct> for TypableDef {
    open spec fn obeys_from_spec() -> bool {
        true
    }

    open spec fn from_spec(s: Struct) -> TypableDef {
        TypableDef::Struct(s)
    }
}

/// The typable view of a module export: everything but a module itself has
/// a declared type.
pub open spec fn typable_of_module_def(d: ModuleDef) -> Option<TypableDef> {
    match d {
        ModuleDef::Function(f) => Option::Some(TypableDef::Function(f)),
        ModuleDef::PrimitiveType(t) => Option::Some(TypableDef::PrimitiveType(t)),
        ModuleDef::Struct(s) => Option::Some(TypableDef::Struct(s)),
        ModuleDef::TypeAlias(t) => Option::Some(TypableDef::TypeAlias(t)),
        ModuleDef::Module(_) => Option::None,
    }
}

impl core::convert::From<ModuleDef> for Option<TypableDef> {
    fn from(d: ModuleDef) -> (r: Option<TypableDef>) {
        match d {
            ModuleDef::Function(f) => Option::Some(TypableDef::Function(f)),
            ModuleDef::PrimitiveType(t) => Option::Some(TypableDef::PrimitiveType(t)),
            ModuleDef::Struct(s) => Option::Some(TypableDef::Struct(s)),
            ModuleDef::TypeAlias(t) => Option::Some(TypableDef::TypeAlias(t)),
            ModuleDef::Module(_) => Option::None,
        }
    }
}

impl vstd::std_specs::convert::FromSpecImpl<ModuleDef> for Option<TypableDef> {
    open spec fn obeys_from_spec() -> bool {
        true
    }

    open spec fn from_spec(d: ModuleDef) -> Option<TypableDef> {
        typable_of_module_def(d)
    }
}

impl core::convert::From<Function> for CallableDef {
    fn from(f: Function) -> (r: CallableDef) {
        CallableDef::Function(f)
    }
}

impl vstd::std_specs::convert::FromSpecImpl<Function> for CallableDef {
    open spec fn obeys_from_spec() -> bool {
        true
    }

    open spec fn from_spec(f: Function) -> CallableDef {
        CallableDef::Function(f)
    }
}

impl core::convert::From<Struct> for CallableDef {
    fn from(s: Struct) -> (r: CallableDef) {
        CallableDef::Struct(s)
    }
}

impl vstd::std_specs::convert::FromSpecImpl<Struct> for CallableDef {
    open spec fn obeys_from_spec() -> bool {
        true
    }

    open spec fn from_spec(s: Struct) -> CallableDef {
        CallableDef::Struct(s)
    }
}

/// Whether a definition's index lies inside its table of `db`.
pub open spec fn typable_def_valid(db: Db, def: TypableDef) -> bool {
    match def {
        TypableDef::Function(f) => (f.0 as int) < db.functions@.len(),
        TypableDef::PrimitiveType(_) => true,
        TypableDef::Struct(s) => (s.0 as int) < db.structs@.len(),
        TypableDef::TypeAlias(a) => (a.0 as int) < db.type_aliases@.len(),
    }
}

/// The in-progress stack holds ids of aliases under computation: no alias
/// twice, every id inside the alias table.
pub open spec fn stack_ok(db: Db, stack: Seq<usize>) -> bool {
    &&& stack.no_duplicates()
    &&& forall|i: int| 0 <= i < stack.len() ==> ((#[trigger] stack[i]) as int)
        < db.type_aliases@.len()
}

pub open spec fn ctx_ok(db: Db, stack: Seq<usize>) -> bool {
    db.wf() && stack_ok(db, stack)
}

/// A well-formed in-progress stack can never be longer than the alias table,
/// which is what bounds the depth of alias recursion.
pub proof fn lemma_stack_len_le(stack: Seq<usize>, n: int)
    requires
        stack.no_duplicates(),
        forall|i: int| 0 <= i < stack.len() ==> ((#[trigger] stack[i]) as int) < n,
        0 <= n,
    ensures
        stack.len() <= n,
{
    let f = |x: usize| x as int;
    let t = stack.map_values(f);
    assert(vstd::relations::injective(f)) by {
        assert(forall|x: usize, y: usize| #[trigger] f(x) == #[trigger] f(y) ==> x == y);
    }
    stack.lemma_no_duplicates_injective(f);
    t.unique_seq_to_set();
    assert(t.to_set().subset_of(set_int_range(0, n))) by {
        assert forall|x: int| t.to_set().contains(x) implies set_int_range(0, n).contains(x) by {
            let i = choose|i: int| 0 <= i < t.len() && t[i] == x;
            assert(t.contains(x));
            assert(t[i] == f(stack[i]));
        }
    }
    lemma_int_range(0, n);
    lemma_len_subset(t.to_set(), set_int_range(0, n));
}

/// Pushing an alias that is not yet in progress keeps the stack well formed.
pub proof fn lemma_stack_push_ok(db: Db, stack: Seq<usize>, a: usize)
    requires
        stack_ok(db, stack),
        !stack.contains(a),
        (a as int) < db.type_aliases@.len(),
    ensures
        stack_ok(db, stack.push(a)),
        stack.push(a).len() <= db.type_aliases@.len(),
{
    let ext = stack.push(a);
    assert forall|i: int, j: int|
        0 <= i < ext.len() && 0 <= j < ext.len() && i != j implies ext[i] != ext[j] by {
        if i < stack.len() && j < stack.len() {
        } else if i == stack.len() {
            assert(!stack.contains(a));
            assert(ext[j] == stack[j]);
        } else {
            assert(!stack.contains(a));
            assert(ext[i] == stack[i]);
        }
    }
    lemma_stack_len_le(ext, db.type_aliases@.len() as int);
}

/// The ghost outcome of lowering one type reference: the structural type,
/// the diagnostics in the order they are recorded, and the innermost stack
/// frame of a still-unresolved cycle, if the walk re-entered one.
pub struct LoweredRef {
    pub ty: TyTree,
    pub diags: Seq<LowerDiagnostic>,
    pub pending: Option<usize>,
}

/// The ghost outcome of lowering a list of sibling references.
pub struct LoweredList {
    pub tys: Seq<TyTree>,
    pub diags: Seq<LowerDiagnostic>,
    pub pending: Option<usize>,
}

/// The ghost outcome of resolving and dispatching one path.
pub struct LoweredPath {
    pub ty: TyTree,
    pub cyclic: bool,
    pub private: bool,
    pub pending: Option<usize>,
}

/// The ghost outcome of a declared-type query.
pub struct DeclaredTy {
    pub ty: TyTree,
    pub cyclic: bool,
    pub pending: Option<usize>,
}

/// The outermost of two still-pending cycle frames.
pub open spec fn pending_min(a: Option<usize>, b: Option<usize>) -> Option<usize> {
    match (a, b) {
        (Option::None, y) => y,
        (x, Option::None) => x,
        (Option::Some(x), Option::Some(y)) => if x <= y {
            Option::Some(x)
        } else {
            Option::Some(y)
        },
    }
}

/// The declared type of a primitive.
pub open spec fn primitive_ty_spec(t: PrimitiveType) -> TyTree {
    match t {
        PrimitiveType::Bool => TyTree::Bool,
        PrimitiveType::Int(k) => TyTree::Int(k),
        PrimitiveType::Float(k) => TyTree::Float(k),
    }
}

/// What lowering the reference `r` of the arena `map`, scoped to `module`,
/// yields while the aliases of `stack` are under computation.
pub open spec fn lower_ref_spec(
    db: Db,
    module: Module,
    map: Seq<TypeRef>,
    r: int,
    stack: Seq<usize>,
) -> LoweredRef
    decreases db.type_aliases@.len() - stack.len(), r, 3int, 0int,
        when ctx_ok(db, stack) && map_wf(map)
{
    if 0 <= r < map.len() {
        match map[r] {
            TypeRef::Error => LoweredRef {
                ty: TyTree::Unknown,
                diags: Seq::empty(),
                pending: Option::None,
            },
            TypeRef::Never => LoweredRef {
                ty: TyTree::Never,
                diags: Seq::empty(),
                pending: Option::None,
            },
            TypeRef::Tuple(children) => {
                let sub = lower_refs_spec(db, module, map, children@, r, stack);
                LoweredRef {
                    ty: TyTree::Tuple(children@.len(), sub.tys),
                    diags: sub.diags,
                    pending: sub.pending,
                }
            },
            TypeRef::Array(c) => {
                if (c as int) < r {
                    let sub = lower_ref_spec(db, module, map, c as int, stack);
                    LoweredRef {
                        ty: TyTree::Array(Box::new(sub.ty)),
                        diags: sub.diags,
                        pending: sub.pending,
                    }
                } else {
                    LoweredRef { ty: TyTree::Unknown, diags: Seq::empty(), pending: Option::None }
                }
            },
            TypeRef::Path(p) => match lower_path_spec(db, module, p, stack) {
                Option::Some(pr) => LoweredRef {
                    ty: pr.ty,
                    diags: (if pr.private {
                        seq![LowerDiagnostic::TypeIsPrivate { id: r as usize }]
                    } else {
                        Seq::empty()
                    }) + (if pr.cyclic {
                        seq![LowerDiagnostic::CyclicType { id: r as usize }]
                    } else {
                        Seq::empty()
                    }),
                    pending: pr.pending,
                },
                Option::None => LoweredRef {
                    ty: TyTree::Unknown,
                    diags: seq![LowerDiagnostic::UnresolvedType { id: r as usize }],
                    pending: Option::None,
                },
            },
        }
    } else {
        LoweredRef { ty: TyTree::Unknown, diags: Seq::empty(), pending: Option::None }
    }
}

/// Lowers sibling references in order; `bound` is the id of their parent,
/// which every child id lies below in a well-formed arena.
pub open spec fn lower_refs_spec(
    db: Db,
    module: Module,
    map: Seq<TypeRef>,
    rs: Seq<LocalTypeRefId>,
    bound: int,
    stack: Seq<usize>,
) -> LoweredList
    decreases db.type_aliases@.len() - stack.len(), bound, 2int, rs.len(),
        when ctx_ok(db, stack) && map_wf(map)
{
    if rs.len() == 0 {
        LoweredList { tys: Seq::empty(), diags: Seq::empty(), pending: Option::None }
    } else {
        let head = if (rs[0] as int) < bound {
            lower_ref_spec(db, module, map, rs[0] as int, stack)
        } else {
            LoweredRef { ty: TyTree::Unknown, diags: Seq::empty(), pending: Option::None }
        };
        let rest = lower_refs_spec(db, module, map, rs.drop_first(), bound, stack);
        LoweredList {
            tys: seq![head.ty] + rest.tys,
            diags: head.diags + rest.diags,
            pending: pending_min(head.pending, rest.pending),
        }
    }
}

/// Resolves one path in the type namespace and queries the declared type of
/// what it names; `None` when the name does not resolve.
pub open spec fn lower_path_spec(db: Db, module: Module, p: Path, stack: Seq<usize>) -> Option<
    LoweredPath,
>
    decreases db.type_aliases@.len() - stack.len(), 0int, 1int, 0int,
        when ctx_ok(db, stack)
{
    match db.spec_resolve(module, p) {
        Option::None => Option::None,
        Option::Some((entry, vis)) => {
            let def = match entry {
                TypeNs::StructId(s) => TypableDef::Struct(s),
                TypeNs::TypeAliasId(a) => TypableDef::TypeAlias(a),
                TypeNs::PrimitiveType(t) => TypableDef::PrimitiveType(t),
            };
            let d = declared_ty_spec(db, def, Namespace::Types, stack);
            Option::Some(
                LoweredPath {
                    ty: d.ty,
                    cyclic: d.cyclic,
                    private: !vis.spec_is_visible_from(module),
                    pending: d.pending,
                },
            )
        },
    }
}

/// The declared type of `def` in `ns`: the namespace-aware dispatch table.
/// The type-alias/Types pair is the sole recursion point; re-entering an
/// alias already on the stack yields the cycle-recovery sentinel, and every
/// alias whose frame still encloses an unresolved re-entry resolves to the
/// recovery type and reports itself cyclic.
pub open spec fn declared_ty_spec(
    db: Db,
    def: TypableDef,
    ns: Namespace,
    stack: Seq<usize>,
) -> DeclaredTy
    decreases db.type_aliases@.len() - stack.len(), 0int, 0int, 0int,
        when ctx_ok(db, stack)
{
    match (def, ns) {
        (TypableDef::Function(f), Namespace::Values) => DeclaredTy {
            ty: TyTree::FnDef(CallableDef::Function(f), Seq::empty()),
            cyclic: false,
            pending: Option::None,
        },
        (TypableDef::PrimitiveType(t), Namespace::Types) => DeclaredTy {
            ty: primitive_ty_spec(t),
            cyclic: false,
            pending: Option::None,
        },
        (TypableDef::Struct(s), Namespace::Values) => DeclaredTy {
            ty: if (s.0 as int) < db.structs@.len() && db.structs@[s.0 as int].kind
                == StructKind::Tuple {
                TyTree::FnDef(CallableDef::Struct(s), Seq::empty())
            } else {
                TyTree::Struct(s)
            },
            cyclic: false,
            pending: Option::None,
        },
        (TypableDef::Struct(s), Namespace::Types) => DeclaredTy {
            ty: TyTree::Struct(s),
            cyclic: false,
            pending: Option::None,
        },
        (TypableDef::TypeAlias(a), Namespace::Types) => {
            if (a.0 as int) < db.type_aliases@.len() {
                if stack.contains(a.0) {
                    DeclaredTy {
                        ty: TyTree::Unknown,
                        cyclic: true,
                        pending: Option::Some(stack.index_of(a.0) as usize),
                    }
                } else {
                    proof {
                        lemma_stack_push_ok(db, stack, a.0);
                    }
                    let data = db.type_aliases@[a.0 as int];
                    let sub = lower_ref_spec(
                        db,
                        data.module,
                        data.type_ref_map.refs@,
                        data.type_ref as int,
                        stack.push(a.0),
                    );
                    match sub.pending {
                        Option::None => DeclaredTy {
                            ty: sub.ty,
                            cyclic: false,
                            pending: Option::None,
                        },
                        Option::Some(m) => DeclaredTy {
                            ty: TyTree::Unknown,
                            cyclic: true,
                            pending: if m == stack.len() {
                                Option::None
                            } else {
                                Option::Some(m)
                            },
                        },
                    }
                }
            } else {
                DeclaredTy { ty: TyTree::Unknown, cyclic: false, pending: Option::None }
            }
        },
        // mismatched pairs: a function has no type-namespace presence, a
        // primitive and an alias have no value-namespace presence
        (TypableDef::Function(_), Namespace::Types) => DeclaredTy {
            ty: TyTree::Unknown,
            cyclic: false,
            pending: Option::None,
        },
        (TypableDef::PrimitiveType(_), Namespace::Values) => DeclaredTy {
            ty: TyTree::Unknown,
            cyclic: false,
            pending: Option::None,
        },
        (TypableDef::TypeAlias(_), Namespace::Values) => DeclaredTy {
            ty: TyTree::Unknown,
            cyclic: false,
            pending: Option::None,
        },
    }
}

fn pending_min_exec(a: Option<usize>, b: Option<usize>) -> (r: Option<usize>)
    ensures
        r == pending_min(a, b),
{
    match (a, b) {
        (Option::None, y) => y,
        (x, Option::None) => x,
        (Option::Some(x), Option::Some(y)) => if x <= y {
            Option::Some(x)
        } else {
            Option::Some(y)
        },
    }
}

/// Position of `a` on the in-progress stack, if it is there.
fn find_in_stack(stack: &Vec<usize>, a: usize) -> (r: Option<usize>)
    ensures
        match r {
            Option::Some(idx) => (idx as int) < stack@.len() && stack@[idx as int] == a,
            Option::None => !stack@.contains(a),
        },
{
    let n = stack.len();
    let mut i: usize = 0;
    while i < n
        invariant
            n == stack@.len(),
            i <= n,
            forall|k: int| 0 <= k < i ==> stack@[k] != a,
        decreases n - i,
    {
        if stack[i] == a {
            return Option::Some(i);
        }
        i += 1;
    }
    Option::None
}

/// The recovery value substituted for every participant of a detected cycle
/// of declared-type queries: the recovery type, marked cyclic.
pub fn type_for_cycle_recover(it: &Interner) -> (r: (Ty, bool))
    requires
        it.wf(),
    ensures
        it.owns(r.0),
        it.tree(r.0) == TyTree::Unknown,
        r.1 == true,
{
    (it.unknown(), true)
}

/// Lowers the reference `r` while the aliases on `stack` are in progress.
fn lower_ref_rec(
    db: &Db,
    it: &mut Interner,
    module: Module,
    map: &TypeRefMap,
    diags: &mut Vec<LowerDiagnostic>,
    r: LocalTypeRefId,
    stack: &mut Vec<usize>,
) -> (res: (Ty, Option<usize>))
    requires
        db.wf(),
        old(it).wf(),
        map.wf(),
        stack_ok(*db, old(stack)@),
        (r as int) < map.refs@.len(),
    ensures
        final(it).wf(),
        old(it).table@.is_prefix_of(final(it).table@),
        final(stack)@ == old(stack)@,
        ({
            let s = lower_ref_spec(*db, module, map.refs@, r as int, old(stack)@);
            &&& (res.0.0 as int) < final(it).table@.len()
            &&& ty_of(final(it).table@, res.0.0 as int) == s.ty
            &&& final(diags)@ == old(diags)@ + s.diags
            &&& res.1 == s.pending
        }),
    decreases db.type_aliases@.len() - old(stack)@.len(), r as int, 3int, 0int,
{
    let ghost s = lower_ref_spec(*db, module, map.refs@, r as int, old(stack)@);
    let tr = &map.refs[r];
    match tr {
        TypeRef::Error => {
            let u = it.unknown();
            proof {
                assert(diags@ =~= old(diags)@ + s.diags);
            }
            (u, Option::None)
        },
        TypeRef::Never => {
            let t = it.intern(TyData::Never);
            proof {
                assert(it.table@[t.0 as int] == TyData::Never);
                assert(diags@ =~= old(diags)@ + s.diags);
            }
            (t, Option::None)
        },
        TypeRef::Tuple(children) => {
            proof {
                assert(crate::type_ref::type_ref_wf(map.refs@[r as int], r as int));
            }
            let (tys, pending) = lower_refs_rec(db, it, module, map, children, 0, r, diags, stack);
            let ghost mid = it.table@;
            let ghost l = lower_refs_spec(
                *db,
                module,
                map.refs@,
                children@,
                r as int,
                old(stack)@,
            );
            let n = tys.len();
            let h = it.intern(TyData::Tuple(n, tys));
            proof {
                assert(children@.skip(0) =~= children@);
                let table = it.table@;
                let stored = table[h.0 as int];
                assert(stored is Tuple);
                let elems = stored->Tuple_1;
                lemma_tys_of_len(table, elems@, h.0 as int);
                lemma_refs_tys_len(*db, module, map.refs@, children@, r as int, old(stack)@);
                assert forall|k: int| 0 <= k < elems@.len() implies tys_of(
                    table,
                    elems@,
                    h.0 as int,
                )[k] == l.tys[k] by {
                    assert(data_wf(stored, h.0 as int));
                    assert((elems@[k].0 as int) < h.0 as int);
                    lemma_tys_of_index(table, elems@, h.0 as int, k);
                    lemma_ty_of_extend(mid, table, elems@[k].0 as int);
                }
                assert(tys_of(table, elems@, h.0 as int) =~= l.tys);
            }
            (h, pending)
        },
        TypeRef::Array(c) => {
            proof {
                assert(crate::type_ref::type_ref_wf(map.refs@[r as int], r as int));
            }
            let (e, p) = lower_ref_rec(db, it, module, map, diags, *c, stack);
            let ghost mid = it.table@;
            let h = it.intern(TyData::Array(e));
            proof {
                let table = it.table@;
                let stored = table[h.0 as int];
                assert(stored is Array && stored->Array_0 == e);
                assert(data_wf(stored, h.0 as int));
                lemma_ty_of_extend(mid, table, e.0 as int);
            }
            (h, p)
        },
        TypeRef::Path(p) => {
            let (found, pending) = lower_path_rec(db, it, module, *p, r, diags, stack);
            match found {
                Option::Some((ty, cyclic)) => {
                    if cyclic {
                        diags.push(LowerDiagnostic::CyclicType { id: r });
                    }
                    proof {
                        assert(diags@ =~= old(diags)@ + s.diags);
                    }
                    (ty, pending)
                },
                Option::None => {
                    diags.push(LowerDiagnostic::UnresolvedType { id: r });
                    let u = it.unknown();
                    proof {
                        assert(diags@ =~= old(diags)@ + s.diags);
                    }
                    (u, pending)
                },
            }
        },
    }
}

/// A lowered sibling list has one type per sibling.
pub proof fn lemma_refs_tys_len(
    db: Db,
    module: Module,
    map: Seq<TypeRef>,
    rs: Seq<LocalTypeRefId>,
    bound: int,
    stack: Seq<usize>,
)
    requires
        ctx_ok(db, stack),
        map_wf(map),
    ensures
        lower_refs_spec(db, module, map, rs, bound, stack).tys.len() == rs.len(),
    decreases rs.len(),
{
    if rs.len() > 0 {
        lemma_refs_tys_len(db, module, map, rs.drop_first(), bound, stack);
    }
}

/// Lowers the sibling references `children[i..]` of the parent node `bound`.
fn lower_refs_rec(
    db: &Db,
    it: &mut Interner,
    module: Module,
    map: &TypeRefMap,
    children: &Vec<LocalTypeRefId>,
    i: usize,
    bound: LocalTypeRefId,
    diags: &mut Vec<LowerDiagnostic>,
    stack: &mut Vec<usize>,
) -> (res: (Vec<Ty>, Option<usize>))
    requires
        db.wf(),
        old(it).wf(),
        map.wf(),
        stack_ok(*db, old(stack)@),
        i <= children@.len(),
        (bound as int) < map.refs@.len(),
        forall|k: int| 0 <= k < children@.len() ==> (#[trigger] children@[k] as int) < bound,
    ensures
        final(it).wf(),
        old(it).table@.is_prefix_of(final(it).table@),
        final(stack)@ == old(stack)@,
        ({
            let l = lower_refs_spec(
                *db,
                module,
                map.refs@,
                children@.skip(i as int),
                bound as int,
                old(stack)@,
            );
            &&& res.0@.len() == children@.len() - i
            &&& forall|k: int|
                0 <= k < res.0@.len() ==> ((#[trigger] res.0@[k]).0 as int)
                    < final(it).table@.len()
                    && ty_of(final(it).table@, res.0@[k].0 as int) == l.tys[k]
            &&& final(diags)@ == old(diags)@ + l.diags
            &&& res.1 == l.pending
        }),
    decreases db.type_aliases@.len() - old(stack)@.len(), bound as int, 2int, children@.len() - i,
{
    let ghost l = lower_refs_spec(
        *db,
        module,
        map.refs@,
        children@.skip(i as int),
        bound as int,
        old(stack)@,
    );
    if i == children.len() {
        proof {
            assert(children@.skip(i as int) =~= Seq::<LocalTypeRefId>::empty());
            assert(diags@ =~= old(diags)@ + l.diags);
        }
        (Vec::new(), Option::None)
    } else {
        proof {
            assert(children@.skip(i as int)[0] == children@[i as int]);
            assert(children@.skip(i as int).drop_first() =~= children@.skip(i as int + 1));
        }
        let c = children[i];
        let (t0, p0) = lower_ref_rec(db, it, module, map, diags, c, stack);
        let ghost mid = it.table@;
        let (mut rest, p1) = lower_refs_rec(db, it, module, map, children, i + 1, bound, diags, stack);
        rest.insert(0, t0);
        let p = pending_min_exec(p0, p1);
        proof {
            let table = it.table@;
            lemma_ty_of_extend(mid, table, t0.0 as int);
            lemma_refs_tys_len(
                *db,
                module,
                map.refs@,
                children@.skip(i as int + 1),
                bound as int,
                old(stack)@,
            );
            assert(diags@ =~= old(diags)@ + l.diags);
            assert forall|k: int| 0 <= k < rest@.len() implies ((#[trigger] rest@[k]).0 as int)
                < table.len() && ty_of(table, rest@[k].0 as int) == l.tys[k] by {
                if k == 0 {
                } else {
                    assert(rest@[k] == rest@.subrange(1, rest@.len() as int)[k - 1]);
                }
            }
        }
        (rest, p)
    }
}

/// Resolves the path reference `r`, records its diagnostics, and returns its
/// type together with any still-pending cycle frame.
fn lower_path_rec(
    db: &Db,
    it: &mut Interner,
    module: Module,
    p: Path,
    r: LocalTypeRefId,
    diags: &mut Vec<LowerDiagnostic>,
    stack: &mut Vec<usize>,
) -> (res: (Option<(Ty, bool)>, Option<usize>))
    requires
        db.wf(),
        old(it).wf(),
        stack_ok(*db, old(stack)@),
    ensures
        final(it).wf(),
        old(it).table@.is_prefix_of(final(it).table@),
        final(stack)@ == old(stack)@,
        ({
            match lower_path_spec(*db, module, p, old(stack)@) {
                Option::Some(pr) => {
                    &&& res.0 matches Option::Some(tc)
                    &&& (tc.0.0 as int) < final(it).table@.len()
                    &&& ty_of(final(it).table@, tc.0.0 as int) == pr.ty
                    &&& tc.1 == pr.cyclic
                    &&& final(diags)@ == old(diags)@ + (if pr.private {
                        seq![LowerDiagnostic::TypeIsPrivate { id: r }]
                    } else {
                        Seq::empty()
                    })
                    &&& res.1 == pr.pending
                },
                Option::None => {
                    &&& res.0 is None
                    &&& final(diags)@ == old(diags)@
                    &&& res.1 == Option::None::<usize>
                },
            }
        }),
    decreases db.type_aliases@.len() - old(stack)@.len(), 0int, 1int, 0int,
{
    match db.resolve_path_as_type_fully(module, p) {
        Option::None => (Option::None, Option::None),
        Option::Some((entry, vis)) => {
            let def = match entry {
                TypeNs::StructId(s) => TypableDef::Struct(s),
                TypeNs::TypeAliasId(a) => TypableDef::TypeAlias(a),
                TypeNs::PrimitiveType(t) => TypableDef::PrimitiveType(t),
            };
            proof {
                lemma_resolution_valid(*db, module, p);
            }
            if !vis.is_visible_from(module) {
                diags.push(LowerDiagnostic::TypeIsPrivate { id: r });
            }
            proof {
                assert(diags@ =~= old(diags)@ + (if !vis.spec_is_visible_from(module) {
                    seq![LowerDiagnostic::TypeIsPrivate { id: r }]
                } else {
                    Seq::<LowerDiagnostic>::empty()
                }));
            }
            let (ty, cyclic, pending) = declared_ty_rec(db, it, def, Namespace::Types, stack);
            (Option::Some((ty, cyclic)), pending)
        },
    }
}

/// A successful resolution always names a definition that exists in `db`.
proof fn lemma_resolution_valid(db: Db, module: Module, p: Path)
    requires
        db.wf(),
        db.spec_resolve(module, p) is Some,
    ensures
        match db.spec_resolve(module, p)->Some_0.0 {
            TypeNs::StructId(s) => (s.0 as int) < db.structs@.len(),
            TypeNs::TypeAliasId(a) => (a.0 as int) < db.type_aliases@.len(),
            TypeNs::PrimitiveType(_) => true,
        },
{
    lemma_resolve_in_valid(db, db.resolutions@, module, p);
}

proof fn lemma_resolve_in_valid(db: Db, rs: Seq<crate::item::Resolution>, module: Module, p: Path)
    requires
        db.wf(),
        forall|i: int| 0 <= i < rs.len() ==> db.resolutions@.contains(#[trigger] rs[i]),
        resolve_in(rs, module, p) is Some,
    ensures
        match resolve_in(rs, module, p)->Some_0.0 {
            TypeNs::StructId(s) => (s.0 as int) < db.structs@.len(),
            TypeNs::TypeAliasId(a) => (a.0 as int) < db.type_aliases@.len(),
            TypeNs::PrimitiveType(_) => true,
        },
    decreases rs.len(),
{
    if rs.len() > 0 {
        if rs[0].module == module && rs[0].path == p {
            assert(db.resolutions@.contains(rs[0]));
            let w = choose|i: int|
                0 <= i < db.resolutions@.len() && db.resolutions@[i] == rs[0];
            assert(db.resolutions@[w] == rs[0]);
        } else {
            assert(forall|i: int|
                0 <= i < rs.drop_first().len() ==> db.resolutions@.contains(
                    #[trigger] rs.drop_first()[i],
                ));
            lemma_resolve_in_valid(db, rs.drop_first(), module, p);
        }
    }
}

/// Computes the declared type of `def` in `ns` while the aliases of `stack`
/// are under computation: the dispatch table of the lowering engine, with
/// the in-progress bookkeeping of its sole recursion point.
fn declared_ty_rec(
    db: &Db,
    it: &mut Interner,
    def: TypableDef,
    ns: Namespace,
    stack: &mut Vec<usize>,
) -> (res: (Ty, bool, Option<usize>))
    requires
        db.wf(),
        old(it).wf(),
        stack_ok(*db, old(stack)@),
        typable_def_valid(*db, def),
    ensures
        final(it).wf(),
        old(it).table@.is_prefix_of(final(it).table@),
        final(stack)@ == old(stack)@,
        ({
            let d = declared_ty_spec(*db, def, ns, old(stack)@);
            &&& (res.0.0 as int) < final(it).table@.len()
            &&& ty_of(final(it).table@, res.0.0 as int) == d.ty
            &&& res.1 == d.cyclic
            &&& res.2 == d.pending
        }),
    decreases db.type_aliases@.len() - old(stack)@.len(), 0int, 0int, 0int,
{
    match (def, ns) {
        (TypableDef::Function(f), Namespace::Values) => {
            let t = type_for_fn(it, f);
            (t, false, Option::None)
        },
        (TypableDef::PrimitiveType(t), Namespace::Types) => {
            let h = type_for_primitive(it, t);
            (h, false, Option::None)
        },
        (TypableDef::Struct(s), Namespace::Values) => {
            let h = type_for_struct_constructor(db, it, s);
            (h, false, Option::None)
        },
        (TypableDef::Struct(s), Namespace::Types) => {
            let h = type_for_struct(it, s);
            (h, false, Option::None)
        },
        (TypableDef::TypeAlias(a), Namespace::Types) => {
            match find_in_stack(stack, a.0) {
                Option::Some(idx) => {
                    // the chain re-entered an alias already being computed
                    let (u, cyclic) = type_for_cycle_recover(it);
                    proof {
                        let spec_idx = old(stack)@.index_of(a.0);
                        assert(old(stack)@.contains(a.0));
                        assert(0 <= spec_idx < old(stack)@.len() && old(stack)@[spec_idx] == a.0);
                        assert(idx as int == spec_idx);
                    }
                    (u, cyclic, Option::Some(idx))
                },
                Option::None => {
                    let my_idx = stack.len();
                    proof {
                        lemma_stack_push_ok(*db, old(stack)@, a.0);
                    }
                    stack.push(a.0);
                    let data = &db.type_aliases[a.0];
                    let mut scratch: Vec<LowerDiagnostic> = Vec::new();
                    let (ty, pending) = lower_ref_rec(
                        db,
                        it,
                        data.module,
                        &data.type_ref_map,
                        &mut scratch,
                        data.type_ref,
                        stack,
                    );
                    stack.pop();
                    proof {
                        assert(stack@ =~= old(stack)@);
                    }
                    match pending {
                        Option::None => (ty, false, Option::None),
                        Option::Some(m) => {
                            let u = it.unknown();
                            let propagated = if m == my_idx {
                                Option::None
                            } else {
                                Option::Some(m)
                            };
                            (u, true, propagated)
                        },
                    }
                },
            }
        },
        (TypableDef::Function(_), Namespace::Types) => (it.unknown(), false, Option::None),
        (TypableDef::PrimitiveType(_), Namespace::Values) => (it.unknown(), false, Option::None),
        (TypableDef::TypeAlias(_), Namespace::Values) => (it.unknown(), false, Option::None),
    }
}

/// Builds the declared type of a function: its unique `FnDef` type with an
/// empty substitution.
pub fn type_for_fn(it: &mut Interner, f: Function) -> (r: Ty)
    requires
        old(it).wf(),
    ensures
        final(it).wf(),
        old(it).table@.is_prefix_of(final(it).table@),
        final(it).owns(r),
        final(it).tree(r) == TyTree::FnDef(CallableDef::Function(f), Seq::<TyTree>::empty()),
{
    let h = it.intern(TyData::FnDef(CallableDef::Function(f), Vec::new()));
    proof {
        let table = it.table@;
        let stored = table[h.0 as int];
        assert(stored is FnDef && stored->FnDef_0 == CallableDef::Function(f)
            && stored->FnDef_1@ =~= Seq::<Ty>::empty());
        lemma_tys_of_len(table, stored->FnDef_1@, h.0 as int);
        assert(tys_of(table, stored->FnDef_1@, h.0 as int) =~= Seq::<TyTree>::empty());
    }
    h
}

/// Builds the declared type of a primitive: its kind mapped directly.
pub fn type_for_primitive(it: &mut Interner, def: PrimitiveType) -> (r: Ty)
    requires
        old(it).wf(),
    ensures
        final(it).wf(),
        old(it).table@.is_prefix_of(final(it).table@),
        final(it).owns(r),
        final(it).tree(r) == primitive_ty_spec(def),
{
    let data = match def {
        PrimitiveType::Bool => TyData::Bool,
        PrimitiveType::Int(k) => TyData::Int(k),
        PrimitiveType::Float(k) => TyData::Float(k),
    };
    it.intern(data)
}

/// Builds the type of a struct by identity.
pub fn type_for_struct(it: &mut Interner, def: Struct) -> (r: Ty)
    requires
        old(it).wf(),
    ensures
        final(it).wf(),
        old(it).table@.is_prefix_of(final(it).table@),
        final(it).owns(r),
        final(it).tree(r) == TyTree::Struct(def),
{
    it.intern(TyData::Struct(def))
}

/// Builds the type of a struct used as a value: tuple structs have a
/// synthesized constructor function, record and unit structs are their own
/// Types-namespace type.
pub fn type_for_struct_constructor(db: &Db, it: &mut Interner, def: Struct) -> (r: Ty)
    requires
        db.wf(),
        old(it).wf(),
        (def.0 as int) < db.structs@.len(),
    ensures
        final(it).wf(),
        old(it).table@.is_prefix_of(final(it).table@),
        final(it).owns(r),
        final(it).tree(r) == (if db.structs@[def.0 as int].kind == StructKind::Tuple {
            TyTree::FnDef(CallableDef::Struct(def), Seq::<TyTree>::empty())
        } else {
            TyTree::Struct(def)
        }),
{
    let is_tuple = match db.structs[def.0].kind {
        StructKind::Tuple => true,
        _ => false,
    };
    if is_tuple {
        let h = it.intern(TyData::FnDef(CallableDef::Struct(def), Vec::new()));
        proof {
            let table = it.table@;
            let stored = table[h.0 as int];
            lemma_tys_of_len(table, stored->FnDef_1@, h.0 as int);
            assert(tys_of(table, stored->FnDef_1@, h.0 as int) =~= Seq::<TyTree>::empty());
        }
        h
    } else {
        it.intern(TyData::Struct(def))
    }
}

/// One memoized declared-type fact.
#[derive(Clone, Copy, Debug, PartialEq, Eq)]
pub struct DeclaredTyEntry {
    pub def: TypableDef,
    pub ns: Namespace,
    pub ty: Ty,
}

/// The memo table of declared-type queries, keyed by `(definition,
/// namespace)`.  Only non-cyclic final results are ever stored: the cycle
/// recovery value never becomes a definition's cached declared type.
pub struct DeclaredTyCache {
    pub entries: Vec<DeclaredTyEntry>,
}

/// One cached fact restates what a fresh query would answer.
pub open spec fn cache_entry_ok(db: Db, table: Seq<TyData>, e: DeclaredTyEntry) -> bool {
    &&& typable_def_valid(db, e.def)
    &&& (e.ty.0 as int) < table.len()
    &&& ty_of(table, e.ty.0 as int) == declared_ty_spec(db, e.def, e.ns, Seq::empty()).ty
    &&& !declared_ty_spec(db, e.def, e.ns, Seq::empty()).cyclic
}

impl DeclaredTyCache {
    /// Every cached fact restates what a fresh query would answer.
    pub open spec fn ok(self, db: Db, table: Seq<TyData>) -> bool {
        forall|i: int|
            0 <= i < self.entries@.len() ==> cache_entry_ok(db, table, #[trigger] self.entries@[i])
    }

    pub fn new() -> (r: DeclaredTyCache)
        ensures
            r.entries@ == Seq::<DeclaredTyEntry>::empty(),
    {
        DeclaredTyCache { entries: Vec::new() }
    }
}

/// The memoized declared-type query: answers from the cache when it can,
/// computes and remembers otherwise.  A result that participated in a cycle
/// is returned but never cached.
pub fn type_for_def_query(
    db: &Db,
    it: &mut Interner,
    cache: &mut DeclaredTyCache,
    def: TypableDef,
    ns: Namespace,
) -> (r: (Ty, bool))
    requires
        db.wf(),
        old(it).wf(),
        old(cache).ok(*db, old(it).table@),
        typable_def_valid(*db, def),
    ensures
        final(it).wf(),
        old(it).table@.is_prefix_of(final(it).table@),
        final(cache).ok(*db, final(it).table@),
        final(it).owns(r.0),
        final(it).tree(r.0) == declared_ty_spec(*db, def, ns, Seq::empty()).ty,
        r.1 == declared_ty_spec(*db, def, ns, Seq::empty()).cyclic,
{
    let n = cache.entries.len();
    let mut i: usize = 0;
    while i < n
        invariant
            n == cache.entries@.len(),
            i <= n,
            *cache == *old(cache),
            *it == *old(it),
            old(it).wf(),
            old(cache).ok(*db, old(it).table@),
            db.wf(),
            typable_def_valid(*db, def),
        decreases n - i,
    {
        let e = cache.entries[i];
        if e.def == def && e.ns == ns {
            proof {
                assert(cache_entry_ok(*db, old(it).table@, old(cache).entries@[i as int]));
            }
            return (e.ty, false);
        }
        i += 1;
    }
    let (ty, cyclic) = type_for_def(db, it, def, ns);
    if !cyclic {
        cache.entries.push(DeclaredTyEntry { def, ns, ty });
    }
    proof {
        assert forall|k: int| 0 <= k < cache.entries@.len() implies cache_entry_ok(
            *db,
            it.table@,
            #[trigger] cache.entries@[k],
        ) by {
            if k < old(cache).entries@.len() {
                assert(cache_entry_ok(*db, old(it).table@, old(cache).entries@[k]));
                lemma_ty_of_extend(
                    old(it).table@,
                    it.table@,
                    old(cache).entries@[k].ty.0 as int,
                );
            }
        }
    }
    (ty, cyclic)
}

/// Builds the declared type of an item.  This depends on the namespace; for
/// a tuple struct there are two types: the type of the struct itself, and
/// the constructor function living in the values namespace.  The second
/// component reports whether the query participated in a cycle.
pub fn type_for_def(db: &Db, it: &mut Interner, def: TypableDef, ns: Namespace) -> (r: (Ty, bool))
    requires
        db.wf(),
        old(it).wf(),
        typable_def_valid(*db, def),
    ensures
        final(it).wf(),
        old(it).table@.is_prefix_of(final(it).table@),
        final(it).owns(r.0),
        final(it).tree(r.0) == declared_ty_spec(*db, def, ns, Seq::empty()).ty,
        r.1 == declared_ty_spec(*db, def, ns, Seq::empty()).cyclic,
{
    let mut stack: Vec<usize> = Vec::new();
    let (ty, cyclic, _pending) = declared_ty_rec(db, it, def, ns, &mut stack);
    (ty, cyclic)
}

/// Builds the declared type of a type alias: its right-hand side, lowered in
/// the alias's own scope.  Diagnostics belong to the alias item's own
/// lowering pass and are not reported here.
pub fn type_for_type_alias(db: &Db, it: &mut Interner, def: TypeAlias) -> (r: Ty)
    requires
        db.wf(),
        old(it).wf(),
        (def.0 as int) < db.type_aliases@.len(),
    ensures
        final(it).wf(),
        old(it).table@.is_prefix_of(final(it).table@),
        final(it).owns(r),
        ({
            let data = db.type_aliases@[def.0 as int];
            final(it).tree(r) == lower_ref_spec(
                *db,
                data.module,
                data.type_ref_map.refs@,
                data.type_ref as int,
                Seq::empty(),
            ).ty
        }),
{
    let data = &db.type_aliases[def.0];
    let (ty, _diags) = Ty::from_hir(db, it, data.module, &data.type_ref_map, data.type_ref);
    ty
}

impl Ty {
    /// Lowers one type reference, returning the type together with the
    /// diagnostics encountered along the way.
    pub fn from_hir(
        db: &Db,
        it: &mut Interner,
        module: Module,
        type_ref_map: &TypeRefMap,
        type_ref: LocalTypeRefId,
    ) -> (r: (Ty, Vec<LowerDiagnostic>))
        requires
            db.wf(),
            old(it).wf(),
            type_ref_map.wf(),
            (type_ref as int) < type_ref_map.refs@.len(),
        ensures
            final(it).wf(),
            old(it).table@.is_prefix_of(final(it).table@),
            final(it).owns(r.0),
            final(it).tree(r.0) == lower_ref_spec(
                *db,
                module,
                type_ref_map.refs@,
                type_ref as int,
                Seq::empty(),
            ).ty,
            r.1@ == lower_ref_spec(
                *db,
                module,
                type_ref_map.refs@,
                type_ref as int,
                Seq::empty(),
            ).diags,
    {
        let mut diagnostics: Vec<LowerDiagnostic> = Vec::new();
        let ty = Ty::from_hir_with_diagnostics(
            db,
            it,
            module,
            type_ref_map,
            &mut diagnostics,
            type_ref,
        );
        (ty, diagnostics)
    }

    /// Lowers one type reference, appending any diagnostics encountered to
    /// `diagnostics`.
    pub fn from_hir_with_diagnostics(
        db: &Db,
        it: &mut Interner,
        module: Module,
        type_ref_map: &TypeRefMap,
        diagnostics: &mut Vec<LowerDiagnostic>,
        type_ref: LocalTypeRefId,
    ) -> (r: Ty)
        requires
            db.wf(),
            old(it).wf(),
            type_ref_map.wf(),
            (type_ref as int) < type_ref_map.refs@.len(),
        ensures
            final(it).wf(),
            old(it).table@.is_prefix_of(final(it).table@),
            final(it).owns(r),
            final(it).tree(r) == lower_ref_spec(
                *db,
                module,
                type_ref_map.refs@,
                type_ref as int,
                Seq::empty(),
            ).ty,
            final(diagnostics)@ == old(diagnostics)@ + lower_ref_spec(
                *db,
                module,
                type_ref_map.refs@,
                type_ref as int,
                Seq::empty(),
            ).diags,
    {
        let mut stack: Vec<usize> = Vec::new();
        let (ty, _pending) = lower_ref_rec(db, it, module, type_ref_map, diagnostics, type_ref, &mut stack);
        ty
    }

    /// Constructs a `Ty` from a path reference: resolves the path, reports a
    /// visibility violation without suppressing the type, and queries the
    /// declared type in the type namespace.  `None` when the path does not
    /// resolve.
    pub fn from_path(
        db: &Db,
        it: &mut Interner,
        module: Module,
        type_ref: LocalTypeRefId,
        path: Path,
        diagnostics: &mut Vec<LowerDiagnostic>,
    ) -> (r: Option<(Ty, bool)>)
        requires
            db.wf(),
            old(it).wf(),
        ensures
            final(it).wf(),
            old(it).table@.is_prefix_of(final(it).table@),
            ({
                match lower_path_spec(*db, module, path, Seq::empty()) {
                    Option::Some(pr) => {
                        &&& r matches Option::Some(tc)
                        &&& final(it).owns(tc.0)
                        &&& final(it).tree(tc.0) == pr.ty
                        &&& tc.1 == pr.cyclic
                        &&& final(diagnostics)@ == old(diagnostics)@ + (if pr.private {
                            seq![LowerDiagnostic::TypeIsPrivate { id: type_ref }]
                        } else {
                            Seq::empty()
                        })
                    },
                    Option::None => {
                        &&& r is None
                        &&& final(diagnostics)@ == old(diagnostics)@
                    },
                }
            }),
    {
        let mut stack: Vec<usize> = Vec::new();
        let (found, _pending) = lower_path_rec(
            db,
            it,
            module,
            path,
            type_ref,
            diagnostics,
            &mut stack,
        );
        found
    }
}

/// The diagnostics of lowering the references `0..upto` of one arena, in
/// visiting order.
pub open spec fn item_diags_spec(db: Db, module: Module, map: Seq<TypeRef>, upto: int) -> Seq<
    LowerDiagnostic,
>
    decreases upto,
{
    if upto <= 0 {
        Seq::empty()
    } else {
        item_diags_spec(db, module, map, upto - 1) + lower_ref_spec(
            db,
            module,
            map,
            upto - 1,
            Seq::empty(),
        ).diags
    }
}

/// A per-item lowering result: the resolved type of every local reference,
/// plus the diagnostics produced while lowering the item.
#[derive(Clone, Debug, PartialEq, Eq)]
pub struct LowerTyMap {
    pub type_ref_to_type: Vec<Option<Ty>>,
    pub diagnostics: Vec<LowerDiagnostic>,
    pub unknown_ty: Ty,
}

impl Default for LowerTyMap {
    fn default() -> (r: LowerTyMap)
        ensures
            r.type_ref_to_type@ == Seq::<Option<Ty>>::empty(),
            r.diagnostics@ == Seq::<LowerDiagnostic>::empty(),
            r.unknown_ty == Ty(0),
    {
        LowerTyMap { type_ref_to_type: Vec::new(), diagnostics: Vec::new(), unknown_ty: Ty(0) }
    }
}

impl LowerTyMap {
    /// Indexing is total: a reference the result holds no entry for reads as
    /// the recovery type.
    pub open spec fn spec_index(self, id: LocalTypeRefId) -> Ty {
        if (id as int) < self.type_ref_to_type@.len() {
            match self.type_ref_to_type@[id as int] {
                Option::Some(t) => t,
                Option::None => self.unknown_ty,
            }
        } else {
            self.unknown_ty
        }
    }

    /// The resolved type of the local reference `id`.  Never fails: absent
    /// entries yield the recovery type.
    pub fn index(&self, id: LocalTypeRefId) -> (r: Ty)
        ensures
            r == self.spec_index(id),
    {
        if id < self.type_ref_to_type.len() {
            match self.type_ref_to_type[id] {
                Option::Some(t) => t,
                Option::None => self.unknown_ty,
            }
        } else {
            self.unknown_ty
        }
    }

    /// Resolves all stored diagnostics through the item's source map, in
    /// order, and appends the materialized records to the sink.
    pub fn add_diagnostics(
        &self,
        file_id: FileId,
        source_map: &TypeRefSourceMap,
        sink: &mut DiagnosticSink,
    )
        requires
            forall|k: int|
                0 <= k < self.diagnostics@.len() ==> ((#[trigger] self.diagnostics@[k]).spec_id()
                    as int) < source_map.spans@.len(),
        ensures
            final(sink).records@ == old(sink).records@ + self.diagnostics@.map_values(
                |d: LowerDiagnostic| d.spec_resolved(file_id, *source_map),
            ),
    {
        let ghost resolved = self.diagnostics@.map_values(
            |d: LowerDiagnostic| d.spec_resolved(file_id, *source_map),
        );
        let n = self.diagnostics.len();
        let mut k: usize = 0;
        proof {
            assert(sink.records@ =~= old(sink).records@ + resolved.take(0));
        }
        while k < n
            invariant
                n == self.diagnostics@.len(),
                k <= n,
                resolved == self.diagnostics@.map_values(
                    |d: LowerDiagnostic| d.spec_resolved(file_id, *source_map),
                ),
                forall|j: int|
                    0 <= j < n ==> ((#[trigger] self.diagnostics@[j]).spec_id() as int)
                        < source_map.spans@.len(),
                sink.records@ == old(sink).records@ + resolved.take(k as int),
            decreases n - k,
        {
            self.diagnostics[k].add_to(file_id, source_map, sink);
            proof {
                assert(resolved.take(k as int + 1) =~= resolved.take(k as int).push(
                    resolved[k as int],
                ));
            }
            k += 1;
        }
        proof {
            assert(resolved.take(n as int) =~= resolved);
        }
    }
}

/// What a whole-item lowering result promises, relative to the interning
/// table it was built against.
pub open spec fn lowering_result_ok(
    db: Db,
    module: Module,
    map: Seq<TypeRef>,
    table: Seq<TyData>,
    m: LowerTyMap,
) -> bool {
    &&& m.type_ref_to_type@.len() == map.len()
    &&& forall|i: int|
        0 <= i < map.len() ==> {
            let e = #[trigger] m.type_ref_to_type@[i];
            &&& e is Some
            &&& (e->Some_0.0 as int) < table.len()
            &&& ty_of(table, e->Some_0.0 as int) == lower_ref_spec(
                db,
                module,
                map,
                i,
                Seq::empty(),
            ).ty
        }
    &&& m.diagnostics@ == item_diags_spec(db, module, map, map.len() as int)
    &&& m.unknown_ty == Ty(0)
}

/// Resolves every reference of the arena — all of them, not only those
/// reachable from some root, since diagnostics are owed for unused
/// references too — and returns one immutable result for the item.
pub fn types_from_hir(
    db: &Db,
    it: &mut Interner,
    module: Module,
    type_ref_map: &TypeRefMap,
) -> (r: Arc<LowerTyMap>)
    requires
        db.wf(),
        old(it).wf(),
        type_ref_map.wf(),
    ensures
        final(it).wf(),
        old(it).table@.is_prefix_of(final(it).table@),
        lowering_result_ok(*db, module, type_ref_map.refs@, final(it).table@, *r),
{
    let n = type_ref_map.len();
    let mut entries: Vec<Option<Ty>> = Vec::new();
    let mut diagnostics: Vec<LowerDiagnostic> = Vec::new();
    let mut id: usize = 0;
    while id < n
        invariant
            db.wf(),
            type_ref_map.wf(),
            n == type_ref_map.refs@.len(),
            id <= n,
            it.wf(),
            old(it).table@.is_prefix_of(it.table@),
            entries@.len() == id,
            forall|j: int|
                0 <= j < id ==> {
                    let e = #[trigger] entries@[j];
                    &&& e is Some
                    &&& (e->Some_0.0 as int) < it.table@.len()
                    &&& ty_of(it.table@, e->Some_0.0 as int) == lower_ref_spec(
                        *db,
                        module,
                        type_ref_map.refs@,
                        j,
                        Seq::empty(),
                    ).ty
                },
            diagnostics@ == item_diags_spec(*db, module, type_ref_map.refs@, id as int),
        decreases n - id,
    {
        let ghost mid = it.table@;
        let ty = Ty::from_hir_with_diagnostics(db, it, module, type_ref_map, &mut diagnostics, id);
        entries.push(Option::Some(ty));
        proof {
            assert forall|j: int| 0 <= j < entries@.len() - 1 implies {
                let e = #[trigger] entries@[j];
                &&& e is Some
                &&& (e->Some_0.0 as int) < it.table@.len()
                &&& ty_of(it.table@, e->Some_0.0 as int) == lower_ref_spec(
                    *db,
                    module,
                    type_ref_map.refs@,
                    j,
                    Seq::empty(),
                ).ty
            } by {
                lemma_ty_of_extend(mid, it.table@, entries@[j]->Some_0.0 as int);
            }
        }
        id += 1;
    }
    Arc::new(LowerTyMap { type_ref_to_type: entries, diagnostics, unknown_ty: Ty(0) })
}

/// Resolves all types in the declaration of the struct `s`, in `s`'s own
/// lexical scope.
pub fn lower_struct_query(db: &Db, it: &mut Interner, s: Struct) -> (r: Arc<LowerTyMap>)
    requires
        db.wf(),
        old(it).wf(),
        (s.0 as int) < db.structs@.len(),
    ensures
        final(it).wf(),
        old(it).table@.is_prefix_of(final(it).table@),
        lowering_result_ok(
            *db,
            db.structs@[s.0 as int].module,
            db.structs@[s.0 as int].type_ref_map.refs@,
            final(it).table@,
            *r,
        ),
{
    let data = &db.structs[s.0];
    types_from_hir(db, it, data.module, &data.type_ref_map)
}

/// Resolves all types in the declaration of the type alias `t`, in `t`'s own
/// lexical scope.
pub fn lower_type_alias_query(db: &Db, it: &mut Interner, t: TypeAlias) -> (r: Arc<LowerTyMap>)
    requires
        db.wf(),
        old(it).wf(),
        (t.0 as int) < db.type_aliases@.len(),
    ensures
        final(it).wf(),
        old(it).table@.is_prefix_of(final(it).table@),
        lowering_result_ok(
            *db,
            db.type_aliases@[t.0 as int].module,
            db.type_aliases@[t.0 as int].type_ref_map.refs@,
            final(it).table@,
            *r,
        ),
{
    let data = &db.type_aliases[t.0];
    types_from_hir(db, it, data.module, &data.type_ref_map)
}

/// Whether a callable definition's index lies inside its table of `db`.
pub open spec fn callable_def_valid(db: Db, def: CallableDef) -> bool {
    match def {
        CallableDef::Function(f) => (f.0 as int) < db.functions@.len(),
        CallableDef::Struct(s) => (s.0 as int) < db.structs@.len(),
    }
}

/// What one signature slot (a parameter or the return type) lowers to, in
/// the owning item's own scope.
pub open spec fn sig_slot_spec(
    db: Db,
    module: Module,
    map: Seq<TypeRef>,
    r: LocalTypeRefId,
) -> TyTree {
    lower_ref_spec(db, module, map, r as int, Seq::empty()).ty
}

/// The invocable signature of a callable definition: for a function its
/// declared parameter and return types, for a struct the field types of the
/// synthesized constructor returning the struct's own type.
pub fn callable_item_sig(db: &Db, it: &mut Interner, def: CallableDef) -> (r: FnSig)
    requires
        db.wf(),
        old(it).wf(),
        callable_def_valid(*db, def),
    ensures
        final(it).wf(),
        old(it).table@.is_prefix_of(final(it).table@),
        ({
            match def {
                CallableDef::Function(f) => {
                    let data = db.functions@[f.0 as int];
                    &&& r.params@.len() == data.params@.len()
                    &&& forall|k: int|
                        0 <= k < r.params@.len() ==> ((#[trigger] r.params@[k]).0 as int)
                            < final(it).table@.len() && final(it).tree(r.params@[k])
                            == sig_slot_spec(
                            *db,
                            data.module,
                            data.type_ref_map.refs@,
                            data.params@[k],
                        )
                    &&& final(it).owns(r.ret)
                    &&& final(it).tree(r.ret) == sig_slot_spec(
                        *db,
                        data.module,
                        data.type_ref_map.refs@,
                        data.ret,
                    )
                },
                CallableDef::Struct(s) => {
                    let data = db.structs@[s.0 as int];
                    &&& r.params@.len() == data.fields@.len()
                    &&& forall|k: int|
                        0 <= k < r.params@.len() ==> ((#[trigger] r.params@[k]).0 as int)
                            < final(it).table@.len() && final(it).tree(r.params@[k])
                            == sig_slot_spec(
                            *db,
                            data.module,
                            data.type_ref_map.refs@,
                            data.fields@[k],
                        )
                    &&& final(it).owns(r.ret)
                    &&& final(it).tree(r.ret) == TyTree::Struct(s)
                },
            }
        }),
{
    match def {
        CallableDef::Function(f) => fn_sig_for_fn(db, it, f),
        CallableDef::Struct(s) => fn_sig_for_struct_constructor(db, it, s),
    }
}

/// The declared signature of a function: every parameter reference lowered
/// in declaration order, then the return-type reference, all in the
/// function's own lexical scope.  This never looks at the function's body.
pub fn fn_sig_for_fn(db: &Db, it: &mut Interner, f: Function) -> (r: FnSig)
    requires
        db.wf(),
        old(it).wf(),
        (f.0 as int) < db.functions@.len(),
    ensures
        final(it).wf(),
        old(it).table@.is_prefix_of(final(it).table@),
        ({
            let data = db.functions@[f.0 as int];
            &&& r.params@.len() == data.params@.len()
            &&& forall|k: int|
                0 <= k < r.params@.len() ==> ((#[trigger] r.params@[k]).0 as int)
                    < final(it).table@.len() && final(it).tree(r.params@[k]) == sig_slot_spec(
                    *db,
                    data.module,
                    data.type_ref_map.refs@,
                    data.params@[k],
                )
            &&& final(it).owns(r.ret)
            &&& final(it).tree(r.ret) == sig_slot_spec(
                *db,
                data.module,
                data.type_ref_map.refs@,
                data.ret,
            )
        }),
{
    let data = &db.functions[f.0];
    let params = lower_sig_slots(db, it, data.module, &data.type_ref_map, &data.params);
    let ghost mid = it.table@;
    let (ret, _diags) = Ty::from_hir(db, it, data.module, &data.type_ref_map, data.ret);
    proof {
        assert forall|k: int| 0 <= k < params@.len() implies ((#[trigger] params@[k]).0 as int)
            < it.table@.len() && it.tree(params@[k]) == sig_slot_spec(
            *db,
            data.module,
            data.type_ref_map.refs@,
            data.params@[k],
        ) by {
            lemma_ty_of_extend(mid, it.table@, params@[k].0 as int);
        }
    }
    FnSig::from_params_and_return(params, ret)
}

/// The signature of a struct's synthesized constructor: every field's
/// declared type reference lowered in declaration order, returning the
/// struct's own Types-namespace type.
pub fn fn_sig_for_struct_constructor(db: &Db, it: &mut Interner, s: Struct) -> (r: FnSig)
    requires
        db.wf(),
        old(it).wf(),
        (s.0 as int) < db.structs@.len(),
    ensures
        final(it).wf(),
        old(it).table@.is_prefix_of(final(it).table@),
        ({
            let data = db.structs@[s.0 as int];
            &&& r.params@.len() == data.fields@.len()
            &&& forall|k: int|
                0 <= k < r.params@.len() ==> ((#[trigger] r.params@[k]).0 as int)
                    < final(it).table@.len() && final(it).tree(r.params@[k]) == sig_slot_spec(
                    *db,
                    data.module,
                    data.type_ref_map.refs@,
                    data.fields@[k],
                )
            &&& final(it).owns(r.ret)
            &&& final(it).tree(r.ret) == TyTree::Struct(s)
        }),
{
    let data = &db.structs[s.0];
    let params = lower_sig_slots(db, it, data.module, &data.type_ref_map, &data.fields);
    let ghost mid = it.table@;
    let ret = type_for_struct(it, s);
    proof {
        assert forall|k: int| 0 <= k < params@.len() implies ((#[trigger] params@[k]).0 as int)
            < it.table@.len() && it.tree(params@[k]) == sig_slot_spec(
            *db,
            data.module,
            data.type_ref_map.refs@,
            data.fields@[k],
        ) by {
            lemma_ty_of_extend(mid, it.table@, params@[k].0 as int);
        }
    }
    FnSig::from_params_and_return(params, ret)
}

/// Lowers a list of signature slots in order, each in a fresh walk.
fn lower_sig_slots(
    db: &Db,
    it: &mut Interner,
    module: Module,
    map: &TypeRefMap,
    slots: &Vec<LocalTypeRefId>,
) -> (r: Vec<Ty>)
    requires
        db.wf(),
        old(it).wf(),
        map.wf(),
        forall|k: int| 0 <= k < slots@.len() ==> (#[trigger] slots@[k] as int) < map.refs@.len(),
    ensures
        final(it).wf(),
        old(it).table@.is_prefix_of(final(it).table@),
        r@.len() == slots@.len(),
        forall|k: int|
            0 <= k < r@.len() ==> ((#[trigger] r@[k]).0 as int) < final(it).table@.len()
                && final(it).tree(r@[k]) == sig_slot_spec(*db, module, map.refs@, slots@[k]),
{
    let n = slots.len();
    let mut out: Vec<Ty> = Vec::new();
    let mut k: usize = 0;
    while k < n
        invariant
            db.wf(),
            map.wf(),
            n == slots@.len(),
            k <= n,
            it.wf(),
            old(it).table@.is_prefix_of(it.table@),
            forall|j: int| 0 <= j < n ==> (#[trigger] slots@[j] as int) < map.refs@.len(),
            out@.len() == k,
            forall|j: int|
                0 <= j < k ==> ((#[trigger] out@[j]).0 as int) < it.table@.len() && it.tree(
                    out@[j],
                ) == sig_slot_spec(*db, module, map.refs@, slots@[j]),
        decreases n - k,
    {
        let ghost mid = it.table@;
        let (ty, _diags) = Ty::from_hir(db, it, module, map, slots[k]);
        out.push(ty);
        proof {
            assert forall|j: int| 0 <= j < out@.len() - 1 implies ((#[trigger] out@[j]).0 as int)
                < it.table@.len() && it.tree(out@[j]) == sig_slot_spec(
                *db,
                module,
                map.refs@,
                slots@[j],
            ) by {
                lemma_ty_of_extend(mid, it.table@, out@[j].0 as int);
            }
        }
        k += 1;
    }
    out
}

} // verus!
