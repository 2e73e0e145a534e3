//! The crate-level guarantees of the lowering engine, each proved once and
//! for all inputs: determinism of whole-item lowering, recovery on
//! unresolved and cyclic references, non-suppression of private types, the
//! two declared types of a tuple struct, and structural composition of
//! tuples and arrays.  The companion guarantee that interning makes
//! structural equality a handle comparison is `ty::lemma_interning_identity`.

use vstd::prelude::*;

use crate::diagnostics::LowerDiagnostic;
use crate::item::{Db, Module, Namespace, Path, StructKind, Struct, TypeNs, Visibility};
use crate::lower::{
    CallableDef, TypableDef, ctx_ok, declared_ty_spec, lower_ref_spec, lower_refs_spec,
    lower_path_spec, lowering_result_ok, LowerTyMap,
};
use crate::ty::{
    TyData, TyTree, interner_inv, lemma_interning_identity, lemma_ty_of_extend, ty_of,
};
use crate::type_ref::{LocalTypeRefId, TypeRef, map_wf};

verus! {

/// Lowering an unchanged item is deterministic: two whole-item results for
/// the same database, scope and arena agree entry for entry, diagnostic for
/// diagnostic, even when the second run found the interning table already
/// grown by the first.
pub proof fn lemma_lowering_deterministic(
    db: Db,
    module: Module,
    map: Seq<TypeRef>,
    t1: Seq<TyData>,
    t2: Seq<TyData>,
    m1: LowerTyMap,
    m2: LowerTyMap,
)
    requires
        interner_inv(t1),
        interner_inv(t2),
        t1.is_prefix_of(t2),
        lowering_result_ok(db, module, map, t1, m1),
        lowering_result_ok(db, module, map, t2, m2),
    ensures
        m1.type_ref_to_type@ == m2.type_ref_to_type@,
        m1.diagnostics@ == m2.diagnostics@,
        m1.unknown_ty == m2.unknown_ty,
{
    assert forall|i: int| 0 <= i < map.len() implies m1.type_ref_to_type@[i]
        == m2.type_ref_to_type@[i] by {
        let h1 = m1.type_ref_to_type@[i]->Some_0;
        let h2 = m2.type_ref_to_type@[i]->Some_0;
        lemma_ty_of_extend(t1, t2, h1.0 as int);
        lemma_interning_identity(t2, h1.0 as int, h2.0 as int);
    }
    assert(m1.type_ref_to_type@ =~= m2.type_ref_to_type@);
}

/// Indexing a whole-item result is total: inside the arena it answers the
/// lowering of that reference, outside it answers the recovery type — it
/// never fails.
pub proof fn lemma_result_totality(
    db: Db,
    module: Module,
    map: Seq<TypeRef>,
    table: Seq<TyData>,
    m: LowerTyMap,
    id: LocalTypeRefId,
)
    requires
        interner_inv(table),
        lowering_result_ok(db, module, map, table, m),
    ensures
        (id as int) < map.len() ==> ty_of(table, m.spec_index(id).0 as int) == lower_ref_spec(
            db,
            module,
            map,
            id as int,
            Seq::empty(),
        ).ty,
        (id as int) >= map.len() ==> ty_of(table, m.spec_index(id).0 as int) == TyTree::Unknown,
{
}

/// A reference to a type that is real but not visible from the resolving
/// module lowers to the real type all the same: the violation is reported
/// as exactly one diagnostic, and nothing is suppressed.
pub proof fn lemma_privacy_not_suppressed(
    db: Db,
    module: Module,
    map: Seq<TypeRef>,
    r: int,
    p: Path,
    s: Struct,
    vis: Visibility,
)
    requires
        db.wf(),
        map_wf(map),
        0 <= r < map.len(),
        map[r] == TypeRef::Path(p),
        db.spec_resolve(module, p) == Option::Some((TypeNs::StructId(s), vis)),
        !vis.spec_is_visible_from(module),
    ensures
        lower_ref_spec(db, module, map, r, Seq::empty()).ty == TyTree::Struct(s),
        lower_ref_spec(db, module, map, r, Seq::empty()).diags == seq![
            LowerDiagnostic::TypeIsPrivate { id: r as usize },
        ],
{
    let stack = Seq::<usize>::empty();
    assert(ctx_ok(db, stack));
    let d = declared_ty_spec(db, TypableDef::Struct(s), Namespace::Types, stack);
    assert(d.ty == TyTree::Struct(s) && !d.cyclic);
    let pr = lower_path_spec(db, module, p, stack);
    assert(pr matches Option::Some(q) && q.private && !q.cyclic && q.ty == TyTree::Struct(s));
    assert(lower_ref_spec(db, module, map, r, stack).diags =~= seq![
        LowerDiagnostic::TypeIsPrivate { id: r as usize },
    ]);
}

/// A reference naming nothing lowers to the recovery type with exactly one
/// diagnostic keyed to that reference.
pub proof fn lemma_unresolved_reference(db: Db, module: Module, map: Seq<TypeRef>, r: int, p: Path)
    requires
        db.wf(),
        map_wf(map),
        0 <= r < map.len(),
        map[r] == TypeRef::Path(p),
        db.spec_resolve(module, p) is None,
    ensures
        lower_ref_spec(db, module, map, r, Seq::empty()).ty == TyTree::Unknown,
        lower_ref_spec(db, module, map, r, Seq::empty()).diags == seq![
            LowerDiagnostic::UnresolvedType { id: r as usize },
        ],
{
    let stack = Seq::<usize>::empty();
    assert(ctx_ok(db, stack));
    assert(lower_path_spec(db, module, p, stack) is None);
    assert(lower_ref_spec(db, module, map, r, stack).ty == TyTree::Unknown);
}

/// A tuple struct's name denotes two distinct canonical types: the struct
/// itself in the type namespace, and its synthesized constructor function in
/// the value namespace.
pub proof fn lemma_tuple_struct_duality(db: Db, s: Struct)
    requires
        db.wf(),
        (s.0 as int) < db.structs@.len(),
        db.structs@[s.0 as int].kind == StructKind::Tuple,
    ensures
        declared_ty_spec(db, TypableDef::Struct(s), Namespace::Values, Seq::empty()).ty
            == TyTree::FnDef(CallableDef::Struct(s), Seq::<TyTree>::empty()),
        declared_ty_spec(db, TypableDef::Struct(s), Namespace::Types, Seq::empty()).ty
            == TyTree::Struct(s),
        declared_ty_spec(db, TypableDef::Struct(s), Namespace::Values, Seq::empty()).ty
            != declared_ty_spec(db, TypableDef::Struct(s), Namespace::Types, Seq::empty()).ty,
{
    assert(ctx_ok(db, Seq::<usize>::empty()));
}

/// A record or unit struct has no separate constructor type: its value- and
/// type-namespace declared types are one and the same.
pub proof fn lemma_record_struct_non_duality(db: Db, s: Struct)
    requires
        db.wf(),
        (s.0 as int) < db.structs@.len(),
        db.structs@[s.0 as int].kind != StructKind::Tuple,
    ensures
        declared_ty_spec(db, TypableDef::Struct(s), Namespace::Values, Seq::empty()).ty
            == TyTree::Struct(s),
        declared_ty_spec(db, TypableDef::Struct(s), Namespace::Types, Seq::empty()).ty
            == TyTree::Struct(s),
{
    assert(ctx_ok(db, Seq::<usize>::empty()));
}

/// One side of a two-alias cycle: lowering the right-hand side of an alias
/// that names another alias which names the first back yields the recovery
/// type and exactly one cyclic-type diagnostic, and the walk terminates.
pub proof fn lemma_two_alias_cycle_side(
    db: Db,
    a: crate::item::TypeAlias,
    b: crate::item::TypeAlias,
    pa: Path,
    pb: Path,
    va: Visibility,
    vb: Visibility,
)
    requires
        db.wf(),
        a.0 != b.0,
        (a.0 as int) < db.type_aliases@.len(),
        (b.0 as int) < db.type_aliases@.len(),
        db.type_aliases@[a.0 as int].type_ref_map.refs@ == seq![TypeRef::Path(pb)],
        db.type_aliases@[a.0 as int].type_ref == 0,
        db.type_aliases@[b.0 as int].type_ref_map.refs@ == seq![TypeRef::Path(pa)],
        db.type_aliases@[b.0 as int].type_ref == 0,
        db.spec_resolve(db.type_aliases@[a.0 as int].module, pb) == Option::Some(
            (TypeNs::TypeAliasId(b), vb),
        ),
        db.spec_resolve(db.type_aliases@[b.0 as int].module, pa) == Option::Some(
            (TypeNs::TypeAliasId(a), va),
        ),
        vb.spec_is_visible_from(db.type_aliases@[a.0 as int].module),
        va.spec_is_visible_from(db.type_aliases@[b.0 as int].module),
    ensures
        ({
            let moda = db.type_aliases@[a.0 as int].module;
            let mapa = db.type_aliases@[a.0 as int].type_ref_map.refs@;
            &&& lower_ref_spec(db, moda, mapa, 0, Seq::empty()).ty == TyTree::Unknown
            &&& lower_ref_spec(db, moda, mapa, 0, Seq::empty()).diags == seq![
                LowerDiagnostic::CyclicType { id: 0usize },
            ]
        }),
{
    let moda = db.type_aliases@[a.0 as int].module;
    let mapa = db.type_aliases@[a.0 as int].type_ref_map.refs@;
    let modb = db.type_aliases@[b.0 as int].module;
    let mapb = db.type_aliases@[b.0 as int].type_ref_map.refs@;
    let s0 = Seq::<usize>::empty();
    let s1 = s0.push(b.0);
    let s2 = s1.push(a.0);
    assert(ctx_ok(db, s0));
    crate::lower::lemma_stack_push_ok(db, s0, b.0);
    assert(!s1.contains(a.0)) by {
        assert(forall|i: int| 0 <= i < s1.len() ==> s1[i] == b.0);
    }
    crate::lower::lemma_stack_push_ok(db, s1, a.0);

    // innermost: the chain re-enters `b`, which is already on the stack
    assert(s2[0] == b.0 && s2[1] == a.0);
    assert(s2.contains(b.0));
    let d_b_s2 = declared_ty_spec(db, TypableDef::TypeAlias(b), Namespace::Types, s2);
    assert(s2.index_of(b.0) == 0) by {
        let i0 = s2.index_of(b.0);
        assert(0 <= i0 < s2.len() && s2[i0] == b.0);
    }
    assert(d_b_s2.ty == TyTree::Unknown && d_b_s2.cyclic && d_b_s2.pending == Option::Some(0usize));

    // `a`'s right-hand side, walked inside both frames
    let lr_a_s2 = lower_ref_spec(db, moda, mapa, 0, s2);
    assert(mapa[0] == TypeRef::Path(pb));
    assert(lr_a_s2.ty == TyTree::Unknown && lr_a_s2.pending == Option::Some(0usize));

    // closing `a`'s frame: an outer frame is still pending, so `a` is a
    // cycle participant and keeps propagating
    let d_a_s1 = declared_ty_spec(db, TypableDef::TypeAlias(a), Namespace::Types, s1);
    assert(s1.push(a.0) == s2);
    assert(d_a_s1.ty == TyTree::Unknown && d_a_s1.cyclic && d_a_s1.pending == Option::Some(0usize));

    // `b`'s right-hand side, walked inside `b`'s frame alone
    let lr_b_s1 = lower_ref_spec(db, modb, mapb, 0, s1);
    assert(mapb[0] == TypeRef::Path(pa));
    assert(lr_b_s1.ty == TyTree::Unknown && lr_b_s1.pending == Option::Some(0usize));

    // closing `b`'s frame resolves the cycle: nothing stays pending
    let d_b_s0 = declared_ty_spec(db, TypableDef::TypeAlias(b), Namespace::Types, s0);
    assert(s0.push(b.0) == s1);
    assert(!s0.contains(b.0));
    assert(d_b_s0.ty == TyTree::Unknown && d_b_s0.cyclic && d_b_s0.pending is None);

    // the top-level walk of `a`'s right-hand side sees the recovery value
    // and reports exactly one cyclic-type diagnostic
    let lp_a_s0 = lower_path_spec(db, moda, pb, s0);
    assert(lp_a_s0 matches Option::Some(q) && q.ty == TyTree::Unknown && q.cyclic && !q.private);
    let lr_a_s0 = lower_ref_spec(db, moda, mapa, 0, s0);
    assert(lr_a_s0.ty == TyTree::Unknown);
    assert(lr_a_s0.diags =~= seq![LowerDiagnostic::CyclicType { id: 0usize }]);
}

/// Two mutually referential aliases both resolve to the recovery type, each
/// with exactly one cyclic-type diagnostic on its one reference.
pub proof fn lemma_two_alias_cycle(
    db: Db,
    a: crate::item::TypeAlias,
    b: crate::item::TypeAlias,
    pa: Path,
    pb: Path,
    va: Visibility,
    vb: Visibility,
)
    requires
        db.wf(),
        a.0 != b.0,
        (a.0 as int) < db.type_aliases@.len(),
        (b.0 as int) < db.type_aliases@.len(),
        db.type_aliases@[a.0 as int].type_ref_map.refs@ == seq![TypeRef::Path(pb)],
        db.type_aliases@[a.0 as int].type_ref == 0,
        db.type_aliases@[b.0 as int].type_ref_map.refs@ == seq![TypeRef::Path(pa)],
        db.type_aliases@[b.0 as int].type_ref == 0,
        db.spec_resolve(db.type_aliases@[a.0 as int].module, pb) == Option::Some(
            (TypeNs::TypeAliasId(b), vb),
        ),
        db.spec_resolve(db.type_aliases@[b.0 as int].module, pa) == Option::Some(
            (TypeNs::TypeAliasId(a), va),
        ),
        vb.spec_is_visible_from(db.type_aliases@[a.0 as int].module),
        va.spec_is_visible_from(db.type_aliases@[b.0 as int].module),
    ensures
        ({
            let moda = db.type_aliases@[a.0 as int].module;
            let mapa = db.type_aliases@[a.0 as int].type_ref_map.refs@;
            let modb = db.type_aliases@[b.0 as int].module;
            let mapb = db.type_aliases@[b.0 as int].type_ref_map.refs@;
            &&& lower_ref_spec(db, moda, mapa, 0, Seq::empty()).ty == TyTree::Unknown
            &&& lower_ref_spec(db, moda, mapa, 0, Seq::empty()).diags == seq![
                LowerDiagnostic::CyclicType { id: 0usize },
            ]
            &&& lower_ref_spec(db, modb, mapb, 0, Seq::empty()).ty == TyTree::Unknown
            &&& lower_ref_spec(db, modb, mapb, 0, Seq::empty()).diags == seq![
                LowerDiagnostic::CyclicType { id: 0usize },
            ]
        }),
{
    lemma_two_alias_cycle_side(db, a, b, pa, pb, va, vb);
    lemma_two_alias_cycle_side(db, b, a, pb, pa, vb, va);
}

/// Element `k` of a lowered sibling list is the lowering of sibling `k`.
pub proof fn lemma_lower_refs_index(
    db: Db,
    module: Module,
    map: Seq<TypeRef>,
    rs: Seq<LocalTypeRefId>,
    bound: int,
    stack: Seq<usize>,
    k: int,
)
    requires
        ctx_ok(db, stack),
        map_wf(map),
        forall|j: int| 0 <= j < rs.len() ==> (#[trigger] rs[j] as int) < bound,
        0 <= k < rs.len(),
    ensures
        lower_refs_spec(db, module, map, rs, bound, stack).tys.len() == rs.len(),
        lower_refs_spec(db, module, map, rs, bound, stack).tys[k] == lower_ref_spec(
            db,
            module,
            map,
            rs[k] as int,
            stack,
        ).ty,
    decreases rs.len(),
{
    crate::lower::lemma_refs_tys_len(db, module, map, rs, bound, stack);
    crate::lower::lemma_refs_tys_len(db, module, map, rs.drop_first(), bound, stack);
    if k > 0 {
        lemma_lower_refs_index(db, module, map, rs.drop_first(), bound, stack, k - 1);
    }
}

/// Structural composition: a tuple reference lowers to the tuple of its
/// lowered children in order, and an array reference lowers to the array of
/// its lowered element.
pub proof fn lemma_structural_composition(db: Db, module: Module, map: Seq<TypeRef>, r: int)
    requires
        db.wf(),
        map_wf(map),
        0 <= r < map.len(),
    ensures
        map[r] matches TypeRef::Tuple(children) ==> {
            let out = lower_ref_spec(db, module, map, r, Seq::empty()).ty;
            &&& out matches TyTree::Tuple(n, tys)
            &&& n == children@.len()
            &&& tys.len() == children@.len()
            &&& forall|k: int|
                0 <= k < children@.len() ==> tys[k] == lower_ref_spec(
                    db,
                    module,
                    map,
                    #[trigger] children@[k] as int,
                    Seq::empty(),
                ).ty
        },
        map[r] matches TypeRef::Array(c) ==> lower_ref_spec(db, module, map, r, Seq::empty()).ty
            == TyTree::Array(Box::new(lower_ref_spec(db, module, map, c as int, Seq::empty()).ty)),
{
    let stack = Seq::<usize>::empty();
    assert(ctx_ok(db, stack));
    match map[r] {
        TypeRef::Tuple(children) => {
            assert forall|k: int| 0 <= k < children@.len() implies lower_refs_spec(
                db,
                module,
                map,
                children@,
                r,
                stack,
            ).tys[k] == lower_ref_spec(db, module, map, #[trigger] children@[k] as int, stack).ty by {
                lemma_lower_refs_index(db, module, map, children@, r, stack, k);
            }
            crate::lower::lemma_refs_tys_len(db, module, map, children@, r, stack);
        },
        _ => {},
    }
}

} // verus!
