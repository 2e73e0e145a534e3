//! The declared-type dispatch table, callable signatures, and the
//! materialization of diagnostics through a source map.

use ty_lower::diagnostics::{Diagnostic, DiagnosticSink, Span, TypeRefSourceMap};
use ty_lower::item::{
    Db, FloatKind, Function, FunctionData, IntKind, Module, ModuleDef, Path, PrimitiveType,
    Resolution, Struct, StructData, StructKind, TypeAlias, TypeNs, Visibility,
};
use ty_lower::lower::{
    callable_item_sig, lower_struct_query, type_for_cycle_recover, type_for_def,
    type_for_def_query, type_for_fn, type_for_primitive, type_for_struct,
    type_for_struct_constructor, types_from_hir, CallableDef, DeclaredTyCache, TypableDef,
};
use ty_lower::ty::{Interner, TyData};
use ty_lower::type_ref::{TypeRef, TypeRefMap};

fn base_db() -> Db {
    let mut db = Db { functions: vec![], structs: vec![], type_aliases: vec![], resolutions: vec![] };
    db.resolutions.push(Resolution {
        module: Module(0),
        path: Path(1),
        entry: TypeNs::PrimitiveType(PrimitiveType::Int(IntKind::I32)),
        visibility: Visibility::Public,
    });
    db.resolutions.push(Resolution {
        module: Module(0),
        path: Path(2),
        entry: TypeNs::PrimitiveType(PrimitiveType::Bool),
        visibility: Visibility::Public,
    });
    db
}

fn tuple_struct_db() -> Db {
    // struct Foo(i32, bool) in module 0
    let mut db = base_db();
    db.structs.push(StructData {
        type_ref_map: TypeRefMap { refs: vec![TypeRef::Path(Path(1)), TypeRef::Path(Path(2))] },
        fields: vec![0, 1],
        kind: StructKind::Tuple,
        module: Module(0),
        visibility: Visibility::Public,
    });
    db
}

#[test]
fn tuple_struct_has_two_distinct_declared_types() {
    let db = tuple_struct_db();
    let mut it = Interner::new();
    let def = TypableDef::Struct(Struct(0));
    let (values_ty, vc) = type_for_def(&db, &mut it, def, ty_lower::item::Namespace::Values);
    let (types_ty, tc) = type_for_def(&db, &mut it, def, ty_lower::item::Namespace::Types);
    assert!(!vc && !tc);
    assert_ne!(values_ty, types_ty);
    assert_eq!(it.table[values_ty.0], TyData::FnDef(CallableDef::Struct(Struct(0)), vec![]));
    assert_eq!(it.table[types_ty.0], TyData::Struct(Struct(0)));
}

#[test]
fn tuple_struct_constructor_signature_is_fields_to_struct() {
    let db = tuple_struct_db();
    let mut it = Interner::new();
    let sig = callable_item_sig(&db, &mut it, CallableDef::Struct(Struct(0)));
    assert_eq!(sig.params.len(), 2);
    assert_eq!(it.table[sig.params[0].0], TyData::Int(IntKind::I32));
    assert_eq!(it.table[sig.params[1].0], TyData::Bool);
    assert_eq!(it.table[sig.ret.0], TyData::Struct(Struct(0)));
}

#[test]
fn record_struct_has_one_declared_type_in_both_namespaces() {
    // struct Bar { x: i32 } in module 0
    let mut db = base_db();
    db.structs.push(StructData {
        type_ref_map: TypeRefMap { refs: vec![TypeRef::Path(Path(1))] },
        fields: vec![0],
        kind: StructKind::Record,
        module: Module(0),
        visibility: Visibility::Public,
    });
    let mut it = Interner::new();
    let def = TypableDef::Struct(Struct(0));
    let (values_ty, _) = type_for_def(&db, &mut it, def, ty_lower::item::Namespace::Values);
    let (types_ty, _) = type_for_def(&db, &mut it, def, ty_lower::item::Namespace::Types);
    assert_eq!(values_ty, types_ty);
    assert_eq!(it.table[types_ty.0], TyData::Struct(Struct(0)));
    let direct = type_for_struct_constructor(&db, &mut it, Struct(0));
    assert_eq!(direct, values_ty);
}

#[test]
fn mismatched_namespace_pairs_resolve_to_unknown() {
    let mut db = base_db();
    db.functions.push(FunctionData {
        type_ref_map: TypeRefMap { refs: vec![TypeRef::Path(Path(1))] },
        params: vec![],
        ret: 0,
        module: Module(0),
        visibility: Visibility::Public,
    });
    db.type_aliases.push(ty_lower::item::TypeAliasData {
        type_ref_map: TypeRefMap { refs: vec![TypeRef::Path(Path(1))] },
        type_ref: 0,
        module: Module(0),
        visibility: Visibility::Public,
    });
    let mut it = Interner::new();
    let cases = [
        (TypableDef::Function(Function(0)), ty_lower::item::Namespace::Types),
        (TypableDef::PrimitiveType(PrimitiveType::Bool), ty_lower::item::Namespace::Values),
        (TypableDef::TypeAlias(TypeAlias(0)), ty_lower::item::Namespace::Values),
    ];
    for (def, ns) in cases {
        let (ty, cyclic) = type_for_def(&db, &mut it, def, ns);
        assert!(!cyclic);
        assert_eq!(it.table[ty.0], TyData::Unknown);
    }
}

#[test]
fn function_declared_type_and_signature() {
    // fn f(x: i32) -> bool
    let mut db = base_db();
    db.functions.push(FunctionData {
        type_ref_map: TypeRefMap { refs: vec![TypeRef::Path(Path(1)), TypeRef::Path(Path(2))] },
        params: vec![0],
        ret: 1,
        module: Module(0),
        visibility: Visibility::Public,
    });
    let mut it = Interner::new();
    let (ty, cyclic) = type_for_def(
        &db,
        &mut it,
        TypableDef::Function(Function(0)),
        ty_lower::item::Namespace::Values,
    );
    assert!(!cyclic);
    assert_eq!(it.table[ty.0], TyData::FnDef(CallableDef::Function(Function(0)), vec![]));
    let direct = type_for_fn(&mut it, Function(0));
    assert_eq!(direct, ty);

    let sig = callable_item_sig(&db, &mut it, CallableDef::Function(Function(0)));
    assert_eq!(sig.params.len(), 1);
    assert_eq!(it.table[sig.params[0].0], TyData::Int(IntKind::I32));
    assert_eq!(it.table[sig.ret.0], TyData::Bool);
}

#[test]
fn memoized_query_answers_like_a_fresh_one_and_skips_cyclic_results() {
    let mut db = tuple_struct_db();
    // one self-referential alias, to exercise the uncacheable case
    db.type_aliases.push(ty_lower::item::TypeAliasData {
        type_ref_map: TypeRefMap { refs: vec![TypeRef::Path(Path(40))] },
        type_ref: 0,
        module: Module(0),
        visibility: Visibility::Public,
    });
    db.resolutions.push(Resolution {
        module: Module(0),
        path: Path(40),
        entry: TypeNs::TypeAliasId(TypeAlias(0)),
        visibility: Visibility::Public,
    });

    let mut it = Interner::new();
    let mut cache = DeclaredTyCache::new();
    let ns = ty_lower::item::Namespace::Types;
    let def = TypableDef::Struct(Struct(0));
    let (first, c1) = type_for_def_query(&db, &mut it, &mut cache, def, ns);
    let (again, c2) = type_for_def_query(&db, &mut it, &mut cache, def, ns);
    assert!(!c1 && !c2);
    assert_eq!(first, again);
    assert_eq!(cache.entries.len(), 1);
    let (fresh, _) = type_for_def(&db, &mut it, def, ns);
    assert_eq!(first, fresh);

    // the cyclic alias recovers but is never cached
    let alias_def = TypableDef::TypeAlias(TypeAlias(0));
    let (ty, cyclic) = type_for_def_query(&db, &mut it, &mut cache, alias_def, ns);
    assert!(cyclic);
    assert_eq!(it.table[ty.0], TyData::Unknown);
    assert_eq!(cache.entries.len(), 1);
}

#[test]
fn primitive_kinds_map_directly() {
    let mut it = Interner::new();
    let b = type_for_primitive(&mut it, PrimitiveType::Bool);
    let i = type_for_primitive(&mut it, PrimitiveType::Int(IntKind::U64));
    let f = type_for_primitive(&mut it, PrimitiveType::Float(FloatKind::F32));
    assert_eq!(it.table[b.0], TyData::Bool);
    assert_eq!(it.table[i.0], TyData::Int(IntKind::U64));
    assert_eq!(it.table[f.0], TyData::Float(FloatKind::F32));
}

#[test]
fn cycle_recovery_value_is_unknown_and_cyclic() {
    let it = Interner::new();
    let (ty, cyclic) = type_for_cycle_recover(&it);
    assert!(cyclic);
    assert_eq!(it.table[ty.0], TyData::Unknown);
}

#[test]
fn callable_def_predicates_and_conversions() {
    assert!(CallableDef::Function(Function(3)).is_function());
    assert!(!CallableDef::Function(Function(3)).is_struct());
    assert!(CallableDef::Struct(Struct(4)).is_struct());
    assert!(!CallableDef::Struct(Struct(4)).is_function());

    assert_eq!(TypableDef::from(Function(3)), TypableDef::Function(Function(3)));
    assert_eq!(TypableDef::from(Struct(4)), TypableDef::Struct(Struct(4)));
    assert_eq!(
        TypableDef::from(PrimitiveType::Bool),
        TypableDef::PrimitiveType(PrimitiveType::Bool)
    );
    assert_eq!(CallableDef::from(Function(3)), CallableDef::Function(Function(3)));
    assert_eq!(CallableDef::from(Struct(4)), CallableDef::Struct(Struct(4)));
    assert_eq!(
        Option::<TypableDef>::from(ModuleDef::Struct(Struct(4))),
        Some(TypableDef::Struct(Struct(4)))
    );
    assert_eq!(Option::<TypableDef>::from(ModuleDef::Module(Module(1))), None);
}

#[test]
fn callable_visibility_reads_the_underlying_item() {
    let mut db = tuple_struct_db();
    db.functions.push(FunctionData {
        type_ref_map: TypeRefMap { refs: vec![TypeRef::Path(Path(1))] },
        params: vec![],
        ret: 0,
        module: Module(2),
        visibility: Visibility::Restricted(Module(2)),
    });
    assert_eq!(CallableDef::Struct(Struct(0)).visibility(&db), Visibility::Public);
    assert_eq!(
        CallableDef::Function(Function(0)).visibility(&db),
        Visibility::Restricted(Module(2))
    );
}

#[test]
fn struct_query_lowers_fields_and_flush_resolves_spans() {
    let mut db = tuple_struct_db();
    // make the second field unresolved to produce a diagnostic
    db.structs[0].type_ref_map.refs[1] = TypeRef::Path(Path(9));
    let mut it = Interner::new();
    let result = lower_struct_query(&db, &mut it, Struct(0));
    assert_eq!(it.table[result.index(0).0], TyData::Int(IntKind::I32));
    assert_eq!(it.table[result.index(1).0], TyData::Unknown);

    let source_map = TypeRefSourceMap {
        spans: vec![Span { start: 12, end: 15 }, Span { start: 17, end: 21 }],
    };
    let mut sink = DiagnosticSink::new();
    result.add_diagnostics(7, &source_map, &mut sink);
    assert_eq!(
        sink.records,
        vec![Diagnostic::UnresolvedType { file: 7, span: Span { start: 17, end: 21 } }]
    );
}

#[test]
fn private_access_and_cycles_materialize_with_their_spans() {
    // module 0 refers to a struct private to module 1 and to a cyclic alias
    let mut db = base_db();
    db.structs.push(StructData {
        type_ref_map: TypeRefMap { refs: vec![] },
        fields: vec![],
        kind: StructKind::Unit,
        module: Module(1),
        visibility: Visibility::Restricted(Module(1)),
    });
    db.type_aliases.push(ty_lower::item::TypeAliasData {
        type_ref_map: TypeRefMap { refs: vec![TypeRef::Path(Path(21))] },
        type_ref: 0,
        module: Module(0),
        visibility: Visibility::Public,
    });
    db.resolutions.push(Resolution {
        module: Module(0),
        path: Path(20),
        entry: TypeNs::StructId(Struct(0)),
        visibility: Visibility::Restricted(Module(1)),
    });
    db.resolutions.push(Resolution {
        module: Module(0),
        path: Path(21),
        entry: TypeNs::TypeAliasId(TypeAlias(0)),
        visibility: Visibility::Public,
    });
    let mut it = Interner::new();
    let map = TypeRefMap { refs: vec![TypeRef::Path(Path(20)), TypeRef::Path(Path(21))] };
    let result = types_from_hir(&db, &mut it, Module(0), &map);
    assert_eq!(it.table[result.index(0).0], TyData::Struct(Struct(0)));
    assert_eq!(it.table[result.index(1).0], TyData::Unknown);

    let source_map = TypeRefSourceMap {
        spans: vec![Span { start: 0, end: 3 }, Span { start: 5, end: 8 }],
    };
    let mut sink = DiagnosticSink::new();
    result.add_diagnostics(2, &source_map, &mut sink);
    assert_eq!(
        sink.records,
        vec![
            Diagnostic::PrivateAccess { file: 2, span: Span { start: 0, end: 3 } },
            Diagnostic::CyclicType { file: 2, span: Span { start: 5, end: 8 } },
        ]
    );
}

#[test]
fn from_path_reports_privacy_without_suppressing() {
    let mut db = base_db();
    db.structs.push(StructData {
        type_ref_map: TypeRefMap { refs: vec![] },
        fields: vec![],
        kind: StructKind::Record,
        module: Module(1),
        visibility: Visibility::Restricted(Module(1)),
    });
    db.resolutions.push(Resolution {
        module: Module(0),
        path: Path(30),
        entry: TypeNs::StructId(Struct(0)),
        visibility: Visibility::Restricted(Module(1)),
    });
    let mut it = Interner::new();
    let mut diags = Vec::new();
    let got = ty_lower::ty::Ty::from_path(&db, &mut it, Module(0), 4, Path(30), &mut diags);
    let (ty, cyclic) = got.expect("the path resolves");
    assert!(!cyclic);
    assert_eq!(it.table[ty.0], TyData::Struct(Struct(0)));
    assert_eq!(
        diags,
        vec![ty_lower::diagnostics::LowerDiagnostic::TypeIsPrivate { id: 4 }]
    );

    let missing = ty_lower::ty::Ty::from_path(&db, &mut it, Module(0), 4, Path(31), &mut diags);
    assert!(missing.is_none());

    let direct = type_for_struct(&mut it, Struct(0));
    assert_eq!(direct, ty);
}
