//! Lowering of single references: structural composition, recovery on
//! unresolved names, error placeholders, privacy, and totality of results.

use ty_lower::diagnostics::LowerDiagnostic;
use ty_lower::item::{
    Db, FloatKind, IntKind, Module, Path, PrimitiveType, Resolution, Struct, StructData,
    StructKind, TypeNs, Visibility,
};
use ty_lower::lower::LowerTyMap;
use ty_lower::lower::types_from_hir;
use ty_lower::ty::{Interner, Ty, TyData};
use ty_lower::type_ref::{TypeRef, TypeRefMap};

fn empty_db() -> Db {
    Db { functions: vec![], structs: vec![], type_aliases: vec![], resolutions: vec![] }
}

fn prim_db() -> Db {
    // "i32" is name 1, "bool" name 2, "f64" name 3, visible everywhere
    let mut db = empty_db();
    for m in 0..3usize {
        db.resolutions.push(Resolution {
            module: Module(m),
            path: Path(1),
            entry: TypeNs::PrimitiveType(PrimitiveType::Int(IntKind::I32)),
            visibility: Visibility::Public,
        });
        db.resolutions.push(Resolution {
            module: Module(m),
            path: Path(2),
            entry: TypeNs::PrimitiveType(PrimitiveType::Bool),
            visibility: Visibility::Public,
        });
        db.resolutions.push(Resolution {
            module: Module(m),
            path: Path(3),
            entry: TypeNs::PrimitiveType(PrimitiveType::Float(FloatKind::F64)),
            visibility: Visibility::Public,
        });
    }
    db
}

#[test]
fn tuple_of_int_and_never_composes_structurally() {
    let db = prim_db();
    let mut it = Interner::new();
    let map = TypeRefMap {
        refs: vec![TypeRef::Path(Path(1)), TypeRef::Never, TypeRef::Tuple(vec![0, 1])],
    };
    let (ty, diags) = Ty::from_hir(&db, &mut it, Module(0), &map, 2);
    assert!(diags.is_empty());
    match &it.table[ty.0] {
        TyData::Tuple(n, elems) => {
            assert_eq!(*n, 2);
            assert_eq!(it.table[elems[0].0], TyData::Int(IntKind::I32));
            assert_eq!(it.table[elems[1].0], TyData::Never);
        }
        other => panic!("expected a tuple shape, got {:?}", other),
    }
}

#[test]
fn array_of_float_composes_structurally() {
    let db = prim_db();
    let mut it = Interner::new();
    let map = TypeRefMap { refs: vec![TypeRef::Path(Path(3)), TypeRef::Array(0)] };
    let (ty, diags) = Ty::from_hir(&db, &mut it, Module(0), &map, 1);
    assert!(diags.is_empty());
    match &it.table[ty.0] {
        TyData::Array(elem) => {
            assert_eq!(it.table[elem.0], TyData::Float(FloatKind::F64));
        }
        other => panic!("expected an array shape, got {:?}", other),
    }
}

#[test]
fn unresolved_reference_recovers_with_one_diagnostic() {
    let db = prim_db();
    let mut it = Interner::new();
    let map = TypeRefMap { refs: vec![TypeRef::Path(Path(99))] };
    let (ty, diags) = Ty::from_hir(&db, &mut it, Module(0), &map, 0);
    assert_eq!(it.table[ty.0], TyData::Unknown);
    assert_eq!(diags, vec![LowerDiagnostic::UnresolvedType { id: 0 }]);
}

#[test]
fn error_placeholder_lowers_silently() {
    let db = empty_db();
    let mut it = Interner::new();
    let map = TypeRefMap { refs: vec![TypeRef::Error] };
    let (ty, diags) = Ty::from_hir(&db, &mut it, Module(0), &map, 0);
    assert_eq!(it.table[ty.0], TyData::Unknown);
    assert!(diags.is_empty());
}

#[test]
fn private_struct_keeps_real_type_and_reports_once() {
    let mut db = empty_db();
    db.structs.push(StructData {
        type_ref_map: TypeRefMap { refs: vec![] },
        fields: vec![],
        kind: StructKind::Record,
        module: Module(1),
        visibility: Visibility::Restricted(Module(1)),
    });
    db.resolutions.push(Resolution {
        module: Module(0),
        path: Path(5),
        entry: TypeNs::StructId(Struct(0)),
        visibility: Visibility::Restricted(Module(1)),
    });
    let mut it = Interner::new();
    let map = TypeRefMap { refs: vec![TypeRef::Path(Path(5))] };
    let (ty, diags) = Ty::from_hir(&db, &mut it, Module(0), &map, 0);
    assert_eq!(it.table[ty.0], TyData::Struct(Struct(0)));
    assert_eq!(diags, vec![LowerDiagnostic::TypeIsPrivate { id: 0 }]);
}

#[test]
fn lowering_result_is_total() {
    let m = LowerTyMap::default();
    assert_eq!(m.index(0), Ty(0));
    assert_eq!(m.index(41), Ty(0));

    let db = prim_db();
    let mut it = Interner::new();
    let map = TypeRefMap { refs: vec![TypeRef::Path(Path(1))] };
    let result = types_from_hir(&db, &mut it, Module(0), &map);
    // a resolved entry is the real type; ids past the arena read as Unknown
    assert_eq!(it.table[result.index(0).0], TyData::Int(IntKind::I32));
    assert_eq!(result.index(1), Ty(0));
    assert_eq!(it.table[result.index(1).0], TyData::Unknown);
}

#[test]
fn whole_item_lowering_collects_diagnostics_in_order() {
    let db = prim_db();
    let mut it = Interner::new();
    // one unresolved name, then one resolved, then another unresolved
    let map = TypeRefMap {
        refs: vec![
            TypeRef::Path(Path(50)),
            TypeRef::Path(Path(1)),
            TypeRef::Path(Path(51)),
        ],
    };
    let result = types_from_hir(&db, &mut it, Module(0), &map);
    assert_eq!(
        result.diagnostics,
        vec![
            LowerDiagnostic::UnresolvedType { id: 0 },
            LowerDiagnostic::UnresolvedType { id: 2 },
        ]
    );
}
