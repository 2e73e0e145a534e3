//! Interning identity and determinism of whole-item lowering.

use ty_lower::item::{
    Db, IntKind, Module, Path, PrimitiveType, Resolution, TypeNs, Visibility,
};
use ty_lower::lower::types_from_hir;
use ty_lower::ty::{Interner, Ty, TyData};
use ty_lower::type_ref::{TypeRef, TypeRefMap};

fn db_with_i32_in(modules: &[usize]) -> Db {
    let mut db = Db { functions: vec![], structs: vec![], type_aliases: vec![], resolutions: vec![] };
    for &m in modules {
        db.resolutions.push(Resolution {
            module: Module(m),
            path: Path(1),
            entry: TypeNs::PrimitiveType(PrimitiveType::Int(IntKind::I32)),
            visibility: Visibility::Public,
        });
    }
    db
}

#[test]
fn lowering_i32_in_two_unrelated_items_yields_one_handle() {
    let db = db_with_i32_in(&[0, 1]);
    let mut it = Interner::new();
    let map_a = TypeRefMap { refs: vec![TypeRef::Path(Path(1))] };
    let map_b = TypeRefMap { refs: vec![TypeRef::Path(Path(1))] };
    let (ta, _) = Ty::from_hir(&db, &mut it, Module(0), &map_a, 0);
    let (tb, _) = Ty::from_hir(&db, &mut it, Module(1), &map_b, 0);
    assert_eq!(ta, tb);
    assert_eq!(it.table[ta.0], TyData::Int(IntKind::I32));
}

#[test]
fn intern_returns_the_same_handle_for_equal_shapes() {
    let mut it = Interner::new();
    let a = it.intern(TyData::Int(IntKind::U8));
    let b = it.intern(TyData::Int(IntKind::U8));
    let c = it.intern(TyData::Int(IntKind::U16));
    assert_eq!(a, b);
    assert_ne!(a, c);
    // handle 0 is always the recovery type
    assert_eq!(it.intern(TyData::Unknown), Ty(0));
}

#[test]
fn interning_deduplicates_composite_shapes() {
    let mut it = Interner::new();
    let i8h = it.intern(TyData::Int(IntKind::I8));
    let t1 = it.intern(TyData::Tuple(2, vec![i8h, i8h]));
    let t2 = it.intern(TyData::Tuple(2, vec![i8h, i8h]));
    assert_eq!(t1, t2);
    let a1 = it.intern(TyData::Array(t1));
    let a2 = it.intern(TyData::Array(t2));
    assert_eq!(a1, a2);
}

#[test]
fn lowering_an_unchanged_item_twice_is_identical() {
    let db = db_with_i32_in(&[0]);
    let mut it = Interner::new();
    // a resolved reference, an unresolved one, and a tuple over both
    let map = TypeRefMap {
        refs: vec![
            TypeRef::Path(Path(1)),
            TypeRef::Path(Path(77)),
            TypeRef::Tuple(vec![0, 1]),
        ],
    };
    let first = types_from_hir(&db, &mut it, Module(0), &map);
    let second = types_from_hir(&db, &mut it, Module(0), &map);
    assert_eq!(*first, *second);
}
