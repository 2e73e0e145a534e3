//! Cycle detection and recovery among mutually recursive type aliases.

use ty_lower::diagnostics::LowerDiagnostic;
use ty_lower::item::{
    Db, IntKind, Module, Path, PrimitiveType, Resolution, TypeAlias, TypeAliasData, TypeNs,
    Visibility,
};
use ty_lower::lower::{lower_type_alias_query, type_for_type_alias};
use ty_lower::ty::{Interner, TyData};
use ty_lower::type_ref::{TypeRef, TypeRefMap};

fn alias(rhs_name: usize) -> TypeAliasData {
    TypeAliasData {
        type_ref_map: TypeRefMap { refs: vec![TypeRef::Path(Path(rhs_name))] },
        type_ref: 0,
        module: Module(0),
        visibility: Visibility::Public,
    }
}

fn resolve_to_alias(db: &mut Db, name: usize, target: usize) {
    db.resolutions.push(Resolution {
        module: Module(0),
        path: Path(name),
        entry: TypeNs::TypeAliasId(TypeAlias(target)),
        visibility: Visibility::Public,
    });
}

#[test]
fn two_alias_cycle_recovers_with_one_diagnostic_each() {
    // alias 0 = name 10 -> alias 1; alias 1 = name 11 -> alias 0
    let mut db = Db { functions: vec![], structs: vec![], type_aliases: vec![], resolutions: vec![] };
    db.type_aliases.push(alias(10));
    db.type_aliases.push(alias(11));
    resolve_to_alias(&mut db, 10, 1);
    resolve_to_alias(&mut db, 11, 0);

    let mut it = Interner::new();
    for a in 0..2usize {
        let result = lower_type_alias_query(&db, &mut it, TypeAlias(a));
        assert_eq!(it.table[result.index(0).0], TyData::Unknown);
        assert_eq!(result.diagnostics, vec![LowerDiagnostic::CyclicType { id: 0 }]);
    }
}

#[test]
fn self_referential_alias_recovers() {
    let mut db = Db { functions: vec![], structs: vec![], type_aliases: vec![], resolutions: vec![] };
    db.type_aliases.push(alias(10));
    resolve_to_alias(&mut db, 10, 0);

    let mut it = Interner::new();
    let result = lower_type_alias_query(&db, &mut it, TypeAlias(0));
    assert_eq!(it.table[result.index(0).0], TyData::Unknown);
    assert_eq!(result.diagnostics, vec![LowerDiagnostic::CyclicType { id: 0 }]);
}

#[test]
fn alias_chaining_into_a_cycle_sees_the_recovery_type() {
    // alias 2 = name 12 -> alias 0, where aliases 0 and 1 form a cycle
    let mut db = Db { functions: vec![], structs: vec![], type_aliases: vec![], resolutions: vec![] };
    db.type_aliases.push(alias(10));
    db.type_aliases.push(alias(11));
    db.type_aliases.push(alias(12));
    resolve_to_alias(&mut db, 10, 1);
    resolve_to_alias(&mut db, 11, 0);
    resolve_to_alias(&mut db, 12, 0);

    let mut it = Interner::new();
    let result = lower_type_alias_query(&db, &mut it, TypeAlias(2));
    assert_eq!(it.table[result.index(0).0], TyData::Unknown);
    // the reference into the cycle is itself diagnosed as cyclic
    assert_eq!(result.diagnostics, vec![LowerDiagnostic::CyclicType { id: 0 }]);

    let ty = type_for_type_alias(&db, &mut it, TypeAlias(2));
    assert_eq!(it.table[ty.0], TyData::Unknown);
}

#[test]
fn acyclic_alias_chain_resolves_cleanly() {
    // alias 0 = name 10 -> alias 1; alias 1 = name 20 -> i64
    let mut db = Db { functions: vec![], structs: vec![], type_aliases: vec![], resolutions: vec![] };
    db.type_aliases.push(alias(10));
    db.type_aliases.push(alias(20));
    resolve_to_alias(&mut db, 10, 1);
    db.resolutions.push(Resolution {
        module: Module(0),
        path: Path(20),
        entry: TypeNs::PrimitiveType(PrimitiveType::Int(IntKind::I64)),
        visibility: Visibility::Public,
    });

    let mut it = Interner::new();
    let result = lower_type_alias_query(&db, &mut it, TypeAlias(0));
    assert_eq!(it.table[result.index(0).0], TyData::Int(IntKind::I64));
    assert!(result.diagnostics.is_empty());
}
