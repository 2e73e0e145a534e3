//! Canonical semantic types and the interning table.
//!
//! A semantic type is held as a handle (`Ty`) into a session-scoped table of
//! shapes (`TyData`).  The table is deduplicated and append-only, so two
//! structurally equal types always share one handle and type equality is
//! handle equality.  The ghost tree `TyTree` unfolds a handle into the full
//! structural value; contracts are stated over it.

use vstd::prelude::*;

use crate::item::{FloatKind, IntKind, Struct};
use crate::lower::CallableDef;

verus! {

/// A canonical type handle: an index into the session's interning table.
/// Handle 0 is always the recovery type `Unknown`.
#[derive(Clone, Copy, Debug, PartialEq, Eq, Hash, Structural)]
pub struct Ty(pub usize);

/// One interned shape.  Composite shapes hold the handles of their
/// components, which are always interned earlier (at smaller indices).
#[derive(Clone, Debug, PartialEq, Eq)]
pub enum TyData {
    /// The recovery type: an unresolved, mismatched or cyclic reference.
    Unknown,
    /// The never type.
    Never,
    Bool,
    Int(IntKind),
    Float(FloatKind),
    /// A tuple: its arity and its element types in order.
    Tuple(usize, Vec<Ty>),
    /// An array of one element type.
    Array(Ty),
    /// A struct by identity.
    Struct(Struct),
    /// The unique type of a callable definition, with its type-argument
    /// substitution (always empty in this layer, which has no generics).
    FnDef(CallableDef, Vec<Ty>),
}

/// The fully unfolded, ghost view of a semantic type.
pub enum TyTree {
    Unknown,
    Never,
    Bool,
    Int(IntKind),
    Float(FloatKind),
    Tuple(nat, Seq<TyTree>),
    Array(Box<TyTree>),
    Struct(Struct),
    FnDef(CallableDef, Seq<TyTree>),
}

/// Structural equality of two shapes, component handles compared one by one.
pub open spec fn data_eqv(a: TyData, b: TyData) -> bool {
    match (a, b) {
        (TyData::Unknown, TyData::Unknown) => true,
        (TyData::Never, TyData::Never) => true,
        (TyData::Bool, TyData::Bool) => true,
        (TyData::Int(x), TyData::Int(y)) => x == y,
        (TyData::Float(x), TyData::Float(y)) => x == y,
        (TyData::Tuple(n, xs), TyData::Tuple(m, ys)) => n == m && xs@ == ys@,
        (TyData::Array(x), TyData::Array(y)) => x == y,
        (TyData::Struct(x), TyData::Struct(y)) => x == y,
        (TyData::FnDef(d, xs), TyData::FnDef(e, ys)) => d == e && xs@ == ys@,
        _ => false,
    }
}

/// A shape may only mention handles below `bound`, and a tuple's stored
/// arity is the length of its element list.
pub open spec fn data_wf(d: TyData, bound: int) -> bool {
    match d {
        TyData::Tuple(n, elems) => n == elems@.len() && forall|k: int|
            0 <= k < elems@.len() ==> ((#[trigger] elems@[k]).0 as int) < bound,
        TyData::Array(e) => (e.0 as int) < bound,
        TyData::FnDef(_, subst) => forall|k: int|
            0 <= k < subst@.len() ==> ((#[trigger] subst@[k]).0 as int) < bound,
        _ => true,
    }
}

/// The interning table's invariant: it starts with `Unknown` at handle 0,
/// every entry only points down, and no two entries are structurally equal.
pub open spec fn interner_inv(table: Seq<TyData>) -> bool {
    &&& table.len() >= 1
    &&& table[0] == TyData::Unknown
    &&& forall|i: int| 0 <= i < table.len() ==> data_wf(#[trigger] table[i], i)
    &&& forall|i: int, j: int|
        0 <= i < j < table.len() ==> !data_eqv(#[trigger] table[i], #[trigger] table[j])
}

/// Unfolds the handle `h` into its structural value under `table`.
pub open spec fn ty_of(table: Seq<TyData>, h: int) -> TyTree
    decreases h, 1int, 0int,
{
    if 0 <= h < table.len() {
        match table[h] {
            TyData::Unknown => TyTree::Unknown,
            TyData::Never => TyTree::Never,
            TyData::Bool => TyTree::Bool,
            TyData::Int(k) => TyTree::Int(k),
            TyData::Float(k) => TyTree::Float(k),
            TyData::Tuple(n, elems) => TyTree::Tuple(n as nat, tys_of(table, elems@, h)),
            TyData::Array(e) => if (e.0 as int) < h {
                TyTree::Array(Box::new(ty_of(table, e.0 as int)))
            } else {
                TyTree::Unknown
            },
            TyData::Struct(s) => TyTree::Struct(s),
            TyData::FnDef(d, subst) => TyTree::FnDef(d, tys_of(table, subst@, h)),
        }
    } else {
        TyTree::Unknown
    }
}

/// Unfolds a list of handles, each expected below `h`.
pub open spec fn tys_of(table: Seq<TyData>, hs: Seq<Ty>, h: int) -> Seq<TyTree>
    decreases h, 0int, hs.len(),
{
    if hs.len() == 0 {
        Seq::empty()
    } else {
        let first = if (hs[0].0 as int) < h {
            ty_of(table, hs[0].0 as int)
        } else {
            TyTree::Unknown
        };
        seq![first] + tys_of(table, hs.drop_first(), h)
    }
}

pub proof fn lemma_tys_of_len(table: Seq<TyData>, hs: Seq<Ty>, h: int)
    ensures
        tys_of(table, hs, h).len() == hs.len(),
    decreases hs.len(),
{
    if hs.len() > 0 {
        lemma_tys_of_len(table, hs.drop_first(), h);
    }
}

pub proof fn lemma_tys_of_index(table: Seq<TyData>, hs: Seq<Ty>, h: int, k: int)
    requires
        0 <= k < hs.len(),
        (hs[k].0 as int) < h,
    ensures
        tys_of(table, hs, h)[k] == ty_of(table, hs[k].0 as int),
    decreases hs.len(),
{
    lemma_tys_of_len(table, hs.drop_first(), h);
    if k > 0 {
        lemma_tys_of_index(table, hs.drop_first(), h, k - 1);
    }
}

/// Growing the table never changes what an existing handle denotes.
pub proof fn lemma_ty_of_extend(t1: Seq<TyData>, t2: Seq<TyData>, h: int)
    requires
        t1.is_prefix_of(t2),
        forall|i: int| 0 <= i < t1.len() ==> data_wf(#[trigger] t1[i], i),
        0 <= h < t1.len(),
    ensures
        ty_of(t2, h) == ty_of(t1, h),
    decreases h, 1int, 0int,
{
    assert(t2[h] == t1[h]);
    match t1[h] {
        TyData::Tuple(n, elems) => {
            lemma_tys_of_extend(t1, t2, elems@, h);
        },
        TyData::Array(e) => {
            if (e.0 as int) < h {
                lemma_ty_of_extend(t1, t2, e.0 as int);
            }
        },
        TyData::FnDef(d, subst) => {
            lemma_tys_of_extend(t1, t2, subst@, h);
        },
        _ => {},
    }
}

pub proof fn lemma_tys_of_extend(t1: Seq<TyData>, t2: Seq<TyData>, hs: Seq<Ty>, h: int)
    requires
        t1.is_prefix_of(t2),
        forall|i: int| 0 <= i < t1.len() ==> data_wf(#[trigger] t1[i], i),
        0 <= h < t1.len(),
    ensures
        tys_of(t2, hs, h) == tys_of(t1, hs, h),
    decreases h, 0int, hs.len(),
{
    if hs.len() > 0 {
        if (hs[0].0 as int) < h {
            lemma_ty_of_extend(t1, t2, hs[0].0 as int);
        }
        lemma_tys_of_extend(t1, t2, hs.drop_first(), h);
    }
}

/// Interning identity: under a deduplicated table, two handles that unfold
/// to the same structural value are the same handle.  This is what makes
/// structural type equality an O(1) handle comparison everywhere else.
pub proof fn lemma_interning_identity(table: Seq<TyData>, i: int, j: int)
    requires
        interner_inv(table),
        0 <= i < table.len(),
        0 <= j < table.len(),
        ty_of(table, i) == ty_of(table, j),
    ensures
        i == j,
    decreases i + j,
{
    if i != j {
        match (table[i], table[j]) {
            (TyData::Tuple(n1, e1), TyData::Tuple(n2, e2)) => {
                lemma_tys_equal_handles_equal(table, e1@, e2@, i, j);
                assert(data_eqv(table[i], table[j]));
            },
            (TyData::Array(a1), TyData::Array(a2)) => {
                lemma_interning_identity(table, a1.0 as int, a2.0 as int);
                assert(data_eqv(table[i], table[j]));
            },
            (TyData::FnDef(d1, s1), TyData::FnDef(d2, s2)) => {
                lemma_tys_equal_handles_equal(table, s1@, s2@, i, j);
                assert(data_eqv(table[i], table[j]));
            },
            _ => {
                assert(data_eqv(table[i], table[j]));
            },
        }
    }
}

proof fn lemma_tys_equal_handles_equal(table: Seq<TyData>, h1: Seq<Ty>, h2: Seq<Ty>, i: int, j: int)
    requires
        interner_inv(table),
        0 <= i < table.len(),
        0 <= j < table.len(),
        forall|k: int| 0 <= k < h1.len() ==> ((#[trigger] h1[k]).0 as int) < i,
        forall|k: int| 0 <= k < h2.len() ==> ((#[trigger] h2[k]).0 as int) < j,
        tys_of(table, h1, i) == tys_of(table, h2, j),
    ensures
        h1 == h2,
    decreases i + j, h1.len(),
{
    lemma_tys_of_len(table, h1, i);
    lemma_tys_of_len(table, h2, j);
    if h1.len() > 0 {
        lemma_tys_of_index(table, h1, i, 0);
        lemma_tys_of_index(table, h2, j, 0);
        lemma_interning_identity(table, h1[0].0 as int, h2[0].0 as int);
        assert(tys_of(table, h1, i).drop_first() =~= tys_of(table, h1.drop_first(), i));
        assert(tys_of(table, h2, j).drop_first() =~= tys_of(table, h2.drop_first(), j));
        lemma_tys_equal_handles_equal(table, h1.drop_first(), h2.drop_first(), i, j);
        assert forall|k: int| 0 <= k < h1.len() implies h1[k] == h2[k] by {
            if k > 0 {
                assert(h1[k] == h1.drop_first()[k - 1]);
                assert(h2[k] == h2.drop_first()[k - 1]);
            }
        }
        assert(h1 =~= h2);
    } else {
        assert(h1 =~= h2);
    }
}

/// The session-scoped interning table.  It is created once per session,
/// only ever grows, and hands out one canonical handle per shape.
pub struct Interner {
    pub table: Vec<TyData>,
}

impl Interner {
    pub open spec fn wf(self) -> bool {
        interner_inv(self.table@)
    }

    /// What the handle `t` denotes in this table.
    pub open spec fn tree(self, t: Ty) -> TyTree {
        ty_of(self.table@, t.0 as int)
    }

    /// Whether `t` is a live handle of this table.
    pub open spec fn owns(self, t: Ty) -> bool {
        (t.0 as int) < self.table@.len()
    }

    /// A fresh table, seeded with the recovery type at handle 0.
    pub fn new() -> (r: Interner)
        ensures
            r.wf(),
            r.table@.len() == 1,
    {
        let mut table: Vec<TyData> = Vec::new();
        table.push(TyData::Unknown);
        Interner { table }
    }

    /// The canonical handle of the recovery type.
    pub fn unknown(&self) -> (r: Ty)
        requires
            self.wf(),
        ensures
            self.owns(r),
            self.tree(r) == TyTree::Unknown,
    {
        Ty(0)
    }

    /// Returns the canonical handle for `data`, storing a new entry only if
    /// no structurally equal entry exists.  The table only ever grows, and
    /// what existing handles denote never changes.
    pub fn intern(&mut self, data: TyData) -> (r: Ty)
        requires
            old(self).wf(),
            data_wf(data, old(self).table@.len() as int),
        ensures
            final(self).wf(),
            old(self).table@.is_prefix_of(final(self).table@),
            final(self).table@.len() <= old(self).table@.len() + 1,
            final(self).owns(r),
            data_eqv(final(self).table@[r.0 as int], data),
    {
        let n = self.table.len();
        let mut i: usize = 0;
        while i < n
            invariant
                self.table@ == old(self).table@,
                old(self).wf(),
                data_wf(data, old(self).table@.len() as int),
                n == self.table@.len(),
                i <= n,
                forall|k: int| 0 <= k < i ==> !data_eqv(self.table@[k], data),
            decreases n - i,
        {
            if ty_data_eq(&self.table[i], &data) {
                return Ty(i);
            }
            i += 1;
        }
        self.table.push(data);
        Ty(n)
    }
}

/// Executable structural equality of shapes, matching `data_eqv`.
fn ty_data_eq(a: &TyData, b: &TyData) -> (r: bool)
    ensures
        r == data_eqv(*a, *b),
{
    match (a, b) {
        (TyData::Unknown, TyData::Unknown) => true,
        (TyData::Never, TyData::Never) => true,
        (TyData::Bool, TyData::Bool) => true,
        (TyData::Int(x), TyData::Int(y)) => x == y,
        (TyData::Float(x), TyData::Float(y)) => x == y,
        (TyData::Tuple(n, xs), TyData::Tuple(m, ys)) => n == m && ty_vec_eq(xs, ys),
        (TyData::Array(x), TyData::Array(y)) => x.0 == y.0,
        (TyData::Struct(x), TyData::Struct(y)) => x.0 == y.0,
        (TyData::FnDef(d, xs), TyData::FnDef(e, ys)) => callable_def_eq(d, e) && ty_vec_eq(xs, ys),
        _ => false,
    }
}

fn callable_def_eq(a: &CallableDef, b: &CallableDef) -> (r: bool)
    ensures
        r == (*a == *b),
{
    match (a, b) {
        (CallableDef::Function(x), CallableDef::Function(y)) => x.0 == y.0,
        (CallableDef::Struct(x), CallableDef::Struct(y)) => x.0 == y.0,
        _ => false,
    }
}

fn ty_vec_eq(a: &Vec<Ty>, b: &Vec<Ty>) -> (r: bool)
    ensures
        r == (a@ == b@),
{
    if a.len() != b.len() {
        proof {
            assert(a@ != b@);
        }
        return false;
    }
    let n = a.len();
    let mut i: usize = 0;
    while i < n
        invariant
            n == a@.len(),
            n == b@.len(),
            i <= n,
            forall|k: int| 0 <= k < i ==> a@[k] == b@[k],
        decreases n - i,
    {
        if a[i].0 != b[i].0 {
            return false;
        }
        i += 1;
    }
    proof {
        assert(a@ =~= b@);
    }
    true
}

/// The ordered parameter types and return type of a callable definition.
#[derive(Clone, Debug, PartialEq, Eq)]
pub struct FnSig {
    pub params: Vec<Ty>,
    pub ret: Ty,
}

impl FnSig {
    pub fn from_params_and_return(params: Vec<Ty>, ret: Ty) -> (r: FnSig)
        ensures
            r.params == params,
            r.ret == ret,
    {
        FnSig { params, ret }
    }
}

} // verus!
