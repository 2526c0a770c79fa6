//! Capability identities and the per-type identity table.
//!
//! An identity is an opaque token that names one type or one trait object
//! type. Identities can only be compared for equality, so every lookup in a
//! table is a linear scan that returns the first slot holding the target.
//!
//! A table has a fixed layout: slot 0 holds the identity of the base
//! capability, slot 1 the identity of the concrete type, and the slots from
//! 2 on hold the declared interfaces in declaration order.

use vstd::prelude::*;
use core::any::TypeId;

verus! {

/// `core::any::TypeId`, carried as an opaque value.
#[verifier::external_type_specification]
#[verifier::external_body]
pub struct ExTypeId(TypeId);

/// `TypeId::of`: the identifier that the compiler assigns to `T`.
///
/// Nothing is claimed of the result: the identifier of a type is chosen by
/// the compiler and there is no value to compare it with.
#[verifier::external_body]
fn type_id_of<T: ?Sized + 'static>() -> (id: TypeId) {
    TypeId::of::<T>()
}

/// `TypeId`'s `==`: true exactly when both sides are the same identifier.
#[verifier::external_body]
fn type_id_eq(a: &TypeId, b: &TypeId) -> (same: bool)
    ensures
        same == (*a == *b),
{
    a == b
}

/// The identity of one type, comparable for equality only.
#[derive(Copy, Clone)]
pub struct TypeIdConst {
    t: TypeId,
}

impl TypeIdConst {
    /// The identity of `T`.
    pub fn of<T: ?Sized + 'static>() -> (id: TypeIdConst) {
        TypeIdConst { t: type_id_of::<T>() }
    }

    /// Whether both identities name the same type.
    pub fn eq(&self, other: &Self) -> (same: bool)
        ensures
            same == (*self == *other),
    {
        type_id_eq(&self.t, &other.t)
    }
}

impl PartialEq for TypeIdConst {
    fn eq(&self, other: &Self) -> (same: bool) {
        type_id_eq(&self.t, &other.t)
    }
}

impl vstd::std_specs::cmp::PartialEqSpecImpl for TypeIdConst {
    open spec fn obeys_eq_spec() -> bool {
        true
    }

    open spec fn eq_spec(&self, other: &Self) -> bool {
        *self == *other
    }
}

impl Eq for TypeIdConst {

}

/// An identity table, as contracts speak of it.
pub type IdentityTable = Seq<TypeIdConst>;

/// The table of a type whose base capability is `base`, whose own identity is
/// `concrete`, and that declares the interfaces `extras`, in that order.
pub open spec fn table_of(
    base: TypeIdConst,
    concrete: TypeIdConst,
    extras: Seq<TypeIdConst>,
) -> Seq<TypeIdConst> {
    seq![base, concrete] + extras
}

/// `slot` is the first position of `table` that holds `target`.
pub open spec fn is_first_slot(table: Seq<TypeIdConst>, target: TypeIdConst, slot: int) -> bool {
    &&& 0 <= slot < table.len()
    &&& table[slot] == target
    &&& forall|j: int| 0 <= j < slot ==> table[j] != target
}

/// `found` is what a lookup of `target` in `table` answers: the first slot
/// that holds it, or nothing when no slot does.
pub open spec fn is_lookup(
    table: Seq<TypeIdConst>,
    target: TypeIdConst,
    found: Option<usize>,
) -> bool {
    match found {
        Some(slot) => is_first_slot(table, target, slot as int),
        None => !table.contains(target),
    }
}

/// Lays out the identity table of a type from its three parts.
pub fn build_table<const N: usize, const M: usize>(
    base: TypeIdConst,
    concrete: TypeIdConst,
    extras: [TypeIdConst; N],
) -> (table: [TypeIdConst; M])
    requires
        N + 2 == M,
    ensures
        table@ == table_of(base, concrete, extras@),
{
    let mut out: [TypeIdConst; M] = [concrete;M];
    out[0] = base;
    let mut i: usize = 2;
    while i < M
        invariant
            N + 2 == M,
            2 <= i <= M,
            out@.len() == M,
            out@[0] == base,
            out@[1] == concrete,
            forall|j: int| 2 <= j < i ==> out@[j] == extras@[j - 2],
        decreases M - i,
    {
        out[i] = extras[i - 2];
        i = i + 1;
    }
    assert(out@ =~= table_of(base, concrete, extras@));
    out
}

/// Scans `table` for the first slot that holds `target`.
pub fn find_index(table: &[TypeIdConst], target: &TypeIdConst) -> (found: Option<usize>)
    ensures
        is_lookup(table@, *target, found),
{
    let mut i: usize = 0;
    while i < table.len()
        invariant
            i <= table@.len(),
            forall|j: int| 0 <= j < i ==> table@[j] != *target,
        decreases table@.len() - i,
    {
        if table[i].eq(target) {
            return Some(i);
        }
        i = i + 1;
    }
    None
}

/// Lays out the identity table of `T` from the interfaces that it declares:
/// the base capability and `T` itself come first, then `array`.
pub fn append_array<T: 'static, const N: usize, const M: usize>(array: [TypeIdConst; N]) -> (table:
    [TypeIdConst; M])
    requires
        N + 2 == M,
    ensures
        exists|base: TypeIdConst, concrete: TypeIdConst|
            table@ == #[trigger] table_of(base, concrete, array@) && call_ensures(
                TypeIdConst::of::<dyn crate::AnyTrait>,
                (),
                base,
            ) && call_ensures(TypeIdConst::of::<T>, (), concrete),
{
    let base = TypeIdConst::of::<dyn crate::AnyTrait>();
    let concrete = TypeIdConst::of::<T>();
    build_table(base, concrete, array)
}

/// The first slot of `array` that holds the identity of `T`.
pub fn find_in<T: ?Sized + 'static, const N: usize>(array: [TypeIdConst; N]) -> (found: Option<
    usize,
>)
    ensures
        exists|id: TypeIdConst|
            #[trigger] is_lookup(array@, id, found) && call_ensures(TypeIdConst::of::<T>, (), id),
{
    let target = TypeIdConst::of::<T>();
    let found = find_index(array.as_slice(), &target);
    assert(is_lookup(array@, target, found));
    found
}

/// A lookup has exactly one answer.
pub proof fn lemma_lookup_unique(
    table: Seq<TypeIdConst>,
    target: TypeIdConst,
    a: Option<usize>,
    b: Option<usize>,
)
    requires
        is_lookup(table, target, a),
        is_lookup(table, target, b),
    ensures
        a == b,
{
    match (a, b) {
        (Some(i), Some(j)) => {
            assert(table[i as int] == target);
            assert(table[j as int] == target);
        },
        (Some(i), None) => {
            assert(table[i as int] == target);
        },
        (None, Some(j)) => {
            assert(table[j as int] == target);
        },
        (None, None) => {},
    }
}

/// A table has two slots more than the type has interfaces: the base
/// capability in slot 0, the concrete type in slot 1, and interface `k` in
/// slot `k + 2`.
pub proof fn lemma_table_layout(base: TypeIdConst, concrete: TypeIdConst, extras: Seq<TypeIdConst>)
    ensures
        table_of(base, concrete, extras).len() == extras.len() + 2,
        table_of(base, concrete, extras)[0] == base,
        table_of(base, concrete, extras)[1] == concrete,
        forall|k: int|
            0 <= k < extras.len() ==> table_of(base, concrete, extras)[k + 2] == #[trigger] extras[k],
{
}

/// Every sequence of two identities or more is the table of its first slot,
/// its second slot and the rest.
pub proof fn lemma_table_parts(table: Seq<TypeIdConst>)
    requires
        table.len() >= 2,
    ensures
        table == table_of(table[0], table[1], table.skip(2)),
{
    assert(table =~= table_of(table[0], table[1], table.skip(2)));
}

/// A table holds the base capability, the concrete type and the declared
/// interfaces, and nothing else.
pub proof fn lemma_table_holds(
    base: TypeIdConst,
    concrete: TypeIdConst,
    extras: Seq<TypeIdConst>,
    target: TypeIdConst,
)
    ensures
        table_of(base, concrete, extras).contains(target) <==> (target == base || target
            == concrete || extras.contains(target)),
{
    let table = table_of(base, concrete, extras);
    lemma_table_layout(base, concrete, extras);
    if target == base {
        assert(table[0] == target);
    }
    if target == concrete {
        assert(table[1] == target);
    }
    if extras.contains(target) {
        let k = choose|k: int| 0 <= k < extras.len() && extras[k] == target;
        assert(table[k + 2] == target);
    }
    if table.contains(target) {
        let i = choose|i: int| 0 <= i < table.len() && table[i] == target;
        if i >= 2 {
            assert(extras[i - 2] == target);
        }
    }
}

/// A lookup finds its target exactly when the table holds it.
pub proof fn lemma_found_iff_held(table: Seq<TypeIdConst>, target: TypeIdConst, found: Option<usize>)
    requires
        is_lookup(table, target, found),
    ensures
        found is Some <==> table.contains(target),
{
    if let Some(slot) = found {
        assert(table[slot as int] == target);
    }
}

/// The base capability is always found, in slot 0.
pub proof fn lemma_base_found(
    base: TypeIdConst,
    concrete: TypeIdConst,
    extras: Seq<TypeIdConst>,
    found: Option<usize>,
)
    requires
        is_lookup(table_of(base, concrete, extras), base, found),
    ensures
        found == Some(0usize),
{
    let table = table_of(base, concrete, extras);
    assert(is_lookup(table, base, Some(0usize)));
    lemma_lookup_unique(table, base, found, Some(0usize));
}

/// The concrete type is always found: in slot 1, or in slot 0 where it is its
/// own base capability.
pub proof fn lemma_concrete_found(
    base: TypeIdConst,
    concrete: TypeIdConst,
    extras: Seq<TypeIdConst>,
    found: Option<usize>,
)
    requires
        is_lookup(table_of(base, concrete, extras), concrete, found),
    ensures
        found == Some(if concrete == base { 0usize } else { 1usize }),
{
    let table = table_of(base, concrete, extras);
    let slot = if concrete == base { 0usize } else { 1usize };
    assert(is_lookup(table, concrete, Some(slot)));
    lemma_lookup_unique(table, concrete, found, Some(slot));
}

/// A declared interface is always found, no later than in its own slot, and
/// in its own slot where the table holds no identity twice.
pub proof fn lemma_interface_found(
    base: TypeIdConst,
    concrete: TypeIdConst,
    extras: Seq<TypeIdConst>,
    k: int,
    found: Option<usize>,
)
    requires
        0 <= k < extras.len(),
        is_lookup(table_of(base, concrete, extras), extras[k], found),
    ensures
        found is Some,
        found->0 <= k + 2,
        table_of(base, concrete, extras)[found->0 as int] == extras[k],
        table_of(base, concrete, extras).no_duplicates() ==> found->0 == k + 2,
{
    let table = table_of(base, concrete, extras);
    lemma_table_layout(base, concrete, extras);
    assert(table[k + 2] == extras[k]);
    assert(table.contains(extras[k]));
    let slot = found->0;
    if slot > k + 2 {
        assert(table[k + 2] != extras[k]);
    }
}

/// A target that is neither the base capability, nor the concrete type, nor a
/// declared interface is never found.
pub proof fn lemma_undeclared_missed(
    base: TypeIdConst,
    concrete: TypeIdConst,
    extras: Seq<TypeIdConst>,
    target: TypeIdConst,
    found: Option<usize>,
)
    requires
        target != base,
        target != concrete,
        !extras.contains(target),
        is_lookup(table_of(base, concrete, extras), target, found),
    ensures
        found is None,
{
    lemma_table_holds(base, concrete, extras, target);
    lemma_found_iff_held(table_of(base, concrete, extras), target, found);
}

/// A type that declares no interface has a table of exactly two slots, and
/// both its base capability and the type itself are found in it.
pub proof fn lemma_bare_table(
    base: TypeIdConst,
    concrete: TypeIdConst,
    to_base: Option<usize>,
    to_concrete: Option<usize>,
)
    requires
        is_lookup(table_of(base, concrete, Seq::empty()), base, to_base),
        is_lookup(table_of(base, concrete, Seq::empty()), concrete, to_concrete),
    ensures
        table_of(base, concrete, Seq::empty()).len() == 2,
        to_base == Some(0usize),
        to_concrete == Some(if concrete == base { 0usize } else { 1usize }),
{
    lemma_base_found(base, concrete, Seq::empty(), to_base);
    lemma_concrete_found(base, concrete, Seq::empty(), to_concrete);
}

} // verus!
