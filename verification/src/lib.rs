//! Casting between the capabilities of a value.
//!
//! A participating type declares a fixed list of interfaces. From a value of
//! the type, or from any view of it, one can ask for any other declared
//! view: the base capability, the concrete type, or one of the interfaces.
//! A cast looks the target up in the identity table of the value's type and,
//! on a hit, asks the type's dispatcher for the erased reference that stands
//! in the slot found. A target that the type did not declare is a miss and
//! gives `None`.
//!
//! The erased reference is handed out as machine words. Turning those words
//! back into a typed reference is left to the caller, who knows from the
//! lookup that the words belong to the target asked for.

use vstd::prelude::*;

pub mod anyptr;
pub mod typeidconst;

use crate::anyptr::AnyPtr;
use crate::anyptr::ErasedRef;
use crate::typeidconst::find_index;
use crate::typeidconst::is_first_slot;
use crate::typeidconst::is_lookup;
use crate::typeidconst::lemma_base_found;
use crate::typeidconst::lemma_concrete_found;
use crate::typeidconst::lemma_table_holds;
use crate::typeidconst::table_of;
use crate::typeidconst::TypeIdConst;

verus! {

/// Whether a table has the slot `slot`. Slots 0 and 1 are in every table.
pub open spec fn has_slot(table: Seq<TypeIdConst>, slot: usize) -> bool {
    slot < 2 || slot < table.len()
}

/// The shape that the erased reference in `slot` has: the base capability in
/// slot 0 is a trait object, the concrete type in slot 1 is sized.
pub open spec fn slot_shape(slot: usize, erased: ErasedRef) -> bool {
    &&& slot == 0 ==> erased is Fat
    &&& slot == 1 ==> erased is Thin
}

/// `erased` is what a cast to `target` answers on a value whose type has the
/// identity table `table`: the erased reference of the first slot that holds
/// `target`, or nothing when no slot does.
pub open spec fn is_cast(table: Seq<TypeIdConst>, target: TypeIdConst, erased: Option<AnyPtr>) -> bool {
    match erased {
        Some(ptr) => exists|slot: usize|
            #[trigger] is_first_slot(table, target, slot as int) && slot_shape(slot, ptr@),
        None => !table.contains(target),
    }
}

/// `erased` is what a shared cast of `obj` to `target` answers: what the
/// shared dispatcher of `obj` answers for the first slot of its table that holds `target`, or
/// nothing when no slot does.
pub open spec fn is_cast_of<T: AnyTrait + ?Sized>(
    obj: &T,
    target: TypeIdConst,
    erased: Option<AnyPtr>,
) -> bool {
    match erased {
        Some(ptr) => exists|slot: usize|
            #[trigger] is_first_slot(obj.table(), target, slot as int) && slot_shape(slot, ptr@)
                && obj.answers(slot, ptr@),
        None => !obj.table().contains(target),
    }
}

/// `erased` is what a cast of `obj` to `target` for exclusive access
/// answers: what the exclusive dispatcher of `obj` answers for the first slot
/// of its table that holds `target`, or nothing when no slot does.
pub open spec fn is_cast_mut_of<T: AnyTrait + ?Sized>(
    obj: &T,
    target: TypeIdConst,
    erased: Option<AnyPtr>,
) -> bool {
    match erased {
        Some(ptr) => exists|slot: usize|
            #[trigger] is_first_slot(obj.table(), target, slot as int) && slot_shape(slot, ptr@)
                && obj.answers_mut(slot, ptr@),
        None => !obj.table().contains(target),
    }
}

/// A type whose values can be cast to each of a declared list of views.
///
/// An implementation supplies the identity table of the type and the
/// dispatcher that erases a value as the view of a given slot.
pub trait AnyTrait: 'static {
    /// The identity table of the value's type. It is the same for every
    /// value of the type.
    spec fn table(&self) -> Seq<TypeIdConst>;

    /// Whether `erased` is a reference to `self`, seen as the view in slot
    /// `slot`: what the shared dispatcher answers.
    spec fn answers(&self, slot: usize, erased: ErasedRef) -> bool;

    /// Whether `erased` is a reference to `self` for exclusive access, seen
    /// as the view in slot `slot`: what the exclusive dispatcher answers.
    spec fn answers_mut(&self, slot: usize, erased: ErasedRef) -> bool;

    /// The identities of all views that the value can be cast to. Slot 0 is
    /// the base capability and slot 1 the concrete type, so there are always
    /// at least two.
    fn type_ids(&self) -> (ids: &'static [TypeIdConst])
        ensures
            ids@ == self.table(),
            ids@.len() >= 2,
    ;

    /// Erases `self`, seen as the view in slot `trait_num`: as the base
    /// capability for slot 0, as the concrete type for slot 1, and as the
    /// interface declared in that place for every later slot. There is no
    /// answer for a slot that the table does not have.
    fn type_erase(&self, trait_num: usize) -> (erased: AnyPtr)
        requires
            has_slot(self.table(), trait_num),
        ensures
            slot_shape(trait_num, erased@),
            self.answers(trait_num, erased@),
    ;

    /// Erases `self`, seen as the view in slot `trait_num`, for exclusive
    /// access. The value itself is left as it was.
    fn type_erase_mut(&mut self, trait_num: usize) -> (erased: AnyPtr)
        requires
            has_slot(old(self).table(), trait_num),
        ensures
            slot_shape(trait_num, erased@),
            old(self).answers_mut(trait_num, erased@),
            &*final(self) == &*old(self),
    ;
}

/// The way up from any view of a value to its base capability.
pub trait AsAnyTrait: AnyTrait {
    /// The value, erased as its base capability: what the dispatcher
    /// answers for slot 0.
    fn as_anytrait(&self) -> (base: AnyPtr)
        ensures
            base@ is Fat,
            self.answers(0, base@),
    ;

    /// The value, erased as its base capability, for exclusive access:
    /// what the dispatcher answers for slot 0.
    fn as_anytrait_mut(&mut self) -> (base: AnyPtr)
        ensures
            base@ is Fat,
            old(self).answers(0, base@),
            &*final(self) == &*old(self),
    ;
}

impl<T: AnyTrait + ?Sized> AsAnyTrait for T {
    fn as_anytrait(&self) -> (base: AnyPtr) {
        self.type_erase(0)
    }

    fn as_anytrait_mut(&mut self) -> (base: AnyPtr) {
        self.type_erase(0)
    }
}

/// Casts from any view of a value to any view that its type declares.
pub trait AnyTraitCast: AnyTrait {
    /// The slot of `target` in the identity table of the value's type.
    fn find_slot(&self, target: &TypeIdConst) -> (found: Option<usize>)
        ensures
            is_lookup(self.table(), *target, found),
    ;

    /// The value erased as the view that `target` names, if its type
    /// declares that view.
    fn erase_as(&self, target: &TypeIdConst) -> (erased: Option<AnyPtr>)
        ensures
            is_cast(self.table(), *target, erased),
            is_cast_of(self, *target, erased),
    ;

    /// The value erased as the view that `target` names, for exclusive
    /// access, if its type declares that view.
    fn erase_as_mut(&mut self, target: &TypeIdConst) -> (erased: Option<AnyPtr>)
        ensures
            is_cast(old(self).table(), *target, erased),
            is_cast_mut_of(&*old(self), *target, erased),
            &*final(self) == &*old(self),
    ;

    /// The slot of `D` in the identity table of the value's type.
    fn trait_idx<D: ?Sized + 'static>(&self) -> (found: Option<usize>)
        ensures
            exists|id: TypeIdConst|
                #[trigger] is_lookup(self.table(), id, found) && call_ensures(
                    TypeIdConst::of::<D>,
                    (),
                    id,
                ),
    ;

    /// The value erased as a `D`, if its type declares `D`.
    fn cast_ref<D: ?Sized + 'static>(&self) -> (erased: Option<AnyPtr>)
        ensures
            exists|id: TypeIdConst|
                #[trigger] is_cast_of(self, id, erased) && is_cast(self.table(), id, erased)
                    && call_ensures(TypeIdConst::of::<D>, (), id),
    ;

    /// The value erased as a `D` for exclusive access, if its type declares
    /// `D`.
    fn cast_mut<D: ?Sized + 'static>(&mut self) -> (erased: Option<AnyPtr>)
        ensures
            exists|id: TypeIdConst|
                #[trigger] is_cast_mut_of(&*old(self), id, erased) && is_cast(
                    old(self).table(),
                    id,
                    erased,
                ) && call_ensures(TypeIdConst::of::<D>, (), id),
            &*final(self) == &*old(self),
    ;
}

impl<T: AnyTrait + ?Sized> AnyTraitCast for T {
    fn find_slot(&self, target: &TypeIdConst) -> (found: Option<usize>) {
        find_index(self.type_ids(), target)
    }

    fn erase_as(&self, target: &TypeIdConst) -> (erased: Option<AnyPtr>) {
        match self.find_slot(target) {
            Some(slot) => {
                let ptr = self.type_erase(slot);
                assert(is_first_slot(self.table(), *target, slot as int));
                Some(ptr)
            },
            None => None,
        }
    }

    fn erase_as_mut(&mut self, target: &TypeIdConst) -> (erased: Option<AnyPtr>) {
        match self.find_slot(target) {
            Some(slot) => {
                let ptr = self.type_erase_mut(slot);
                assert(is_first_slot(old(self).table(), *target, slot as int));
                Some(ptr)
            },
            None => None,
        }
    }

    fn trait_idx<D: ?Sized + 'static>(&self) -> (found: Option<usize>) {
        let t = TypeIdConst::of::<D>();
        let found = self.find_slot(&t);
        assert(is_lookup(self.table(), t, found));
        found
    }

    fn cast_ref<D: ?Sized + 'static>(&self) -> (erased: Option<AnyPtr>) {
        let t = TypeIdConst::of::<D>();
        let erased = self.erase_as(&t);
        assert(is_cast_of(self, t, erased));
        erased
    }

    fn cast_mut<D: ?Sized + 'static>(&mut self) -> (erased: Option<AnyPtr>) {
        let t = TypeIdConst::of::<D>();
        let erased = self.erase_as_mut(&t);
        assert(is_cast_mut_of(&*old(self), t, erased));
        erased
    }
}

/// A cast succeeds exactly when the table holds the target.
pub proof fn lemma_cast_iff_held(
    table: Seq<TypeIdConst>,
    target: TypeIdConst,
    erased: Option<AnyPtr>,
)
    requires
        is_cast(table, target, erased),
    ensures
        erased is Some <==> table.contains(target),
{
    if erased is Some {
        let slot = choose|slot: usize| #[trigger]
            is_first_slot(table, target, slot as int) && slot_shape(slot, erased->0@);
        assert(table[slot as int] == target);
    }
}

/// Where the two dispatchers of a value answer alike and have one answer
/// for each slot, the shared and the exclusive cast of the value to one
/// target hit or miss together and give the same reference.
pub proof fn lemma_casts_agree<T: AnyTrait + ?Sized>(
    obj: &T,
    target: TypeIdConst,
    shared: Option<AnyPtr>,
    exclusive: Option<AnyPtr>,
)
    requires
        is_cast_of(obj, target, shared),
        is_cast_mut_of(obj, target, exclusive),
        forall|slot: usize, a: ErasedRef|
            #[trigger] obj.answers(slot, a) <==> #[trigger] obj.answers_mut(slot, a),
        forall|slot: usize, a: ErasedRef, b: ErasedRef|
            #[trigger] obj.answers(slot, a) && #[trigger] obj.answers(slot, b) ==> a == b,
    ensures
        shared is Some <==> exclusive is Some,
        shared is Some ==> shared->0@ == exclusive->0@,
{
    let table = obj.table();
    if let Some(a) = shared {
        let i = choose|slot: usize| #[trigger]
            is_first_slot(table, target, slot as int) && slot_shape(slot, a@) && obj.answers(
                slot,
                a@,
            );
        assert(table[i as int] == target);
        if let Some(b) = exclusive {
            let j = choose|slot: usize| #[trigger]
                is_first_slot(table, target, slot as int) && slot_shape(slot, b@)
                    && obj.answers_mut(slot, b@);
            assert(table[j as int] == target);
            assert(i == j);
            assert(obj.answers(j, b@));
        }
    }
    if let Some(b) = exclusive {
        let j = choose|slot: usize| #[trigger]
            is_first_slot(table, target, slot as int) && slot_shape(slot, b@) && obj.answers_mut(
                slot,
                b@,
            );
        assert(table[j as int] == target);
    }
}

/// A cast to the base capability always succeeds, and gives a trait object.
pub proof fn lemma_cast_to_base(
    base: TypeIdConst,
    concrete: TypeIdConst,
    extras: Seq<TypeIdConst>,
    erased: Option<AnyPtr>,
)
    requires
        is_cast(table_of(base, concrete, extras), base, erased),
    ensures
        erased is Some,
        erased->0@ is Fat,
{
    let table = table_of(base, concrete, extras);
    lemma_table_holds(base, concrete, extras, base);
    lemma_cast_iff_held(table, base, erased);
    let slot = choose|slot: usize| #[trigger]
        is_first_slot(table, base, slot as int) && slot_shape(slot, erased->0@);
    lemma_base_found(base, concrete, extras, Some(slot));
}

/// A cast to the concrete type always succeeds, and gives a reference to a
/// sized value.
pub proof fn lemma_cast_to_concrete(
    base: TypeIdConst,
    concrete: TypeIdConst,
    extras: Seq<TypeIdConst>,
    erased: Option<AnyPtr>,
)
    requires
        is_cast(table_of(base, concrete, extras), concrete, erased),
    ensures
        erased is Some,
        concrete != base ==> erased->0@ is Thin,
{
    let table = table_of(base, concrete, extras);
    lemma_table_holds(base, concrete, extras, concrete);
    lemma_cast_iff_held(table, concrete, erased);
    let slot = choose|slot: usize| #[trigger]
        is_first_slot(table, concrete, slot as int) && slot_shape(slot, erased->0@);
    lemma_concrete_found(base, concrete, extras, Some(slot));
}

/// A cast to a declared interface always succeeds.
pub proof fn lemma_cast_to_declared(
    base: TypeIdConst,
    concrete: TypeIdConst,
    extras: Seq<TypeIdConst>,
    k: int,
    erased: Option<AnyPtr>,
)
    requires
        0 <= k < extras.len(),
        is_cast(table_of(base, concrete, extras), extras[k], erased),
    ensures
        erased is Some,
{
    lemma_table_holds(base, concrete, extras, extras[k]);
    lemma_cast_iff_held(table_of(base, concrete, extras), extras[k], erased);
}

/// A cast to anything that the type did not declare always fails.
pub proof fn lemma_cast_to_undeclared(
    base: TypeIdConst,
    concrete: TypeIdConst,
    extras: Seq<TypeIdConst>,
    target: TypeIdConst,
    erased: Option<AnyPtr>,
)
    requires
        target != base,
        target != concrete,
        !extras.contains(target),
        is_cast(table_of(base, concrete, extras), target, erased),
    ensures
        erased is None,
{
    lemma_table_holds(base, concrete, extras, target);
    lemma_cast_iff_held(table_of(base, concrete, extras), target, erased);
}

/// Declared interfaces are reachable from one another: after a cast to
/// interface `i`, the way back to the base capability is open, and from
/// there the cast to interface `j` succeeds as well.
pub proof fn lemma_side_cast(
    base: TypeIdConst,
    concrete: TypeIdConst,
    extras: Seq<TypeIdConst>,
    i: int,
    j: int,
    first: Option<AnyPtr>,
    up: Option<AnyPtr>,
    second: Option<AnyPtr>,
)
    requires
        0 <= i < extras.len(),
        0 <= j < extras.len(),
        is_cast(table_of(base, concrete, extras), extras[i], first),
        is_cast(table_of(base, concrete, extras), base, up),
        is_cast(table_of(base, concrete, extras), extras[j], second),
    ensures
        first is Some,
        up is Some,
        second is Some,
{
    lemma_cast_to_declared(base, concrete, extras, i, first);
    lemma_cast_to_base(base, concrete, extras, up);
    lemma_cast_to_declared(base, concrete, extras, j, second);
}

/// A type that declares no interface has a table of exactly two slots and
/// can be cast to both of them.
pub proof fn lemma_cast_bare(
    base: TypeIdConst,
    concrete: TypeIdConst,
    to_base: Option<AnyPtr>,
    to_concrete: Option<AnyPtr>,
)
    requires
        is_cast(table_of(base, concrete, Seq::empty()), base, to_base),
        is_cast(table_of(base, concrete, Seq::empty()), concrete, to_concrete),
    ensures
        table_of(base, concrete, Seq::empty()).len() == 2,
        to_base is Some,
        to_concrete is Some,
{
    lemma_cast_to_base(base, concrete, Seq::empty(), to_base);
    lemma_cast_to_concrete(base, concrete, Seq::empty(), to_concrete);
}

} // verus!
