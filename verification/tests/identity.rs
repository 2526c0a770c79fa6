// Identities, the layout of a table, and lookups in it.

use any_trait::typeidconst::{append_array, build_table, find_in, find_index, TypeIdConst};
use any_trait::AnyTrait;

trait Walk {}
trait Swim {}
struct Duck;

#[test]
fn identity_equals_itself() {
    let a = TypeIdConst::of::<Duck>();
    let b = TypeIdConst::of::<Duck>();
    assert!(a.eq(&b));
    assert!(b.eq(&a));
    assert!(a == b);
}

#[test]
fn identities_of_different_types_differ() {
    let duck = TypeIdConst::of::<Duck>();
    let walk = TypeIdConst::of::<dyn Walk>();
    let swim = TypeIdConst::of::<dyn Swim>();
    assert!(!duck.eq(&walk));
    assert!(!walk.eq(&swim));
    assert!(!swim.eq(&duck));
    assert!(duck != walk);
}

#[test]
fn identity_of_unsized_types() {
    let text = TypeIdConst::of::<str>();
    let bytes = TypeIdConst::of::<[u8]>();
    assert!(text.eq(&TypeIdConst::of::<str>()));
    assert!(!text.eq(&bytes));
}

#[test]
fn identity_is_copied_unchanged() {
    let a = TypeIdConst::of::<u32>();
    let b = a;
    let c = a.clone();
    assert!(a.eq(&b));
    assert!(a.eq(&c));
}

#[test]
fn table_starts_with_base_and_concrete() {
    let base = TypeIdConst::of::<dyn AnyTrait>();
    let duck = TypeIdConst::of::<Duck>();
    let walk = TypeIdConst::of::<dyn Walk>();
    let swim = TypeIdConst::of::<dyn Swim>();
    let table: [TypeIdConst; 4] = build_table(base, duck, [walk, swim]);
    assert_eq!(table.len(), 4);
    assert!(table[0] == base);
    assert!(table[1] == duck);
    assert!(table[2] == walk);
    assert!(table[3] == swim);
}

#[test]
fn table_keeps_declaration_order() {
    let base = TypeIdConst::of::<dyn AnyTrait>();
    let duck = TypeIdConst::of::<Duck>();
    let walk = TypeIdConst::of::<dyn Walk>();
    let swim = TypeIdConst::of::<dyn Swim>();
    let table: [TypeIdConst; 4] = build_table(base, duck, [swim, walk]);
    assert!(table[2] == swim);
    assert!(table[3] == walk);
}

#[test]
fn table_without_interfaces_has_two_slots() {
    let base = TypeIdConst::of::<dyn AnyTrait>();
    let duck = TypeIdConst::of::<Duck>();
    let table: [TypeIdConst; 2] = build_table(base, duck, []);
    assert_eq!(table.len(), 2);
    assert!(table[0] == base);
    assert!(table[1] == duck);
    assert_eq!(find_index(&table, &base), Some(0));
    assert_eq!(find_index(&table, &duck), Some(1));
}

#[test]
fn lookup_finds_every_slot() {
    let base = TypeIdConst::of::<dyn AnyTrait>();
    let duck = TypeIdConst::of::<Duck>();
    let walk = TypeIdConst::of::<dyn Walk>();
    let swim = TypeIdConst::of::<dyn Swim>();
    let table: [TypeIdConst; 4] = build_table(base, duck, [walk, swim]);
    assert_eq!(find_index(&table, &base), Some(0));
    assert_eq!(find_index(&table, &duck), Some(1));
    assert_eq!(find_index(&table, &walk), Some(2));
    assert_eq!(find_index(&table, &swim), Some(3));
}

#[test]
fn lookup_misses_what_is_not_there() {
    let base = TypeIdConst::of::<dyn AnyTrait>();
    let duck = TypeIdConst::of::<Duck>();
    let walk = TypeIdConst::of::<dyn Walk>();
    let table: [TypeIdConst; 3] = build_table(base, duck, [walk]);
    assert_eq!(find_index(&table, &TypeIdConst::of::<dyn Swim>()), None);
    assert_eq!(find_index(&table, &TypeIdConst::of::<usize>()), None);
}

#[test]
fn lookup_in_empty_table_misses() {
    let none: [TypeIdConst; 0] = [];
    assert_eq!(find_index(&none, &TypeIdConst::of::<Duck>()), None);
}

#[test]
fn lookup_answers_first_of_equal_slots() {
    let base = TypeIdConst::of::<dyn AnyTrait>();
    let duck = TypeIdConst::of::<Duck>();
    let walk = TypeIdConst::of::<dyn Walk>();
    let table: [TypeIdConst; 5] = build_table(base, duck, [walk, duck, walk]);
    assert_eq!(find_index(&table, &duck), Some(1));
    assert_eq!(find_index(&table, &walk), Some(2));
    let same: [TypeIdConst; 2] = build_table(duck, duck, []);
    assert_eq!(find_index(&same, &duck), Some(0));
}

#[test]
fn append_array_puts_base_and_type_in_front() {
    let walk = TypeIdConst::of::<dyn Walk>();
    let swim = TypeIdConst::of::<dyn Swim>();
    let table = append_array::<Duck, 2, 4>([walk, swim]);
    assert_eq!(table.len(), 4);
    assert!(table[0] == TypeIdConst::of::<dyn AnyTrait>());
    assert!(table[1] == TypeIdConst::of::<Duck>());
    assert!(table[2] == walk);
    assert!(table[3] == swim);
}

#[test]
fn append_array_of_nothing_has_two_slots() {
    let table = append_array::<Duck, 0, 2>([]);
    assert_eq!(table.len(), 2);
    assert!(table[0] == TypeIdConst::of::<dyn AnyTrait>());
    assert!(table[1] == TypeIdConst::of::<Duck>());
}

#[test]
fn find_in_gives_the_slot_of_a_type() {
    let walk = TypeIdConst::of::<dyn Walk>();
    let swim = TypeIdConst::of::<dyn Swim>();
    let table = append_array::<Duck, 2, 4>([walk, swim]);
    assert_eq!(find_in::<dyn AnyTrait, 4>(table), Some(0));
    assert_eq!(find_in::<Duck, 4>(table), Some(1));
    assert_eq!(find_in::<dyn Walk, 4>(table), Some(2));
    assert_eq!(find_in::<dyn Swim, 4>(table), Some(3));
}

#[test]
fn find_in_misses_a_type_that_is_not_listed() {
    let walk = TypeIdConst::of::<dyn Walk>();
    let table = append_array::<Duck, 1, 3>([walk]);
    assert_eq!(find_in::<dyn Swim, 3>(table), None);
    assert_eq!(find_in::<u8, 3>(table), None);
}
