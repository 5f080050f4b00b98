use wren_vm::Configuration;
use wren_vm::SlotType;
use wren_vm::VM;

#[test]
fn new_list_is_empty() {
    let mut vm = VM::new(Configuration::new());
    vm.set_slot_new_list(0);
    assert_eq!(vm.get_slot_type(0), SlotType::List);
    assert_eq!(vm.get_list_count(0), 0);
}

#[test]
fn list_count_on_non_list_is_zero() {
    let mut vm = VM::new(Configuration::new());
    vm.set_slot_bool(0, true);
    vm.set_slot_string(1, "not a list");
    vm.set_slot_null(2);
    assert_eq!(vm.get_list_count(0), 0);
    assert_eq!(vm.get_list_count(1), 0);
    assert_eq!(vm.get_list_count(2), 0);
}

#[test]
fn insert_appends_with_negative_one() {
    let mut vm = VM::new(Configuration::new());
    vm.set_slot_new_list(0);
    vm.set_slot_double(1, (1.0f64).to_bits());
    vm.insert_in_list(0, -1, 1);
    vm.set_slot_double(1, (2.0f64).to_bits());
    vm.insert_in_list(0, -1, 1);
    vm.set_slot_double(1, (3.0f64).to_bits());
    vm.insert_in_list(0, -1, 1);
    assert_eq!(vm.get_list_count(0), 3);
    vm.get_list_element(0, 0, 2);
    assert_eq!(vm.get_slot_double(2), Some((1.0f64).to_bits()));
    vm.get_list_element(0, 2, 2);
    assert_eq!(vm.get_slot_double(2), Some((3.0f64).to_bits()));
}

#[test]
fn negative_one_behaves_like_the_length() {
    // Two identical machines; one inserts at -1, the other at the list's
    // length.  The results agree element for element.
    let mut a = VM::new(Configuration::new());
    let mut b = VM::new(Configuration::new());
    for vm in [&mut a, &mut b] {
        vm.set_slot_new_list(0);
        vm.set_slot_string(1, "x");
        vm.insert_in_list(0, 0, 1);
        vm.set_slot_string(1, "y");
        vm.insert_in_list(0, 1, 1);
    }
    a.set_slot_string(1, "z");
    a.insert_in_list(0, -1, 1);
    b.set_slot_string(1, "z");
    b.insert_in_list(0, 2, 1);
    assert_eq!(a.get_list_count(0), b.get_list_count(0));
    for i in 0..3 {
        a.get_list_element(0, i, 2);
        b.get_list_element(0, i, 2);
        assert_eq!(a.get_slot_string(2), b.get_slot_string(2));
    }
    a.get_list_element(0, 2, 2);
    assert_eq!(a.get_slot_string(2), Some(String::from("z")));
}

#[test]
fn insert_shifts_later_elements() {
    let mut vm = VM::new(Configuration::new());
    vm.set_slot_new_list(0);
    vm.set_slot_string(1, "first");
    vm.insert_in_list(0, 0, 1);
    vm.set_slot_string(1, "third");
    vm.insert_in_list(0, 1, 1);
    vm.set_slot_string(1, "second");
    vm.insert_in_list(0, 1, 1);
    assert_eq!(vm.get_list_count(0), 3);
    vm.get_list_element(0, 0, 2);
    assert_eq!(vm.get_slot_string(2), Some(String::from("first")));
    vm.get_list_element(0, 1, 2);
    assert_eq!(vm.get_slot_string(2), Some(String::from("second")));
    vm.get_list_element(0, 2, 2);
    assert_eq!(vm.get_slot_string(2), Some(String::from("third")));
}

#[test]
fn negative_indices_count_from_the_end_on_reads() {
    let mut vm = VM::new(Configuration::new());
    vm.set_slot_new_list(0);
    vm.set_slot_string(1, "a");
    vm.insert_in_list(0, -1, 1);
    vm.set_slot_string(1, "b");
    vm.insert_in_list(0, -1, 1);
    // -2 names the position one before the append position: the last element.
    vm.get_list_element(0, -2, 2);
    assert_eq!(vm.get_slot_string(2), Some(String::from("b")));
    vm.get_list_element(0, -3, 2);
    assert_eq!(vm.get_slot_string(2), Some(String::from("a")));
}

#[test]
fn reading_negative_one_matches_reading_the_length() {
    // Reading at -1 and reading at the list's length name the same absolute
    // position — one past the last element — and behave identically: the
    // destination slot gets an engine-defined value.
    let mut a = VM::new(Configuration::new());
    let mut b = VM::new(Configuration::new());
    for vm in [&mut a, &mut b] {
        vm.set_slot_new_list(0);
        vm.set_slot_string(1, "only");
        vm.insert_in_list(0, -1, 1);
    }
    a.get_list_element(0, -1, 2);
    b.get_list_element(0, 1, 2);
    assert_eq!(a.get_slot_type(2), b.get_slot_type(2));
    assert_eq!(a.get_slot_type(2), SlotType::Unknown);
}

#[test]
fn a_list_slot_copies_as_a_reference() {
    // Copying a list slot copies the reference, as the engine does: the copy
    // sees later inserts.
    let mut vm = VM::new(Configuration::new());
    vm.set_slot_new_list(0);
    vm.set_slot_string(1, "elem");
    vm.insert_in_list(0, -1, 1);
    let h = vm.get_slot_handle(0);
    vm.set_slot_handle(3, &h);
    vm.set_slot_string(1, "more");
    vm.insert_in_list(3, -1, 1);
    assert_eq!(vm.get_list_count(0), 2);
    vm.release_handle(h);
}
